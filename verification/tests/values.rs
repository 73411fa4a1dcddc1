use std::cmp::Ordering;
use std::sync::Arc;

use coeus_emulation::instruction::InstructionOffset;
use coeus_emulation::models::Class;
use coeus_emulation::name_map::NameMap;
use coeus_emulation::text::{decimal, qualified_name, same_text};
use coeus_emulation::vm::register::Register;
use coeus_emulation::vm::runtime::{ambient_type, Builtins, StringClass};
use coeus_emulation::vm::value::{ClassInstance, InformationNode, InternalObject, Value};

fn class(name: &str) -> Arc<Class> {
    Arc::new(Class { class_name: name.to_string(), class_idx: 0, codes: vec![], static_fields: vec![] })
}

#[test]
fn registers_compare_by_their_numbers() {
    assert_eq!(Register::Literal(-4).get_int(), -4);
    assert_eq!(Register::Reference("LMain;".to_string(), 0xffff_ffff).get_int(), 4_294_967_295);
    assert_eq!(Register::Empty.get_int(), 0);
    assert_eq!(Register::Null.get_int(), 0);
    assert_eq!(Register::LiteralWide(7).get_int(), 0);
    assert_eq!(Register::Paired(7).get_int(), 0);
}

#[test]
fn the_order_of_registers() {
    let low = Register::Literal(-1);
    let high = Register::Reference("LMain;".to_string(), 3);
    assert!(low < high && high > low && low <= high);
    assert!(Register::Null == Register::Literal(0));
    assert!(low != high);
    assert_eq!(low.cmp(&high), Ordering::Less);
    assert_eq!(high.cmp(&low), Ordering::Greater);
    assert_eq!(Register::Empty.cmp(&Register::LiteralWide(3)), Ordering::Equal);
    assert_eq!(high.partial_cmp(&Register::Literal(3)), Some(Ordering::Equal));
}

#[test]
fn strings_show_their_text() {
    let builtins = Builtins::standard();
    let string = StringClass::new(&builtins, "hello".to_string());
    assert!(string.is_string());
    assert_eq!(Value::Object(string).as_string(), Some("hello".to_string()));
    let bare = ClassInstance::new(class("Ljava/lang/String;"));
    assert_eq!(Value::Object(bare).as_string(), Some("NEW INSTANCE".to_string()));
    let mut state = NameMap::new();
    state.insert("tmp_string".to_string(), InternalObject::I32(4));
    let odd = ClassInstance::with_internal_state(class("Ljava/lang/String;"), state);
    assert_eq!(Value::Object(odd).as_string(), Some("NEW INSTANCE".to_string()));
}

#[test]
fn other_values_show_no_text() {
    assert_eq!(Value::Object(ClassInstance::new(class("LMain;"))).as_string(), None);
    assert_eq!(Value::Int(4).as_string(), None);
    assert_eq!(Value::Byte(-4).as_string(), None);
    assert_eq!(Value::Array(vec![104, 105]).as_string(), None);
}

#[test]
fn instances_of_builtin_classes() {
    let builtins = Builtins::standard().with_class(class("LMine;"));
    let mut state = NameMap::new();
    state.insert("n".to_string(), InternalObject::U32(9));
    let made = ClassInstance::from_class_name(&builtins, "LMine;", state).unwrap();
    assert_eq!(made.class.class_name, "LMine;");
    assert!(matches!(made.internal_state.get("n"), Some(InternalObject::U32(9))));
    assert!(made.instances.names().is_empty());
    let refused = ClassInstance::from_class_name(&builtins, "LYours;", NameMap::new());
    assert_eq!(refused.err().map(|error| error.message()), Some("No Builtin found".to_string()));
}

#[test]
fn the_standard_builtins() {
    let builtins = Builtins::standard();
    for name in vec![
        "Ljava/lang/String;",
        "Landroid/content/Context;",
        "Landroid/app/Application;",
        "Ljava/nio/charset/Charset;",
    ] {
        assert_eq!(builtins.get(name).unwrap().class_name, name);
        assert_eq!(ambient_type(name), name != "Ljava/lang/String;");
    }
    assert!(builtins.get("LMain;").is_none());
}

#[test]
fn names_keep_one_value_each() {
    let mut map: NameMap<u32> = NameMap::new();
    map.insert("a".to_string(), 1);
    map.insert("b".to_string(), 2);
    map.insert("a".to_string(), 3);
    assert_eq!(map.get("a"), Some(&3));
    assert_eq!(map.get("b"), Some(&2));
    assert_eq!(map.get("c"), None);
    assert_eq!(map.names(), vec!["a".to_string(), "b".to_string()]);
    let copy = map.clone();
    map.insert("c".to_string(), 4);
    assert!(!copy.contains_key("c") && map.contains_key("c"));
}

#[test]
fn text_is_built_and_compared() {
    assert_eq!(decimal(0), "0");
    assert_eq!(decimal(4_294_967_295), "4294967295");
    assert_eq!(qualified_name("LMain;", "count"), "LMain;->count");
    assert!(same_text("ab", "ab") && !same_text("ab", "abc"));
}

#[test]
fn addresses_wrap_around() {
    assert_eq!(InstructionOffset(3).offset_by(-4), InstructionOffset(0xffff_ffff));
    assert_eq!(InstructionOffset(0xffff_ffff).skip(2), InstructionOffset(1));
}

#[test]
fn information_can_be_copied() {
    let node = InformationNode::Source(Value::Int(3));
    assert!(matches!(node.clone(), InformationNode::Source(Value::Int(3))));
    let bytes = [1u8, 2];
    assert!(matches!(InformationNode::ArrayData(&bytes).clone(), InformationNode::ArrayData(data) if data == bytes));
}
