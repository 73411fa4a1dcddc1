use std::sync::Arc;

use coeus_emulation::instruction::{CodeItem, Instruction, InstructionOffset, InstructionSize};
use coeus_emulation::models::{
    Class, DexFile, EncodedItem, Field, Method, MethodData, ValueType,
};
use coeus_emulation::name_map::NameMap;
use coeus_emulation::vm::effects::Motion;
use coeus_emulation::vm::exception::{ExecutionState, VMException};
use coeus_emulation::vm::run::Progress;
use coeus_emulation::vm::register::Register;
use coeus_emulation::vm::runtime::Builtins;
use coeus_emulation::vm::state::VM;
use coeus_emulation::vm::value::{ClassInstance, Value};
use petgraph::graph::NodeIndex;

fn body(registers: u16, params: u16, list: Vec<(u32, Instruction)>) -> Arc<CodeItem> {
    let mut insns = Vec::new();
    let mut address = 0;
    for (units, instruction) in list {
        insns.push((InstructionSize(units * 2), InstructionOffset(address), instruction));
        address += units;
    }
    Arc::new(CodeItem { register_size: registers, ins_size: params, insns })
}

fn field(class_idx: u16, type_idx: u16, name: &str) -> Field {
    Field { class_idx, type_idx, name: name.to_string() }
}

fn initializer(code: Option<Arc<CodeItem>>) -> MethodData {
    MethodData {
        method_idx: 50,
        method: Method {
            method_idx: 50,
            class_idx: 0,
            proto_idx: 0,
            method_name: "<clinit>".to_string(),
            proto_name: "()V".to_string(),
        },
        name: "<clinit>".to_string(),
        access_flags: 0,
        code,
    }
}

/// Type 0 is the class of the file; types 1 to 4 are named only; type 9 has a
/// class but no name.
fn file(codes: Vec<MethodData>, static_fields: Vec<(u32, EncodedItem)>) -> Arc<DexFile> {
    let class = |name: &str, idx: u32| {
        Arc::new(Class { class_name: name.to_string(), class_idx: idx, codes: vec![], static_fields: vec![] })
    };
    Arc::new(DexFile {
        identifier: "main".to_string(),
        strings: vec!["zero".to_string(), "one".to_string()],
        type_names: vec![
            "LMain;".to_string(),
            "Landroid/content/Context;".to_string(),
            "LLib;".to_string(),
            "LNowhere;".to_string(),
            "[C".to_string(),
        ],
        protos: vec![],
        fields: vec![
            field(0, 2, "text"),
            field(0, 1, "context"),
            field(0, 2, "count"),
            field(3, 2, "lost"),
            field(77, 2, "unnamed"),
        ],
        methods: vec![],
        classes: vec![
            Arc::new(Class { class_name: "LMain;".to_string(), class_idx: 0, codes, static_fields }),
            class("LHidden;", 9),
        ],
    })
}

fn library() -> Arc<DexFile> {
    let mut library = (*file(vec![], vec![])).clone();
    library.identifier = "lib".to_string();
    library.classes = vec![Arc::new(Class {
        class_name: "LLib;".to_string(),
        class_idx: 33,
        codes: vec![],
        static_fields: vec![],
    })];
    Arc::new(library)
}

fn machine_for(main: Arc<DexFile>) -> VM {
    VM::new(main, vec![library()], Arc::new(NameMap::new()), Arc::new(Builtins::standard()))
}

fn machine() -> VM {
    machine_for(file(vec![], vec![]))
}

fn run(vm: &mut VM, registers: u16, list: Vec<(u32, Instruction)>) -> Result<Progress, VMException> {
    vm.start(0, "main", &body(registers, 0, list), vec![])
}

fn finishes(vm: &mut VM, registers: u16, list: Vec<(u32, Instruction)>) {
    let result = run(vm, registers, list);
    assert!(matches!(result, Ok(Progress::Finished)), "{:?}", result);
}

fn reference(register: &Register) -> (String, u32) {
    match register {
        Register::Reference(ty, address) => (ty.clone(), *address),
        other => panic!("no reference: {:?}", other),
    }
}

fn object(name: &str) -> Value {
    Value::Object(ClassInstance::new(Arc::new(Class {
        class_name: name.to_string(),
        class_idx: 0,
        codes: vec![],
        static_fields: vec![],
    })))
}

fn array_of(vm: &VM, register: usize) -> Vec<u8> {
    match vm.get_instance(vm.get_registers()[register].clone()) {
        Value::Array(data) => data,
        _ => panic!("no array"),
    }
}

#[test]
fn a_constant_string_shows_its_text() {
    let mut vm = machine();
    finishes(&mut vm, 1, vec![(2, Instruction::ConstString(0, 1)), (1, Instruction::Return(0))]);
    assert_eq!(reference(&vm.get_registers()[0]).0, "Ljava/lang/String;");
    assert_eq!(vm.get_return_object().unwrap().as_string(), Some("one".to_string()));
    let missing = run(&mut vm, 1, vec![(2, Instruction::ConstString(0, 2)), (1, Instruction::ReturnVoid)]);
    assert!(matches!(missing, Err(VMException::StaticDataNotFound(2))));
}

#[test]
fn nothing_is_made_without_memory() {
    let mut vm = machine();
    vm.current_state.current_stackframe = vec![Register::Literal(3), Register::Empty];
    let main = vm.dex_file.clone();
    assert!(matches!(vm.const_string(0, 0, None), Err(VMException::OutOfMemory)));
    assert!(matches!(vm.new_object(&main, 0, 0, None), Err(VMException::OutOfMemory)));
    assert!(matches!(vm.filled_new_array(&vec![1], None), Err(VMException::OutOfMemory)));
    assert!(matches!(vm.place(None, "LMain;".to_string(), Value::Int(1)), Err(VMException::OutOfMemory)));
    // A new array is left out in silence.
    assert!(vm.new_array(1, 0, 4, None).is_ok());
    assert!(matches!(vm.get_registers()[1], Register::Empty));
    assert!(vm.get_heap().is_empty());
}

#[test]
fn objects_stand_at_the_address_that_was_given() {
    let mut vm = machine();
    vm.current_state.current_stackframe = vec![Register::Literal(3), Register::Empty];
    let main = vm.dex_file.clone();
    assert!(vm.const_string(1, 0, Some(10)).is_ok());
    assert_eq!(reference(&vm.get_registers()[1]), ("Ljava/lang/String;".to_string(), 10));
    assert!(matches!(vm.new_object(&main, 1, 0, Some(11)), Ok(Motion::Next)));
    assert_eq!(reference(&vm.get_registers()[1]), ("LMain;".to_string(), 11));
    assert!(vm.new_array(1, 0, 4, Some(12)).is_ok());
    assert_eq!(reference(&vm.get_registers()[1]), ("[C".to_string(), 12));
    assert!(vm.filled_new_array(&vec![1, 2], Some(13)).is_ok());
    assert_eq!(reference(&vm.current_state.return_reg), ("[B".to_string(), 13));
    let mut addresses: Vec<u32> = vm.get_heap().keys().copied().collect();
    addresses.sort();
    assert_eq!(addresses, vec![10, 11, 12, 13]);
}

#[test]
fn an_object_without_a_register_is_still_made() {
    let mut vm = machine();
    let result = run(&mut vm, 1, vec![(2, Instruction::NewInstance(5, 0)), (1, Instruction::ReturnVoid)]);
    assert!(matches!(result, Err(VMException::RegisterNotFound(5))));
    assert_eq!(vm.get_heap().len(), 1);
}

#[test]
fn arrays_are_made_of_zeros() {
    let mut vm = machine();
    finishes(
        &mut vm,
        4,
        vec![
            (1, Instruction::ConstLit4(0, 3)),
            (2, Instruction::NewArray(1, 0, 4)),
            (1, Instruction::ArrayLength(2, 1)),
            (1, Instruction::ConstLit4(0, 2)),
            (2, Instruction::ArrayGetByte(3, 1, 0)),
            (1, Instruction::ReturnVoid),
        ],
    );
    assert_eq!(array_of(&vm, 1), vec![0, 0, 0]);
    assert_eq!(reference(&vm.get_registers()[1]).0, "[C");
    assert!(matches!(vm.get_registers()[2], Register::Literal(3)));
    assert!(matches!(vm.get_registers()[3], Register::Literal(0)));
}

#[test]
fn an_array_of_an_unknown_type_is_one_of_bytes() {
    let mut vm = machine();
    finishes(
        &mut vm,
        2,
        vec![
            (1, Instruction::ConstLit4(0, 0)),
            (2, Instruction::NewArray(1, 0, 500)),
            (1, Instruction::ReturnVoid),
        ],
    );
    assert_eq!(reference(&vm.get_registers()[1]).0, "[B");
    assert!(array_of(&vm, 1).is_empty());
}

#[test]
fn large_and_negative_arrays_are_refused() {
    let mut vm = machine();
    for size in vec![100_001, -1] {
        let result = run(
            &mut vm,
            2,
            vec![
                (3, Instruction::ConstLit32(0, size)),
                (2, Instruction::NewArray(1, 0, 4)),
                (1, Instruction::ReturnVoid),
            ],
        );
        assert!(matches!(result, Err(VMException::StackOverflow)));
    }
    finishes(
        &mut vm,
        2,
        vec![
            (3, Instruction::ConstLit32(0, 100_000)),
            (2, Instruction::NewArray(1, 0, 4)),
            (1, Instruction::ReturnVoid),
        ],
    );
    assert_eq!(array_of(&vm, 1).len(), 100_000);
}

fn put_and_get(value: i32, index: i32) -> (VM, Result<Progress, VMException>) {
    let mut vm = machine();
    let result = run(
        &mut vm,
        4,
        vec![
            (1, Instruction::ConstLit4(0, 2)),
            (2, Instruction::NewArray(1, 0, 4)),
            (3, Instruction::ConstLit32(2, value)),
            (3, Instruction::ConstLit32(3, index)),
            (2, Instruction::ArrayPutByte(2, 1, 3)),
            (2, Instruction::ArrayGetChar(0, 1, 3)),
            (1, Instruction::Return(0)),
        ],
    );
    (vm, result)
}

#[test]
fn an_item_reads_as_the_low_byte_that_was_stored() {
    let (vm, result) = put_and_get(0x1_02fe, 1);
    assert!(matches!(result, Ok(Progress::Finished)));
    assert!(matches!(vm.get_return_object(), Some(Value::Int(0xfe))));
    assert_eq!(array_of(&vm, 1), vec![0, 0xfe]);
}

#[test]
fn items_outside_an_array_are_refused() {
    assert!(matches!(put_and_get(1, 2).1, Err(VMException::IndexOutOfBounds)));
    assert!(matches!(put_and_get(1, -1).1, Err(VMException::IndexOutOfBounds)));
    let mut vm = machine();
    vm.current_state.current_stackframe =
        vec![Register::Reference("[B".to_string(), 4), Register::Literal(3), Register::Literal(0)];
    vm.heap.insert(4, Value::Array(vec![7, 8, 9]));
    assert!(matches!(vm.array_get(1, 0, 1), Err(VMException::IndexOutOfBounds)));
    assert!(vm.array_get(1, 0, 2).is_ok());
    assert!(matches!(vm.get_registers()[1], Register::Literal(7)));
}

#[test]
fn array_operations_want_an_array() {
    let mut vm = machine();
    vm.current_state.current_stackframe =
        vec![Register::Reference("[B".to_string(), 4), Register::Literal(0), Register::Null];
    assert!(matches!(vm.array_get(1, 0, 1), Err(VMException::InstanceNotFound(4))));
    assert!(matches!(vm.array_put(1, 0, 1), Err(VMException::InstanceNotFound(4))));
    assert!(matches!(vm.array_put(1, 2, 1), Err(VMException::RegisterNotFound(2))));
    assert!(matches!(vm.array_length(1, 2), Err(VMException::InvalidRegisterType)));
    assert!(vm.array_get(1, 2, 1).is_ok());
    assert!(vm.array_length(1, 0).is_ok());
    assert!(matches!(vm.get_registers()[1], Register::Literal(0)));
}

#[test]
fn an_array_is_filled_with_the_data_of_the_method() {
    let mut vm = machine();
    finishes(
        &mut vm,
        2,
        vec![
            (1, Instruction::ConstLit4(0, 1)),
            (2, Instruction::NewArray(1, 0, 4)),
            (3, Instruction::FillArrayData(1, 4)),
            (1, Instruction::Return(1)),
            (4, Instruction::ArrayData(1, vec![3, 1, 4])),
        ],
    );
    assert_eq!(array_of(&vm, 1), vec![3, 1, 4]);
    let missing = run(
        &mut vm,
        2,
        vec![
            (1, Instruction::ConstLit4(0, 1)),
            (2, Instruction::NewArray(1, 0, 4)),
            (3, Instruction::FillArrayData(1, 90)),
            (1, Instruction::ReturnVoid),
        ],
    );
    assert!(matches!(missing, Err(VMException::InstanceNotFound(90))));
}

#[test]
fn a_filled_array_is_the_result() {
    let mut vm = machine();
    finishes(
        &mut vm,
        1,
        vec![
            (3, Instruction::FilledNewArray(2, 4, vec![5, 6])),
            (1, Instruction::MoveResultObject(0)),
            (1, Instruction::ReturnVoid),
        ],
    );
    assert_eq!(array_of(&vm, 0), vec![5, 6]);
}

#[test]
fn classes_are_found_in_the_file_the_runtime_and_the_builtins() {
    let mut vm = machine();
    for (class, name) in vec![(0, "LMain;"), (1, "Landroid/content/Context;"), (2, "LLib;")] {
        finishes(&mut vm, 1, vec![(2, Instruction::NewInstance(0, class)), (1, Instruction::Return(0))]);
        assert_eq!(reference(&vm.get_registers()[0]).0, name);
        match vm.get_return_object() {
            Some(Value::Object(instance)) => assert_eq!(instance.class.class_name, name),
            _ => panic!("no object"),
        }
    }
    let unknown = run(&mut vm, 1, vec![(2, Instruction::NewInstance(0, 3)), (1, Instruction::ReturnVoid)]);
    assert!(matches!(unknown, Err(VMException::ClassNotFound(3))));
    let unnamed = run(&mut vm, 1, vec![(2, Instruction::NewInstance(0, 60)), (1, Instruction::ReturnVoid)]);
    assert!(matches!(unnamed, Err(VMException::ClassNotFound(60))));
    let hidden = run(&mut vm, 1, vec![(2, Instruction::NewInstance(0, 9)), (1, Instruction::ReturnVoid)]);
    assert!(matches!(hidden, Ok(Progress::Stuck)));
}

#[test]
fn a_static_field_reads_as_what_was_stored() {
    let mut vm = machine();
    finishes(
        &mut vm,
        2,
        vec![
            (2, Instruction::ConstString(0, 1)),
            (2, Instruction::StaticPutObject(0, 0)),
            (2, Instruction::StaticGetObject(1, 0)),
            (1, Instruction::Return(1)),
        ],
    );
    let registers = vm.get_registers();
    assert_eq!(reference(&registers[0]), reference(&registers[1]));
    assert_eq!(vm.get_return_object().unwrap().as_string(), Some("one".to_string()));
    let slot = *vm.get_instances().get("LMain;->text").unwrap();
    assert_eq!(slot.address, reference(&registers[0]).1);
    assert_eq!(slot.node, NodeIndex::new(0));
}

#[test]
fn a_static_array_reads_as_bytes() {
    let mut vm = machine();
    finishes(
        &mut vm,
        2,
        vec![
            (1, Instruction::ConstLit4(0, 1)),
            (2, Instruction::NewArray(1, 0, 4)),
            (2, Instruction::StaticPutObject(1, 0)),
            (2, Instruction::StaticGetObject(0, 0)),
            (1, Instruction::ReturnVoid),
        ],
    );
    let registers = vm.get_registers();
    assert_eq!(reference(&registers[0]), ("[B".to_string(), reference(&registers[1]).1));
}

#[test]
fn a_second_object_takes_the_place_of_the_first() {
    let mut vm = machine();
    finishes(
        &mut vm,
        2,
        vec![
            (2, Instruction::ConstString(0, 0)),
            (2, Instruction::StaticPutObject(0, 0)),
            (2, Instruction::ConstString(1, 1)),
            (2, Instruction::StaticPutObject(1, 0)),
            (2, Instruction::StaticGetObject(0, 0)),
            (1, Instruction::Return(0)),
        ],
    );
    assert_eq!(vm.get_return_object().unwrap().as_string(), Some("one".to_string()));
    assert_eq!(vm.get_instances().names(), vec!["LMain;->text".to_string()]);
}

#[test]
fn static_fields_that_cannot_be_used() {
    let mut vm = machine();
    let one = |instruction: Instruction| vec![(2, instruction), (1, Instruction::ReturnVoid)];
    assert!(matches!(run(&mut vm, 1, one(Instruction::StaticPutObject(0, 0))), Err(VMException::RegisterNotFound(0))));
    assert!(matches!(run(&mut vm, 1, one(Instruction::StaticPutObject(0, 3))), Err(VMException::ClassNotFound(3))));
    assert!(matches!(run(&mut vm, 1, one(Instruction::StaticPutObject(0, 99))), Err(VMException::ClassNotFound(0))));
    assert!(matches!(run(&mut vm, 1, one(Instruction::StaticGetObject(0, 99))), Err(VMException::ClassNotFound(0))));
    assert!(matches!(run(&mut vm, 1, one(Instruction::StaticGetObject(0, 4))), Err(VMException::ClassNotFound(77))));
    assert!(matches!(run(&mut vm, 1, one(Instruction::StaticGetObject(0, 0))), Err(VMException::StaticDataNotFound(0))));
}

#[test]
fn a_static_field_that_refers_to_no_object_is_refused() {
    let mut vm = machine();
    let register = vm.new_instance("I".to_string(), Value::Int(4)).unwrap();
    let address = reference(&register).1;
    let code = body(1, 1, vec![
        (2, Instruction::StaticPutObject(0, 0)),
        (2, Instruction::StaticGetObject(0, 0)),
        (1, Instruction::ReturnVoid),
    ]);
    match vm.start(0, "main", &code, vec![register]) {
        Err(VMException::InvalidMemoryAddress(at)) => assert_eq!(at, address),
        other => panic!("{:?}", other),
    }
}

#[test]
fn storing_a_reference_to_nothing_has_no_result() {
    let mut vm = machine();
    let code = body(1, 1, vec![(2, Instruction::StaticPutObject(0, 0)), (1, Instruction::ReturnVoid)]);
    let result = vm.start(0, "main", &code, vec![Register::Reference("LMain;".to_string(), 1)]);
    assert!(matches!(result, Ok(Progress::Stuck)));
}

#[test]
fn a_static_field_starts_with_its_text() {
    let text = EncodedItem { value_type: ValueType::String, index: 1 };
    let mut vm = machine_for(file(vec![], vec![(0, text)]));
    finishes(&mut vm, 1, vec![(2, Instruction::StaticGetObject(0, 0)), (1, Instruction::Return(0))]);
    assert_eq!(vm.get_return_object().unwrap().as_string(), Some("one".to_string()));
    let number = EncodedItem { value_type: ValueType::Int, index: 1 };
    let mut other = machine_for(file(vec![], vec![(0, number)]));
    let result = run(&mut other, 1, vec![(2, Instruction::StaticGetObject(0, 0)), (1, Instruction::ReturnVoid)]);
    assert!(matches!(result, Err(VMException::StaticDataNotFound(0))));
}

#[test]
fn an_initializer_runs_before_its_class_is_read() {
    let clinit = body(
        1,
        0,
        vec![
            (2, Instruction::ConstString(0, 0)),
            (2, Instruction::StaticPutObject(0, 0)),
            (1, Instruction::ReturnVoid),
        ],
    );
    let mut vm = machine_for(file(vec![initializer(Some(clinit))], vec![]));
    finishes(
        &mut vm,
        2,
        vec![
            (1, Instruction::ConstLit4(1, 9)),
            (2, Instruction::StaticGetObject(0, 0)),
            (1, Instruction::Return(0)),
        ],
    );
    assert_eq!(vm.get_return_object().unwrap().as_string(), Some("zero".to_string()));
    assert!(matches!(vm.get_registers()[1], Register::Literal(9)));
    assert_eq!(vm.get_current_state().vm_state, ExecutionState::Finished);
}

#[test]
fn an_initializer_runs_once_for_an_instruction() {
    // It stores nothing, so the field is still missing afterwards.
    let clinit = body(0, 0, vec![(1, Instruction::ReturnVoid)]);
    let mut vm = machine_for(file(vec![initializer(Some(clinit))], vec![]));
    let result = run(&mut vm, 1, vec![(2, Instruction::StaticGetObject(0, 0)), (1, Instruction::ReturnVoid)]);
    assert!(matches!(result, Err(VMException::StaticDataNotFound(0))));
    assert!(vm.get_stack_frames().is_empty());
    assert_eq!(vm.get_current_state().vm_state, ExecutionState::Running);
}

#[test]
fn an_initializer_without_a_body_has_no_result() {
    let mut vm = machine_for(file(vec![initializer(None)], vec![]));
    let result = run(&mut vm, 1, vec![(2, Instruction::StaticGetObject(0, 0)), (1, Instruction::ReturnVoid)]);
    assert!(matches!(result, Ok(Progress::Stuck)));
}

#[test]
fn the_platform_hands_out_a_context() {
    let mut vm = machine();
    finishes(&mut vm, 1, vec![(2, Instruction::StaticGetObject(0, 1)), (1, Instruction::ReturnVoid)]);
    assert_eq!(reference(&vm.get_registers()[0]).0, "Landroid/content/Context;");
    assert!(vm.get_instances().contains_key("LMain;->context"));
    assert_eq!(vm.get_heap().len(), 1);
}

/// Runs on an object in register 1.
fn on_object(list: Vec<(u32, Instruction)>) -> (VM, Result<Progress, VMException>) {
    let mut vm = machine();
    let register = vm.new_instance("LMain;".to_string(), object("LMain;")).unwrap();
    let result = vm.start(0, "main", &body(3, 1, list), vec![register]);
    (vm, result)
}

#[test]
fn an_integer_field_reads_as_what_was_stored() {
    let (vm, result) = on_object(vec![
        (2, Instruction::ConstLit16(0, -7)),
        (2, Instruction::InstancePut(0, 2, 2)),
        (2, Instruction::ConstLit16(0, 44)),
        (2, Instruction::InstancePut(0, 2, 2)),
        (2, Instruction::InstanceGet(1, 2, 2)),
        (1, Instruction::Return(1)),
    ]);
    assert!(matches!(result, Ok(Progress::Finished)));
    assert!(matches!(vm.get_return_object(), Some(Value::Int(44))));
    // One object and the cell of one field.
    assert_eq!(vm.get_heap().len(), 2);
}

#[test]
fn a_field_that_was_never_set_reads_as_zero() {
    let (vm, result) = on_object(vec![
        (1, Instruction::ConstLit4(0, 5)),
        (2, Instruction::InstanceGet(0, 2, 2)),
        (1, Instruction::Return(0)),
    ]);
    assert!(matches!(result, Ok(Progress::Finished)));
    assert!(matches!(vm.get_return_object(), Some(Value::Int(0))));
}

#[test]
fn a_reference_field_reads_as_the_object_that_was_stored() {
    let (vm, result) = on_object(vec![
        (2, Instruction::ConstString(0, 1)),
        (2, Instruction::InstancePutObject(0, 2, 0)),
        (2, Instruction::InstanceGetObject(1, 2, 0)),
        (1, Instruction::Return(1)),
    ]);
    assert!(matches!(result, Ok(Progress::Finished)));
    assert_eq!(vm.get_return_object().unwrap().as_string(), Some("one".to_string()));
    // The register has the class of the owner as its type.
    assert_eq!(reference(&vm.get_registers()[1]).0, "LMain;");
}

#[test]
fn an_integer_takes_the_place_of_an_object_that_refers_to_itself() {
    let (vm, result) = on_object(vec![
        (2, Instruction::InstancePutObject(2, 2, 2)),
        (1, Instruction::ConstLit4(0, 5)),
        (2, Instruction::InstancePut(0, 2, 2)),
        (1, Instruction::ConstLit4(1, 1)),
        (2, Instruction::InstanceGet(1, 2, 2)),
        (1, Instruction::Return(2)),
    ]);
    assert!(matches!(result, Ok(Progress::Finished)));
    assert!(matches!(vm.get_return_object(), Some(Value::Int(5))));
    assert!(matches!(vm.get_registers()[1], Register::Literal(1)));
}

#[test]
fn fields_that_cannot_be_used() {
    for instruction in vec![
        Instruction::InstanceGet(0, 2, 99),
        Instruction::InstanceGetObject(0, 2, 99),
        Instruction::InstancePut(0, 2, 99),
        Instruction::InstancePutObject(0, 2, 99),
    ] {
        let (_, result) = on_object(vec![(2, instruction), (1, Instruction::ReturnVoid)]);
        assert!(matches!(result, Err(VMException::ClassNotFound(0))));
    }
    let (_, result) = on_object(vec![(2, Instruction::InstanceGet(0, 2, 3)), (1, Instruction::ReturnVoid)]);
    assert!(matches!(result, Err(VMException::ClassNotFound(3))));
    let mut vm = machine();
    let mut owner = ClassInstance::new(vm.dex_file.classes[0].clone());
    owner.instances.insert("LMain;->count".to_string(), 6);
    let register = vm.new_instance("LMain;".to_string(), Value::Object(owner)).unwrap();
    let code = body(3, 1, vec![(2, Instruction::InstanceGet(0, 2, 2)), (1, Instruction::ReturnVoid)]);
    assert!(matches!(vm.start(0, "main", &code, vec![register]), Err(VMException::StaticDataNotFound(2))));
}

#[test]
fn no_object_disappears_in_a_run() {
    let mut vm = machine();
    let kept = vm.new_instance("[B".to_string(), Value::Array(vec![1, 2, 3])).unwrap();
    let list: Vec<(u32, Instruction)> = (0..40)
        .map(|_| (2, Instruction::ConstString(0, 1)))
        .chain(vec![(1, Instruction::ReturnVoid)])
        .collect();
    finishes(&mut vm, 1, list);
    assert_eq!(vm.get_heap().len(), 41);
    assert!(matches!(vm.get_instance(kept), Value::Array(data) if data == vec![1, 2, 3]));
}

#[test]
fn storing_changes_one_object() {
    let mut vm = machine();
    let other = vm.new_instance("[B".to_string(), Value::Array(vec![9, 9])).unwrap();
    let array = vm.new_instance("[B".to_string(), Value::Array(vec![0, 0])).unwrap();
    let code = body(
        4,
        2,
        vec![
            (1, Instruction::ConstLit4(0, 1)),
            (1, Instruction::ConstLit4(1, 7)),
            (2, Instruction::ArrayPutByte(1, 3, 0)),
            (2, Instruction::ConstString(0, 0)),
            (1, Instruction::ReturnVoid),
        ],
    );
    assert!(matches!(vm.start(0, "main", &code, vec![other.clone(), array.clone()]), Ok(Progress::Finished)));
    assert!(matches!(vm.get_instance(other), Value::Array(data) if data == vec![9, 9]));
    assert!(matches!(vm.get_instance(array), Value::Array(data) if data == vec![0, 7]));
    assert_eq!(vm.get_heap().len(), 3);
}
