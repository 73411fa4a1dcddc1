//! What the heap holds.

use vstd::prelude::*;
use std::sync::Arc;
use crate::models::Class;
use crate::name_map::{Duplicate, NameMap};
use crate::text::same_text;
use crate::vm::runtime::{Builtins, StringClass};

verus! {

/// State that a builtin class keeps in its instances.
#[derive(Debug)]
pub enum InternalObject {
    String(String),
    Class(Arc<Class>),
    Vec(Vec<u8>),
    I32(i32),
    U32(u32),
    I64(i64),
}

/// The view of internal state.
pub enum InternalView {
    String(Seq<char>),
    Class(Class),
    Vec(Seq<u8>),
    I32(i32),
    U32(u32),
    I64(i64),
}

impl View for InternalObject {
    type V = InternalView;

    open spec fn view(&self) -> InternalView {
        match self {
            InternalObject::String(text) => InternalView::String(text@),
            InternalObject::Class(class) => InternalView::Class(**class),
            InternalObject::Vec(data) => InternalView::Vec(data@),
            InternalObject::I32(n) => InternalView::I32(*n),
            InternalObject::U32(n) => InternalView::U32(*n),
            InternalObject::I64(n) => InternalView::I64(*n),
        }
    }
}

impl Clone for InternalObject {
    fn clone(&self) -> (copy: InternalObject)
        ensures
            copy@ == self@,
    {
        match self {
            InternalObject::String(text) => InternalObject::String(text.clone()),
            InternalObject::Class(class) => InternalObject::Class(class.clone()),
            InternalObject::Vec(data) => InternalObject::Vec(data.clone()),
            InternalObject::I32(n) => InternalObject::I32(*n),
            InternalObject::U32(n) => InternalObject::U32(*n),
            InternalObject::I64(n) => InternalObject::I64(*n),
        }
    }
}

impl Duplicate for InternalObject {
    fn duplicate(&self) -> (copy: InternalObject) {
        self.clone()
    }
}

/// An instance of a class.
pub struct ClassInstance {
    pub internal_state: NameMap<InternalObject>,
    /// The heap addresses of its fields, by their qualified names.
    pub instances: NameMap<u32>,
    pub class: Arc<Class>,
}

/// The view of an instance.
#[verifier::ext_equal]
pub struct InstanceView {
    pub internal_state: Map<Seq<char>, InternalView>,
    pub instances: Map<Seq<char>, u32>,
    pub class: Class,
}

impl View for ClassInstance {
    type V = InstanceView;

    open spec fn view(&self) -> InstanceView {
        InstanceView { internal_state: self.internal_state@, instances: self.instances@, class: *self.class }
    }
}

impl Clone for ClassInstance {
    fn clone(&self) -> (copy: ClassInstance)
        ensures
            copy@ == self@,
    {
        ClassInstance {
            internal_state: self.internal_state.clone(),
            instances: self.instances.clone(),
            class: self.class.clone(),
        }
    }
}

/// What is refused when a class has no builtin.
#[derive(Clone, Copy, Debug, PartialEq, Eq, Structural)]
pub struct NoBuiltin;

impl NoBuiltin {
    /// The message of the error.
    pub fn message(&self) -> (text: String)
        ensures
            text@ == "No Builtin found"@,
    {
        "No Builtin found".to_owned()
    }
}

impl InstanceView {
    /// An instance without fields.
    pub open spec fn plain(class: Class, internal_state: Map<Seq<char>, InternalView>) -> InstanceView {
        InstanceView { internal_state, instances: Map::empty(), class }
    }

    /// Whether it is an instance of the string class.
    pub open spec fn is_string(self) -> bool {
        self.class.class_name@ == StringClass::name()
    }

    /// The text of a string instance. One that was never given a text shows a fixed one.
    pub open spec fn text(self) -> Option<Seq<char>> {
        if self.is_string() {
            if self.internal_state.contains_key("tmp_string"@) {
                match self.internal_state["tmp_string"@] {
                    InternalView::String(text) => Some(text),
                    _ => Some("NEW INSTANCE"@),
                }
            } else {
                Some("NEW INSTANCE"@)
            }
        } else {
            None
        }
    }
}

impl ClassInstance {
    /// An instance of `class` without fields or internal state.
    pub fn new(class: Arc<Class>) -> (instance: ClassInstance)
        ensures
            instance@ == InstanceView::plain(*class, Map::empty()),
    {
        ClassInstance { internal_state: NameMap::new(), instances: NameMap::new(), class }
    }

    /// An instance of the builtin class called `class_name`, without fields.
    pub fn from_class_name(builtins: &Builtins, class_name: &str, internal_state: NameMap<InternalObject>) -> (made: Result<ClassInstance, NoBuiltin>)
        ensures
            match made {
                Ok(instance) => builtins@.contains_key(class_name@) && instance@ == InstanceView::plain(
                    builtins@[class_name@],
                    internal_state@,
                ),
                Err(_) => !builtins@.contains_key(class_name@),
            },
    {
        match builtins.get(class_name) {
            Some(class) => Ok(ClassInstance { instances: NameMap::new(), internal_state, class: class.clone() }),
            None => Err(NoBuiltin),
        }
    }

    /// An instance of `class` with this internal state, without fields.
    pub fn with_internal_state(class: Arc<Class>, internal_state: NameMap<InternalObject>) -> (instance: ClassInstance)
        ensures
            instance@ == InstanceView::plain(*class, internal_state@),
    {
        ClassInstance { internal_state, instances: NameMap::new(), class }
    }

    /// Whether it is an instance of the string class.
    pub fn is_string(&self) -> (yes: bool)
        ensures
            yes == self@.is_string(),
    {
        same_text(self.class.class_name.as_str(), StringClass::class_name())
    }

    /// The text of a string instance; other instances have none.
    pub fn text(&self) -> (text: Option<String>)
        ensures
            match text {
                Some(t) => self@.text() == Some(t@),
                None => self@.text() is None,
            },
    {
        if self.is_string() {
            match self.internal_state.get("tmp_string") {
                Some(InternalObject::String(text)) => Some(text.clone()),
                _ => Some("NEW INSTANCE".to_owned()),
            }
        } else {
            None
        }
    }
}

/// A value on the heap.
pub enum Value {
    Array(Vec<u8>),
    Object(ClassInstance),
    Int(i32),
    Short(i16),
    Byte(i8),
}

/// The view of a value.
#[verifier::ext_equal]
pub enum ValueView {
    Array(Seq<u8>),
    Object(InstanceView),
    Int(i32),
    Short(i16),
    Byte(i8),
}

impl View for Value {
    type V = ValueView;

    open spec fn view(&self) -> ValueView {
        match self {
            Value::Array(data) => ValueView::Array(data@),
            Value::Object(instance) => ValueView::Object(instance@),
            Value::Int(n) => ValueView::Int(*n),
            Value::Short(n) => ValueView::Short(*n),
            Value::Byte(n) => ValueView::Byte(*n),
        }
    }
}

impl Clone for Value {
    fn clone(&self) -> (copy: Value)
        ensures
            copy@ == self@,
    {
        match self {
            Value::Array(data) => Value::Array(data.clone()),
            Value::Object(instance) => Value::Object(instance.clone()),
            Value::Int(n) => Value::Int(*n),
            Value::Short(n) => Value::Short(*n),
            Value::Byte(n) => Value::Byte(*n),
        }
    }
}

impl ValueView {
    /// The text of a string object.
    pub open spec fn text(self) -> Option<Seq<char>> {
        match self {
            ValueView::Object(instance) => instance.text(),
            _ => None,
        }
    }
}

impl Value {
    /// The text of a string object; other values have none.
    pub fn as_string(&self) -> (text: Option<String>)
        ensures
            match text {
                Some(t) => self@.text() == Some(t@),
                None => self@.text() is None,
            },
    {
        match self {
            Value::Object(instance) => instance.text(),
            _ => None,
        }
    }
}

/// A piece of information that an analysis follows through a program.
#[derive(Clone)]
pub enum InformationNode<'a> {
    Source(Value),
    Field(u32),
    Method(u32),
    String(u32),
    ArrayData(&'a [u8]),
}

} // verus!
