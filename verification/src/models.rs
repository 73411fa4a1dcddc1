//! What a dex file tells a running program: names, fields, methods and classes.

use vstd::prelude::*;
use std::sync::Arc;
use crate::instruction::CodeItem;
use crate::name_map::{Duplicate, NameMap};
use crate::search;
use crate::text::same_text;

verus! {

/// A file of an app that is not code.
#[derive(Clone, Debug)]
pub struct BinaryObject {
    pub data: Vec<u8>,
}

impl View for BinaryObject {
    type V = BinaryObject;

    open spec fn view(&self) -> BinaryObject {
        *self
    }
}

impl Duplicate for Arc<BinaryObject> {
    fn duplicate(&self) -> (copy: Arc<BinaryObject>) {
        self.clone()
    }
}

/// A method as the method table of a dex file lists it.
#[derive(Clone, Debug)]
pub struct Method {
    pub method_idx: u16,
    pub class_idx: u16,
    pub proto_idx: u16,
    pub method_name: String,
    /// The prototype, written out.
    pub proto_name: String,
}

/// A method as its class defines it.
#[derive(Clone, Debug)]
pub struct MethodData {
    pub method_idx: u32,
    pub method: Method,
    pub name: String,
    pub access_flags: u64,
    /// The body; abstract and native methods have none.
    pub code: Option<Arc<CodeItem>>,
}

/// A prototype, with its types written out.
#[derive(Clone, Debug)]
pub struct Proto {
    pub descriptor: String,
}

/// A field as the field table of a dex file lists it.
#[derive(Clone, Debug)]
pub struct Field {
    pub class_idx: u16,
    pub type_idx: u16,
    pub name: String,
}

/// What kind of value an encoded item holds.
#[derive(Clone, Copy, Debug, PartialEq, Eq, Structural)]
pub enum ValueType {
    Byte,
    Short,
    Char,
    Int,
    Long,
    Float,
    Double,
    MethodType,
    MethodHandle,
    String,
    Type,
    Field,
    Method,
    Enum,
    Array,
    Annotation,
    Null,
    Boolean,
}

/// The initial value of a static field.
#[derive(Clone, Debug)]
pub struct EncodedItem {
    pub value_type: ValueType,
    /// Where the value stands: for a string, its place in the string table.
    pub index: u32,
}

impl EncodedItem {
    /// The place of a string value in the string table.
    pub fn get_string_id(&self) -> (id: u32)
        ensures
            id == self.index,
    {
        self.index
    }
}

/// A class.
#[derive(Clone, Debug)]
pub struct Class {
    pub class_name: String,
    /// The place of its type in the type table.
    pub class_idx: u32,
    pub codes: Vec<MethodData>,
    /// The static fields that start with a value, by their place in the field table.
    pub static_fields: Vec<(u32, EncodedItem)>,
}

impl View for Class {
    type V = Class;

    open spec fn view(&self) -> Class {
        *self
    }
}

/// The code of one dex file.
#[derive(Clone, Debug)]
pub struct DexFile {
    pub identifier: String,
    pub strings: Vec<String>,
    pub type_names: Vec<String>,
    pub protos: Vec<Proto>,
    pub fields: Vec<Field>,
    pub methods: Vec<Method>,
    pub classes: Vec<Arc<Class>>,
}

/// The dex files of one app: the one it starts from, and the others.
#[derive(Clone, Debug)]
pub struct MultiDexFile {
    pub primary: Arc<DexFile>,
    pub secondary: Vec<Arc<DexFile>>,
}

/// Everything that was loaded.
#[derive(Clone)]
pub struct Files {
    pub multi_dex: Vec<Arc<MultiDexFile>>,
    pub binaries: NameMap<Arc<BinaryObject>>,
}

/// Holds of the methods with this place in the method table.
pub open spec fn method_numbered(idx: u32) -> spec_fn(MethodData) -> bool {
    |m: MethodData| m.method_idx == idx
}

/// Holds of the methods called `name`.
pub open spec fn method_called(name: Seq<char>) -> spec_fn(MethodData) -> bool {
    |m: MethodData| m.name@ == name
}

/// Holds of the methods called `name` that have this prototype.
pub open spec fn method_declared(name: Seq<char>, proto: Seq<char>) -> spec_fn(MethodData) -> bool {
    |m: MethodData| m.name@ == name && m.method.proto_name@ == proto
}

/// Holds of the classes whose type has this place in the type table.
pub open spec fn class_of_type(type_idx: u32) -> spec_fn(Arc<Class>) -> bool {
    |c: Arc<Class>| c.class_idx == type_idx
}

/// Holds of the classes called `name`.
pub open spec fn class_called(name: Seq<char>) -> spec_fn(Arc<Class>) -> bool {
    |c: Arc<Class>| c.class_name@ == name
}

/// Holds of the classes that define a method for which `p` holds.
pub open spec fn defines(p: spec_fn(MethodData) -> bool) -> spec_fn(Arc<Class>) -> bool {
    |c: Arc<Class>| search::first_index(c.codes@, p) is Some
}

/// Holds of the classes called `name` that define a method for which `p` holds.
pub open spec fn called_and_defines(name: Seq<char>, p: spec_fn(MethodData) -> bool) -> spec_fn(Arc<Class>) -> bool {
    |c: Arc<Class>| c.class_name@ == name && search::first_index(c.codes@, p) is Some
}

/// Holds of the entries for this place in the field table.
pub open spec fn value_of_field(field_idx: u32) -> spec_fn((u32, EncodedItem)) -> bool {
    |entry: (u32, EncodedItem)| entry.0 == field_idx
}

impl Class {
    /// The initial value of a static field.
    pub open spec fn static_value(self, field_idx: u32) -> Option<EncodedItem> {
        match search::first(self.static_fields@, value_of_field(field_idx)) {
            Some(entry) => Some(entry.1),
            None => None,
        }
    }

    /// Looks up the initial value of a static field.
    pub fn get_data_for_static_field(&self, field_idx: u32) -> (data: Option<&EncodedItem>)
        ensures
            match data {
                Some(item) => self.static_value(field_idx) == Some(*item),
                None => self.static_value(field_idx) is None,
            },
    {
        let mut i: usize = 0;
        while i < self.static_fields.len()
            invariant
                i <= self.static_fields@.len(),
                forall|j: int| 0 <= j < i ==> (#[trigger] self.static_fields@[j]).0 != field_idx,
            decreases self.static_fields@.len() - i,
        {
            if self.static_fields[i].0 == field_idx {
                proof {
                    search::lemma_first(self.static_fields@, value_of_field(field_idx), i as int);
                }
                return Some(&self.static_fields[i].1);
            }
            i = i + 1;
        }
        None
    }

    /// Looks up the method with this place in the method table.
    pub fn method_by_idx(&self, idx: u32) -> (found: Option<&MethodData>)
        ensures
            match found {
                Some(m) => m.method_idx == idx && search::first(self.codes@, method_numbered(idx)) == Some(*m),
                None => search::first(self.codes@, method_numbered(idx)) is None,
            },
    {
        let mut i: usize = 0;
        while i < self.codes.len()
            invariant
                i <= self.codes@.len(),
                forall|j: int| 0 <= j < i ==> (#[trigger] self.codes@[j]).method_idx != idx,
            decreases self.codes@.len() - i,
        {
            if self.codes[i].method_idx == idx {
                proof {
                    search::lemma_first(self.codes@, method_numbered(idx), i as int);
                }
                return Some(&self.codes[i]);
            }
            i = i + 1;
        }
        None
    }

    /// Looks up the method called `name`.
    pub fn method_by_name(&self, name: &str) -> (found: Option<&MethodData>)
        ensures
            match found {
                Some(m) => m.name@ == name@ && search::first(self.codes@, method_called(name@)) == Some(*m),
                None => search::first(self.codes@, method_called(name@)) is None,
            },
    {
        let mut i: usize = 0;
        while i < self.codes.len()
            invariant
                i <= self.codes@.len(),
                forall|j: int| 0 <= j < i ==> (#[trigger] self.codes@[j]).name@ != name@,
            decreases self.codes@.len() - i,
        {
            if same_text(self.codes[i].name.as_str(), name) {
                proof {
                    search::lemma_first(self.codes@, method_called(name@), i as int);
                }
                return Some(&self.codes[i]);
            }
            i = i + 1;
        }
        None
    }

    /// Looks up the method called `name` that has this prototype.
    pub fn method_by_declaration(&self, name: &str, proto: &str) -> (found: Option<&MethodData>)
        ensures
            match found {
                Some(m) => {
                    &&& m.name@ == name@
                    &&& m.method.proto_name@ == proto@
                    &&& search::first(self.codes@, method_declared(name@, proto@)) == Some(*m)
                },
                None => search::first(self.codes@, method_declared(name@, proto@)) is None,
            },
    {
        let mut i: usize = 0;
        while i < self.codes.len()
            invariant
                i <= self.codes@.len(),
                forall|j: int|
                    0 <= j < i ==> (#[trigger] self.codes@[j]).name@ != name@ || self.codes@[j].method.proto_name@ != proto@,
            decreases self.codes@.len() - i,
        {
            if same_text(self.codes[i].name.as_str(), name) && same_text(self.codes[i].method.proto_name.as_str(), proto) {
                proof {
                    search::lemma_first(self.codes@, method_declared(name@, proto@), i as int);
                }
                return Some(&self.codes[i]);
            }
            i = i + 1;
        }
        None
    }
}

impl DexFile {
    /// The text at `idx` in the string table.
    pub open spec fn string_at(self, idx: int) -> Option<Seq<char>> {
        if 0 <= idx < self.strings@.len() {
            Some(self.strings@[idx]@)
        } else {
            None
        }
    }

    /// The name of the type at `idx` in the type table.
    pub open spec fn type_name_at(self, idx: int) -> Option<Seq<char>> {
        if 0 <= idx < self.type_names@.len() {
            Some(self.type_names@[idx]@)
        } else {
            None
        }
    }

    /// The method with this place in the method table, if the file defines it.
    pub open spec fn method_at(self, idx: u32) -> Option<MethodData> {
        match search::first(self.classes@, defines(method_numbered(idx))) {
            Some(c) => search::first(c.codes@, method_numbered(idx)),
            None => None,
        }
    }

    /// The method of the class `class` that is called `name` and has the prototype `proto`.
    pub open spec fn method_declared_as(self, class: Seq<char>, name: Seq<char>, proto: Seq<char>) -> Option<MethodData> {
        match search::first(self.classes@, called_and_defines(class, method_declared(name, proto))) {
            Some(c) => search::first(c.codes@, method_declared(name, proto)),
            None => None,
        }
    }

    /// Looks up a string.
    pub fn get_string(&self, idx: usize) -> (text: Option<&str>)
        ensures
            match text {
                Some(t) => self.string_at(idx as int) == Some(t@),
                None => self.string_at(idx as int) is None,
            },
    {
        if idx < self.strings.len() {
            Some(self.strings[idx].as_str())
        } else {
            None
        }
    }

    /// Looks up the name of a type.
    pub fn get_type_name(&self, idx: usize) -> (name: Option<&str>)
        ensures
            match name {
                Some(t) => self.type_name_at(idx as int) == Some(t@),
                None => self.type_name_at(idx as int) is None,
            },
    {
        if idx < self.type_names.len() {
            Some(self.type_names[idx].as_str())
        } else {
            None
        }
    }

    /// Looks up the class whose type has this place in the type table.
    pub fn get_class_by_type(&self, type_idx: u32) -> (class: Option<Arc<Class>>)
        ensures
            class == search::first(self.classes@, class_of_type(type_idx)),
            class is Some ==> class->0.class_idx == type_idx,
    {
        let mut i: usize = 0;
        while i < self.classes.len()
            invariant
                i <= self.classes@.len(),
                forall|j: int| 0 <= j < i ==> (#[trigger] self.classes@[j]).class_idx != type_idx,
            decreases self.classes@.len() - i,
        {
            if self.classes[i].class_idx == type_idx {
                proof {
                    search::lemma_first(self.classes@, class_of_type(type_idx), i as int);
                }
                return Some(self.classes[i].clone());
            }
            i = i + 1;
        }
        None
    }

    /// Looks up the class called `name`.
    pub fn get_class_by_name(&self, name: &str) -> (class: Option<Arc<Class>>)
        ensures
            class == search::first(self.classes@, class_called(name@)),
            class is Some ==> class->0.class_name@ == name@,
    {
        let mut i: usize = 0;
        while i < self.classes.len()
            invariant
                i <= self.classes@.len(),
                forall|j: int| 0 <= j < i ==> (#[trigger] self.classes@[j]).class_name@ != name@,
            decreases self.classes@.len() - i,
        {
            if same_text(self.classes[i].class_name.as_str(), name) {
                proof {
                    search::lemma_first(self.classes@, class_called(name@), i as int);
                }
                return Some(self.classes[i].clone());
            }
            i = i + 1;
        }
        None
    }

    /// Looks up the method with this place in the method table.
    pub fn get_method_by_idx(&self, idx: u32) -> (found: Option<&MethodData>)
        ensures
            match found {
                Some(m) => m.method_idx == idx && self.method_at(idx) == Some(*m),
                None => self.method_at(idx) is None,
            },
    {
        let ghost p = method_numbered(idx);
        let mut i: usize = 0;
        while i < self.classes.len()
            invariant
                i <= self.classes@.len(),
                p == method_numbered(idx),
                forall|j: int| 0 <= j < i ==> !defines(p)(#[trigger] self.classes@[j]),
            decreases self.classes@.len() - i,
        {
            if let Some(m) = self.classes[i].method_by_idx(idx) {
                proof {
                    search::lemma_first(self.classes@, defines(p), i as int);
                }
                return Some(m);
            }
            i = i + 1;
        }
        None
    }

    /// Looks up the method of the class `class_name` with this name and prototype.
    pub fn get_method_by_name_and_prototype(&self, class_name: &str, method_name: &str, proto: &str) -> (found: Option<&MethodData>)
        ensures
            match found {
                Some(m) => {
                    &&& m.name@ == method_name@
                    &&& m.method.proto_name@ == proto@
                    &&& self.method_declared_as(class_name@, method_name@, proto@) == Some(*m)
                },
                None => self.method_declared_as(class_name@, method_name@, proto@) is None,
            },
    {
        let ghost p = method_declared(method_name@, proto@);
        let mut i: usize = 0;
        while i < self.classes.len()
            invariant
                i <= self.classes@.len(),
                p == method_declared(method_name@, proto@),
                forall|j: int| 0 <= j < i ==> !called_and_defines(class_name@, p)(#[trigger] self.classes@[j]),
            decreases self.classes@.len() - i,
        {
            if same_text(self.classes[i].class_name.as_str(), class_name) {
                if let Some(m) = self.classes[i].method_by_declaration(method_name, proto) {
                    proof {
                        search::lemma_first(self.classes@, called_and_defines(class_name@, p), i as int);
                    }
                    return Some(m);
                }
            }
            i = i + 1;
        }
        None
    }
}

} // verus!
