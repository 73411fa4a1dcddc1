//! The builtin classes.

use vstd::prelude::*;
use std::sync::Arc;
use crate::models::Class;
use crate::name_map::{Duplicate, NameMap};
use crate::text::same_text;
use crate::vm::value::{ClassInstance, InstanceView, InternalObject, InternalView, ValueView};

verus! {

/// The string class.
pub struct StringClass;

impl StringClass {
    /// The name of the class.
    pub open spec fn name() -> Seq<char> {
        "Ljava/lang/String;"@
    }

    /// The name of the class.
    pub fn class_name() -> (name: &'static str)
        ensures
            name@ == StringClass::name(),
    {
        "Ljava/lang/String;"
    }

    /// The internal state of a string with this text.
    pub open spec fn state(text: Seq<char>) -> Map<Seq<char>, InternalView> {
        Map::empty().insert("tmp_string"@, InternalView::String(text))
    }

    /// A string with this text.
    pub open spec fn object(builtins: Map<Seq<char>, Class>, text: Seq<char>) -> InstanceView {
        InstanceView::plain(builtins[StringClass::name()], StringClass::state(text))
    }

    /// Makes a string.
    pub fn new(builtins: &Builtins, text: String) -> (string: ClassInstance)
        ensures
            string@ == StringClass::object(builtins@, text@),
    {
        let mut state: NameMap<InternalObject> = NameMap::new();
        state.insert("tmp_string".to_owned(), InternalObject::String(text));
        ClassInstance::with_internal_state(builtins.string_class(), state)
    }
}

impl Duplicate for Arc<Class> {
    fn duplicate(&self) -> (copy: Arc<Class>) {
        self.clone()
    }
}

/// The name of the class of application contexts.
pub open spec fn context_name() -> Seq<char> {
    "Landroid/content/Context;"@
}

/// The name of the application class.
pub open spec fn application_name() -> Seq<char> {
    "Landroid/app/Application;"@
}

/// The name of the class of character sets.
pub open spec fn charset_name() -> Seq<char> {
    "Ljava/nio/charset/Charset;"@
}

/// Whether a type stands for something that the platform hands to every app,
/// so that a field of that type gets an instance although nothing stores one.
pub open spec fn is_ambient(ty: Seq<char>) -> bool {
    ty == context_name() || ty == application_name() || ty == charset_name()
}

/// Decides whether the platform hands out an instance of the type.
pub fn ambient_type(ty: &str) -> (yes: bool)
    ensures
        yes == is_ambient(ty@),
{
    same_text(ty, "Landroid/content/Context;") || same_text(ty, "Landroid/app/Application;") || same_text(
        ty,
        "Ljava/nio/charset/Charset;",
    )
}

/// What holds of every table of builtin classes: each class stands under its
/// own name, and strings and the ambient types are there.
pub open spec fn builtins_complete(classes: Map<Seq<char>, Class>) -> bool {
    &&& forall|name: Seq<char>| #[trigger] classes.contains_key(name) ==> classes[name].class_name@ == name
    &&& classes.contains_key(StringClass::name())
    &&& forall|name: Seq<char>| #[trigger] is_ambient(name) ==> classes.contains_key(name)
}

/// The builtin classes, by name.
pub struct Builtins {
    classes: NameMap<Arc<Class>>,
}

impl View for Builtins {
    type V = Map<Seq<char>, Class>;

    closed spec fn view(&self) -> Map<Seq<char>, Class> {
        self.classes@
    }
}

/// A class of which nothing but the name is known.
pub open spec fn is_bare_class(class: Class, name: Seq<char>) -> bool {
    &&& class.class_name@ == name
    &&& class.class_idx == 0
    &&& class.codes@ == Seq::<crate::models::MethodData>::empty()
    &&& class.static_fields@ == Seq::<(u32, crate::models::EncodedItem)>::empty()
}

fn bare_class(name: &str) -> (class: Arc<Class>)
    ensures
        is_bare_class(*class, name@),
{
    Arc::new(Class { class_name: name.to_owned(), class_idx: 0, codes: Vec::new(), static_fields: Vec::new() })
}

impl Builtins {
    #[verifier::type_invariant]
    spec fn complete(self) -> bool {
        builtins_complete(self.classes@)
    }

    /// The classes that the machine itself makes instances of, and no others.
    pub fn standard() -> (builtins: Builtins)
        ensures
            builtins_complete(builtins@),
            forall|name: Seq<char>| #[trigger] builtins@.contains_key(name) <==> name == StringClass::name() || is_ambient(name),
            forall|name: Seq<char>| #[trigger] builtins@.contains_key(name) ==> is_bare_class(builtins@[name], name),
    {
        let mut classes: NameMap<Arc<Class>> = NameMap::new();
        classes.insert("Ljava/lang/String;".to_owned(), bare_class("Ljava/lang/String;"));
        classes.insert("Landroid/content/Context;".to_owned(), bare_class("Landroid/content/Context;"));
        classes.insert("Landroid/app/Application;".to_owned(), bare_class("Landroid/app/Application;"));
        classes.insert("Ljava/nio/charset/Charset;".to_owned(), bare_class("Ljava/nio/charset/Charset;"));
        Builtins { classes }
    }

    /// The table with `class` added under its name.
    pub fn with_class(self, class: Arc<Class>) -> (builtins: Builtins)
        ensures
            builtins@ == self@.insert(class.class_name@, *class),
    {
        proof {
            use_type_invariant(&self);
        }
        let mut classes = self.classes;
        classes.insert(class.class_name.clone(), class);
        Builtins { classes }
    }

    /// The class called `name`.
    pub fn get(&self, name: &str) -> (class: Option<&Arc<Class>>)
        ensures
            match class {
                Some(c) => self@.contains_key(name@) && **c == self@[name@],
                None => !self@.contains_key(name@),
            },
    {
        self.classes.get(name)
    }

    /// The string class.
    pub fn string_class(&self) -> (class: Arc<Class>)
        ensures
            *class == self@[StringClass::name()],
            builtins_complete(self@),
    {
        proof {
            use_type_invariant(self);
        }
        self.classes.get("Ljava/lang/String;").unwrap().clone()
    }

    /// The class of an ambient type.
    pub fn ambient_class(&self, name: &str) -> (class: Arc<Class>)
        requires
            is_ambient(name@),
        ensures
            *class == self@[name@],
            builtins_complete(self@),
    {
        proof {
            use_type_invariant(self);
        }
        self.classes.get(name).unwrap().clone()
    }
}

/// A string object shows the text that it was made with.
pub proof fn law_string_text(builtins: Map<Seq<char>, Class>, text: Seq<char>)
    requires
        builtins_complete(builtins),
    ensures
        StringClass::object(builtins, text).text() == Some(text),
        ValueView::Object(StringClass::object(builtins, text)).text() == Some(text),
{
}

} // verus!
