//! Finding the methods and classes that running code names.

use vstd::prelude::*;
use std::sync::Arc;
use crate::models;
use crate::models::{Class, DexFile, Method, MethodData};
use crate::search;
use crate::text::{decimal, qualified_name};
use crate::vm::exception::{ExceptionView, VMException};
use crate::vm::lookup_laws;
use crate::vm::semantics;
use crate::vm::state::VM;

verus! {

/// A method that was found, with an exception by its view.
pub open spec fn found(result: Result<(Arc<DexFile>, &MethodData), VMException>) -> Result<(Arc<DexFile>, MethodData), ExceptionView> {
    match result {
        Ok((file, method)) => Ok((file, *method)),
        Err(exception) => Err(exception@),
    }
}

/// A method that was found is seen with its file, and an exception as what it
/// reports.
pub proof fn law_found_is_seen(file: Arc<DexFile>, method: &MethodData, exception: VMException)
    ensures
        found(Ok((file, method))) == Ok::<(Arc<DexFile>, MethodData), ExceptionView>((file, *method)),
        found(Err(exception)) == Err::<(Arc<DexFile>, MethodData), ExceptionView>(exception@),
{
}

/// Builds the qualified name of a field, by the class that the dex file defines.
pub(crate) fn name_of_field(dex: &DexFile, field: u16) -> (name: Result<String, VMException>)
    ensures
        match name {
            Ok(n) => semantics::field_name(*dex, field) == Ok::<Seq<char>, ExceptionView>(n@),
            Err(exception) => semantics::field_name(*dex, field) == Err::<Seq<char>, ExceptionView>(exception@),
        },
{
    if (field as usize) < dex.fields.len() {
        let entry = &dex.fields[field as usize];
        match dex.get_class_by_type(entry.class_idx as u32) {
            Some(class) => Ok(qualified_name(class.class_name.as_str(), entry.name.as_str())),
            None => Err(VMException::ClassNotFound(entry.class_idx)),
        }
    } else {
        Err(VMException::ClassNotFound(0))
    }
}

impl VM {
    fn find_declared(&self, class_name: &str, method_name: &str, proto: &str) -> (result: Result<(Arc<DexFile>, &MethodData), VMException>)
        ensures
            found(result) == semantics::find_declared(self@.runtime, class_name@, method_name@, proto@),
    {
        let ghost p = semantics::has_method(class_name@, method_name@, proto@);
        let mut i: usize = 0;
        while i < self.runtime.len()
            invariant
                i <= self.runtime@.len(),
                p == semantics::has_method(class_name@, method_name@, proto@),
                forall|j: int| 0 <= j < i ==> !p(#[trigger] self.runtime@[j]),
            decreases self.runtime@.len() - i,
        {
            if let Some(method) = self.runtime[i].get_method_by_name_and_prototype(class_name, method_name, proto) {
                proof {
                    search::lemma_first(self.runtime@, p, i as int);
                }
                return Ok((self.runtime[i].clone(), method));
            }
            i = i + 1;
        }
        Err(VMException::LinkerError)
    }

    /// Looks up a method of the class `class_name` in the runtime.
    pub fn lookup_method(&self, class_name: &str, method: &Method) -> (result: Result<(Arc<DexFile>, &MethodData), VMException>)
        ensures
            found(result) == semantics::find_declared(self@.runtime, class_name@, method.method_name@, method.proto_name@),
            match result {
                Ok((file, linked)) => {
                    &&& linked.name@ == method.method_name@
                    &&& linked.method.proto_name@ == method.proto_name@
                    &&& exists|i: int, j: int| #[trigger]
                        lookup_laws::declares_first(*file, class_name@, method.method_name@, method.proto_name@, i, j)
                            && file.classes@[i].codes@[j] == *linked
                },
                Err(_) => lookup_laws::none_declares_before(
                    self@.runtime,
                    self@.runtime.len() as int,
                    class_name@,
                    method.method_name@,
                    method.proto_name@,
                ),
            },
    {
        proof {
            lookup_laws::law_linked_as_asked(self@.runtime, class_name@, method.method_name@, method.proto_name@);
        }
        self.find_declared(class_name, method.method_name.as_str(), method.proto_name.as_str())
    }

    /// Looks up the method that `dex_file` numbers `method_idx`.
    pub fn get_method<'a>(&'a self, dex_file: &'a Arc<DexFile>, method_idx: u32) -> (result: Result<(Arc<DexFile>, &'a MethodData), VMException>)
        ensures
            found(result) == semantics::find_method(self@.runtime, *dex_file, method_idx),
    {
        if let Some(method) = dex_file.get_method_by_idx(method_idx) {
            return Ok((dex_file.clone(), method));
        }
        if (method_idx as usize) >= dex_file.methods.len() {
            let mut message = "Method Index: ".to_owned();
            message.append(decimal(method_idx).as_str());
            return Err(VMException::MethodNotFound(message));
        }
        let entry = &dex_file.methods[method_idx as usize];
        if (entry.proto_idx as usize) >= dex_file.protos.len() {
            let mut message = "Method Index: ".to_owned();
            message.append(decimal(method_idx).as_str());
            message.append(", Proto Index: ");
            message.append(decimal(entry.proto_idx as u32).as_str());
            return Err(VMException::MethodNotFound(message));
        }
        match dex_file.get_type_name(entry.class_idx as usize) {
            None => Err(VMException::ClassNotFound(entry.class_idx)),
            Some(class_name) => self.find_declared(
                class_name,
                entry.method_name.as_str(),
                dex_file.protos[entry.proto_idx as usize].descriptor.as_str(),
            ),
        }
    }

    /// Looks up the class of the type that `dex_file` numbers `type_idx`.
    pub fn get_class(&self, dex_file: &DexFile, type_idx: u32) -> (result: Result<Arc<Class>, VMException>)
        ensures
            match result {
                Ok(class) => semantics::find_class(self@, *dex_file, type_idx) == Ok::<Class, ExceptionView>(*class),
                Err(exception) => semantics::find_class(self@, *dex_file, type_idx) == Err::<Class, ExceptionView>(exception@),
            },
    {
        if let Some(class) = dex_file.get_class_by_type(type_idx) {
            return Ok(class);
        }
        match dex_file.get_type_name(type_idx as usize) {
            None => Err(VMException::ClassNotFound(type_idx as u16)),
            Some(class_name) => {
                let ghost p = semantics::has_class(class_name@);
                let mut i: usize = 0;
                while i < self.runtime.len()
                    invariant
                        i <= self.runtime@.len(),
                        p == semantics::has_class(class_name@),
                        search::first(dex_file.classes@, models::class_of_type(type_idx)) is None,
                        dex_file.type_name_at(type_idx as int) == Some(class_name@),
                        forall|j: int| 0 <= j < i ==> !p(#[trigger] self.runtime@[j]),
                    decreases self.runtime@.len() - i,
                {
                    if let Some(class) = self.runtime[i].get_class_by_name(class_name) {
                        proof {
                            search::lemma_first(self.runtime@, p, i as int);
                        }
                        return Ok(class);
                    }
                    i = i + 1;
                }
                match self.builtins.get(class_name) {
                    Some(class) => Ok(class.clone()),
                    None => Err(VMException::ClassNotFound(type_idx as u16)),
                }
            },
        }
    }
}

} // verus!
