//! The operations that make objects or work on their fields.

use vstd::prelude::*;
use crate::models::DexFile;
use crate::vm::effects;
use crate::vm::effects::Motion;
use crate::vm::exception::{Breakpoint, BreakpointContext, VMException};
use crate::vm::graph::{node_index, StaticSlot};
use crate::vm::linking::name_of_field;
use crate::vm::machine;
use crate::vm::register::Register;
use crate::vm::runtime::StringClass;
use crate::vm::semantics;
use crate::vm::semantics::MAX_SIZE;
use crate::vm::state::VM;
use crate::vm::value::{ClassInstance, Value};

verus! {

impl VM {
    /// Makes a string from the string table, at the address that allocation gave.
    pub fn const_string(&mut self, dst: usize, string: u32, address: Option<u32>) -> (result: Result<(), VMException>)
        ensures
            machine::effect(final(self)@, result) == semantics::const_string(old(self)@, dst, string, address),
    {
        let text: String = match self.current_state.current_dex_file.get_string(string as usize) {
            Some(text) => text.to_owned(),
            None => {
                return Err(VMException::StaticDataNotFound(string));
            },
        };
        let object = StringClass::new(&self.builtins, text);
        match self.place(address, StringClass::class_name().to_owned(), Value::Object(object)) {
            Ok(register) => self.update_register(dst, register),
            Err(exception) => Err(exception),
        }
    }

    /// Makes an instance of a class, at the address that allocation gave.
    pub fn new_object(&mut self, dex: &DexFile, dst: usize, class: u16, address: Option<u32>) -> (result: Result<Motion, VMException>)
        ensures
            effects::motion(final(self)@, result) == semantics::new_object(old(self)@, *dex, dst, class, address),
    {
        let found = match self.get_class(dex, class as u32) {
            Ok(found) => found,
            Err(exception) => {
                return Err(exception);
            },
        };
        match address {
            None => Err(VMException::OutOfMemory),
            Some(a) => match dex.get_type_name(class as usize) {
                None => Ok(Motion::Stuck),
                Some(name) => {
                    self.store(a, Value::Object(ClassInstance::new(found)));
                    effects::moved(self.update_register(dst, Register::Reference(name.to_owned(), a)))
                },
            },
        }
    }

    /// Makes an array of zeros, at the address that allocation gave.
    pub fn new_array(&mut self, dst: usize, size: usize, class: u16, address: Option<u32>) -> (result: Result<(), VMException>)
        ensures
            machine::effect(final(self)@, result) == semantics::new_array(old(self)@, dst, size, class, address),
    {
        let n: i32 = match self.register(size) {
            Some(Register::Literal(n)) => *n,
            _ => {
                return Ok(());
            },
        };
        if n < 0 || n as usize > MAX_SIZE {
            return Err(VMException::StackOverflow);
        }
        match address {
            None => Ok(()),
            Some(a) => {
                let zeros: Vec<u8> = vec![0u8; n as usize];
                assert(zeros@ =~= Seq::new(n as nat, |i: int| 0u8));
                let ty: String = match self.current_state.current_dex_file.get_type_name(class as usize) {
                    Some(name) => name.to_owned(),
                    None => "[B".to_owned(),
                };
                self.store(a, Value::Array(zeros));
                self.update_register(dst, Register::Reference(ty, a))
            },
        }
    }

    /// Makes an array with these bytes, at the address that allocation gave.
    pub fn filled_new_array(&mut self, data: &Vec<u8>, address: Option<u32>) -> (result: Result<(), VMException>)
        ensures
            machine::effect(final(self)@, result) == semantics::filled_new_array(old(self)@, data@, address),
    {
        match address {
            Some(a) => {
                self.store(a, Value::Array(data.clone()));
                self.current_state.return_reg = Register::Reference("[B".to_owned(), a);
                Ok(())
            },
            None => Err(VMException::OutOfMemory),
        }
    }

    fn stops_at_field(&self, field: u16) -> (stops: bool)
        ensures
            stops == semantics::stops_at_field(self@.break_points, field),
    {
        let mut i: usize = 0;
        while i < self.break_points.len()
            invariant
                i <= self.break_points@.len(),
                forall|j: int| 0 <= j < i ==> #[trigger] self.break_points@[j] != Breakpoint::FieldSet(field),
            decreases self.break_points@.len() - i,
        {
            if self.break_points[i] == Breakpoint::FieldSet(field) {
                return true;
            }
            i = i + 1;
        }
        false
    }

    /// Makes a static field refer to the object of a register.
    pub fn static_put(&mut self, dex: &DexFile, src: u8, field: u16) -> (result: Result<Motion, VMException>)
        ensures
            effects::motion(final(self)@, result) == semantics::static_put(old(self)@, *dex, src, field),
    {
        let name = match name_of_field(dex, field) {
            Ok(name) => name,
            Err(exception) => {
                return Err(exception);
            },
        };
        let address: u32 = match self.register(src as usize) {
            Some(Register::Reference(_, address)) => *address,
            _ => {
                return Err(VMException::RegisterNotFound(src as usize));
            },
        };
        let watched = match self.value(address) {
            None => {
                return Ok(Motion::Stuck);
            },
            Some(Value::Array(_)) => true,
            Some(Value::Object(instance)) => instance.is_string(),
            Some(_) => false,
        };
        if !self.skip_next_breakpoint {
            if watched && self.stops_at_field(field) {
                return Err(
                    VMException::Breakpoint(
                        self.current_state.pc,
                        self.current_state.current_method_index,
                        BreakpointContext::FieldSet(src as u16, field),
                    ),
                );
            }
        } else {
            self.skip_next_breakpoint = false;
        }
        let slot = match self.instances.get(name.as_str()) {
            Some(slot) => StaticSlot { node: slot.node, address },
            None => StaticSlot { node: node_index(0), address },
        };
        self.instances.insert(name, slot);
        Ok(Motion::Next)
    }

    /// Reads an integer field.
    pub fn instance_get(&mut self, dex: &DexFile, dst: usize, object: usize, field: u16) -> (result: Result<(), VMException>)
        ensures
            machine::effect(final(self)@, result) == semantics::instance_get(old(self)@, *dex, dst, object, field),
    {
        let name = match name_of_field(dex, field) {
            Ok(name) => name,
            Err(exception) => {
                return Err(exception);
            },
        };
        match self.register(object) {
            Some(Register::Reference(_, owner)) => match self.value(*owner) {
                Some(Value::Object(instance)) => match instance.instances.get(name.as_str()) {
                    Some(cell) => match self.value(*cell) {
                        None => Err(VMException::StaticDataNotFound(field as u32)),
                        Some(Value::Int(n)) => {
                            let number: i32 = *n;
                            self.update_register(dst, Register::Literal(number))
                        },
                        Some(_) => Ok(()),
                    },
                    None => self.update_register(dst, Register::Literal(0)),
                },
                _ => Ok(()),
            },
            _ => Ok(()),
        }
    }

    /// Reads a field that refers to an object.
    pub fn instance_get_object(&mut self, dex: &DexFile, dst: usize, object: usize, field: u16) -> (result: Result<(), VMException>)
        ensures
            machine::effect(final(self)@, result) == semantics::instance_get_object(old(self)@, *dex, dst, object, field),
    {
        let name = match name_of_field(dex, field) {
            Ok(name) => name,
            Err(exception) => {
                return Err(exception);
            },
        };
        match self.register(object) {
            Some(Register::Reference(_, owner)) => match self.value(*owner) {
                Some(Value::Object(instance)) => match instance.instances.get(name.as_str()) {
                    Some(address) => {
                        let register = Register::Reference(instance.class.class_name.clone(), *address);
                        self.update_register(dst, register)
                    },
                    None => Ok(()),
                },
                _ => Ok(()),
            },
            _ => Ok(()),
        }
    }

    /// Sets an integer field; one that was never set gets the address that
    /// allocation gave.
    pub fn instance_put(&mut self, dex: &DexFile, src: usize, object: usize, field: u16, address: Option<u32>) -> (result: Result<(), VMException>)
        ensures
            machine::effect(final(self)@, result) == semantics::instance_put(
                old(self)@,
                *dex,
                src,
                object,
                field,
                address,
            ),
    {
        let name = match name_of_field(dex, field) {
            Ok(name) => name,
            Err(exception) => {
                return Err(exception);
            },
        };
        match (self.register(src), self.register(object)) {
            (Some(Register::Literal(n)), Some(Register::Reference(_, owner))) => {
                let number: i32 = *n;
                let owner: u32 = *owner;
                match self.value(owner) {
                    Some(Value::Object(instance)) => match instance.instances.get(name.as_str()) {
                        Some(cell) => {
                            let cell: u32 = *cell;
                            if self.heap.contains_key(&cell) {
                                self.store(cell, Value::Int(number));
                            }
                        },
                        None => {
                            if let Some(a) = address {
                                let mut changed = instance.clone();
                                changed.instances.insert(name, a);
                                self.store(a, Value::Int(number));
                                self.store(owner, Value::Object(changed));
                            }
                        },
                    },
                    _ => {},
                }
            },
            _ => {},
        }
        Ok(())
    }

    /// Makes a field refer to the object of a register.
    pub fn instance_put_object(&mut self, dex: &DexFile, src: usize, object: usize, field: u16) -> (result: Result<(), VMException>)
        ensures
            machine::effect(final(self)@, result) == semantics::instance_put_object(old(self)@, *dex, src, object, field),
    {
        let name = match name_of_field(dex, field) {
            Ok(name) => name,
            Err(exception) => {
                return Err(exception);
            },
        };
        match (self.register(src), self.register(object)) {
            (Some(Register::Reference(_, address)), Some(Register::Reference(_, owner))) => {
                let address: u32 = *address;
                let owner: u32 = *owner;
                match self.value(owner) {
                    Some(Value::Object(instance)) => {
                        let mut changed = instance.clone();
                        changed.instances.insert(name, address);
                        self.store(owner, Value::Object(changed));
                    },
                    _ => {},
                }
            },
            _ => {},
        }
        Ok(())
    }
}

} // verus!
