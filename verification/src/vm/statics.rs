//! Reading static fields, and running the initializers of their classes.

use vstd::prelude::*;
use crate::instruction::{InstructionOffset, InstructionSize};
use crate::models::{Class, DexFile, MethodData, ValueType};
use crate::text::qualified_name;
use crate::vm::calls::empty_registers;
use crate::vm::control;
use crate::vm::control::{Cursor, Turn};
use crate::vm::effects;
use crate::vm::exception::{ExecutionState, VMException};
use crate::vm::graph::{node_index, StaticSlot};
use crate::vm::machine;
use crate::vm::register::Register;
use crate::vm::runtime;
use crate::vm::runtime::{ambient_type, StringClass};
use crate::vm::semantics;
use crate::vm::semantics::Choice;
use crate::vm::state::VM;
use crate::vm::value::{ClassInstance, Value};

verus! {

fn initial_text<'a>(file: &'a DexFile, class: &Class, field: u16) -> (text: Option<&'a str>)
    ensures
        control::text_of(text) == semantics::initial_text(*file, *class, field),
{
    match class.get_data_for_static_field(field as u32) {
        Some(item) => if item.value_type == ValueType::String {
            file.get_string(item.get_string_id() as usize)
        } else {
            None
        },
        None => None,
    }
}

impl VM {
    /// Runs a static initializer.
    fn initialize(&mut self, cursor: &mut Cursor, method: &MethodData) -> (turn: Result<Turn, VMException>)
        ensures
            control::turned(
                final(self)@,
                *final(cursor),
                turn,
                semantics::initialize(control::machine_view(old(self)@, *old(cursor)), *method),
            ),
    {
        let code = match &method.code {
            Some(code) => code.clone(),
            None => {
                return Ok(Turn::Stuck);
            },
        };
        self.current_state.vm_state = ExecutionState::RunningStaticInitializer;
        let waiting = self.current_state.clone();
        let ghost before = self@;
        self.stack_frames.push(waiting);
        assert(self@.frames =~= before.frames.push(before.current));
        self.current_state.pc = InstructionOffset(0);
        self.current_state.num_params = 0;
        self.current_state.vm_state = ExecutionState::StaticInitializer;
        self.current_state.num_registers = code.register_size as usize;
        self.current_state.current_stackframe = empty_registers(code.register_size as usize);
        self.current_state.last_instruction_size = InstructionSize(0);
        self.current_state.current_method_index = method.method.method_idx as u32;
        self.current_state.current_instructions = code.clone();
        cursor.method = self.current_state.current_method_index;
        cursor.dex = self.current_state.current_dex_file.clone();
        cursor.code = code;
        self.fetch(cursor)
    }

    /// Gives a static field the string that it starts with, at the address that
    /// allocation gave.
    pub fn preset(&mut self, name: &str, class: &Class, field: u16, address: Option<u32>)
        ensures
            final(self)@ == semantics::preset(old(self)@, name@, *class, field, address),
    {
        let main = self.dex_file.clone();
        if let Some(text) = initial_text(&main, class, field) {
            if let Some(a) = address {
                let string = StringClass::new(&self.builtins, text.to_owned());
                self.store(a, Value::Object(string));
                self.instances.insert(name.to_owned(), StaticSlot { node: node_index(0), address: a });
            }
        }
    }

    /// Whether the platform has to hand out an instance for a field.
    fn wants_ambient(&self, name: &str, ty: Option<&str>) -> (yes: bool)
        ensures
            yes == (!self@.instances.contains_key(name@) && ty is Some && runtime::is_ambient(ty->0@)),
    {
        match ty {
            Some(t) => !self.instances.contains_key(name) && ambient_type(t),
            None => false,
        }
    }

    /// Gives a static field the instance that the platform hands out, at the
    /// address that allocation gave.
    pub fn add_ambient(&mut self, name: &str, ty: Option<&str>, address: Option<u32>)
        ensures
            final(self)@ == semantics::with_ambient(old(self)@, name@, control::text_of(ty), address),
    {
        if self.wants_ambient(name, ty) {
            if let (Some(t), Some(a)) = (ty, address) {
                let class = self.builtins.ambient_class(t);
                self.store(a, Value::Object(ClassInstance::new(class)));
                self.instances.insert(name.to_owned(), StaticSlot { node: node_index(0), address: a });
            }
        }
    }

    /// Reads a static field that refers to an object.
    fn read_static(&mut self, dst: usize, name: &str, field: u16) -> (result: Result<(), VMException>)
        ensures
            machine::effect(final(self)@, result) == semantics::read_static(old(self)@, dst, name@, field),
    {
        match self.instances.get(name) {
            Some(slot) => {
                let address: u32 = slot.address;
                match self.value(address) {
                    Some(Value::Object(instance)) => {
                        let register = Register::Reference(instance.class.class_name.clone(), address);
                        self.update_register(dst, register)
                    },
                    Some(Value::Array(_)) => self.update_register(dst, Register::Reference("[B".to_owned(), address)),
                    _ => Err(VMException::InvalidMemoryAddress(address)),
                }
            },
            None => Err(VMException::StaticDataNotFound(field as u32)),
        }
    }

    /// Reads a static field whose initializer has run, or that needs none.
    fn finish_static_get(&mut self, cursor: &mut Cursor, dst: usize, name: &str, ty: Option<&str>, field: u16, address: Option<u32>) -> (turn: Result<Turn, VMException>)
        requires
            old(cursor).valid(),
        ensures
            control::turned(
                final(self)@,
                *final(cursor),
                turn,
                semantics::finish_static_get(
                    control::machine_view(old(self)@, *old(cursor)),
                    dst,
                    name@,
                    control::text_of(ty),
                    field,
                    address,
                ),
            ),
    {
        self.add_ambient(name, ty, address);
        if self.current_state.vm_state == ExecutionState::RunningStaticInitializer {
            self.current_state.vm_state = ExecutionState::Running;
        }
        let result = self.read_static(dst, name, field);
        self.proceed(cursor, effects::moved(result))
    }

    /// Reads a static field, with the heap addresses that allocation gave.
    pub(crate) fn static_get(&mut self, cursor: &mut Cursor, dst: usize, field: u16, choice: Choice) -> (turn: Result<Turn, VMException>)
        requires
            old(cursor).valid(),
        ensures
            control::turned(
                final(self)@,
                *final(cursor),
                turn,
                semantics::static_get(control::machine_view(old(self)@, *old(cursor)), dst, field, choice),
            ),
    {
        let dex = cursor.dex.clone();
        if (field as usize) >= dex.fields.len() {
            return Err(VMException::ClassNotFound(0));
        }
        let entry = &dex.fields[field as usize];
        let class_name = match dex.get_type_name(entry.class_idx as usize) {
            Some(class_name) => class_name,
            None => {
                return Err(VMException::ClassNotFound(entry.class_idx));
            },
        };
        let name = qualified_name(class_name, entry.name.as_str());
        let ty = dex.get_type_name(entry.type_idx as usize);
        let main = self.dex_file.clone();
        if !self.instances.contains_key(name.as_str()) && self.current_state.vm_state != ExecutionState::RunningStaticInitializer {
            if let Some(class) = main.get_class_by_type(entry.class_idx as u32) {
                self.preset(name.as_str(), &class, field, choice.first);
                if let Some(method) = class.method_by_name("<clinit>") {
                    return self.initialize(cursor, method);
                }
            }
        }
        self.finish_static_get(cursor, dst, name.as_str(), ty, field, choice.second)
    }

    /// Allocates what the reading of a static field needs.
    pub(crate) fn draw_for_static(&self, dex: &DexFile, field: u16) -> (choice: Choice)
        ensures
            semantics::is_allowed(self@, choice),
            machine::drawn(self@, semantics::needs_text(self@, *dex, field), choice.first),
            machine::drawn(self@, semantics::needs_ambient(self@, *dex, field, choice.first), choice.second),
    {
        let nothing = Choice { first: None, second: None };
        if (field as usize) >= dex.fields.len() {
            return nothing;
        }
        let entry = &dex.fields[field as usize];
        let name = match dex.get_type_name(entry.class_idx as usize) {
            Some(class_name) => qualified_name(class_name, entry.name.as_str()),
            None => {
                return nothing;
            },
        };
        if self.instances.contains_key(name.as_str()) {
            return nothing;
        }
        if self.current_state.vm_state != ExecutionState::RunningStaticInitializer {
            if let Some(class) = self.dex_file.get_class_by_type(entry.class_idx as u32) {
                let first = self.draw_if(initial_text(&self.dex_file, &class, field).is_some());
                if first.first.is_some() || class.method_by_name("<clinit>").is_some() {
                    return first;
                }
            }
        }
        let ambient = self.wants_ambient(name.as_str(), dex.get_type_name(entry.type_idx as usize));
        Choice { first: None, second: self.draw_if(ambient).first }
    }
}

} // verus!
