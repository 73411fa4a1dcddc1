//! Calling methods.

use vstd::prelude::*;
use crate::instruction::{CodeItem, InstructionOffset, InstructionSize};
use crate::vm::control;
use crate::vm::control::{Cursor, RuntimeCall, Turn};
use crate::vm::exception::{BreakpointContext, ExecutionState, VMException};
use crate::vm::register;
use crate::vm::register::{Register, RegisterView};
use crate::vm::semantics;
use crate::vm::semantics::{Passing, MAX_DEPTH};
use crate::vm::state::VM;
use crate::vm::value::Value;

verus! {

/// Puts the arguments of a call on an object behind the empty registers, as far
/// as the method has parameters for them.
fn padded_registers(code: &CodeItem, arguments: &Vec<Register>) -> (registers: Vec<Register>)
    requires
        code.ins_size <= code.register_size,
    ensures
        register::register_views(registers@) == semantics::padded_registers(
            *code,
            register::register_views(arguments@),
        ),
{
    let params: usize = code.ins_size as usize;
    let mut registers: Vec<Register> = empty_registers(code.register_size as usize - params);
    let ghost empty = register::register_views(registers@);
    let ghost passed = register::register_views(arguments@);
    let ghost all = Seq::new(
        params as nat,
        |i: int| if i < passed.len() { passed[i] } else { RegisterView::Empty },
    );
    assert(register::register_views(registers@) =~= empty + all.take(0));
    let mut i: usize = 0;
    while i < params
        invariant
            i <= params,
            params == all.len(),
            passed == register::register_views(arguments@),
            all == Seq::new(
                params as nat,
                |i: int| if i < passed.len() { passed[i] } else { RegisterView::Empty },
            ),
            register::register_views(registers@) == empty + all.take(i as int),
        decreases params - i,
    {
        let ghost before = registers@;
        if i < arguments.len() {
            registers.push(arguments[i].clone());
        } else {
            registers.push(Register::Empty);
        }
        assert(register::register_views(registers@) =~= register::register_views(before).push(all[i as int]));
        assert(register::register_views(registers@) =~= empty + all.take(i + 1));
        i = i + 1;
    }
    assert(register::register_views(registers@) =~= empty + all);
    registers
}

/// Makes `n` empty registers.
pub(crate) fn empty_registers(n: usize) -> (registers: Vec<Register>)
    ensures
        register::register_views(registers@) == semantics::empty_registers(n as int),
{
    let mut registers: Vec<Register> = Vec::new();
    let mut i: usize = 0;
    while i < n
        invariant
            i <= n,
            registers@.len() == i,
            forall|j: int| 0 <= j < i ==> #[trigger] registers@[j] == Register::Empty,
        decreases n - i,
    {
        registers.push(Register::Empty);
        i = i + 1;
    }
    assert(register::register_views(registers@) =~= semantics::empty_registers(n as int));
    registers
}

/// Puts the arguments of a static call behind the empty registers.
pub(crate) fn static_registers(code: &CodeItem, arguments: Vec<Register>) -> (registers: Vec<Register>)
    requires
        code.ins_size <= code.register_size,
    ensures
        register::register_views(registers@) == semantics::static_registers(
            *code,
            register::register_views(arguments@),
        ),
{
    let mut arguments = arguments;
    let ghost passed = arguments@;
    let mut registers: Vec<Register> = empty_registers(code.register_size as usize - code.ins_size as usize);
    let ghost empty = registers@;
    registers.append(&mut arguments);
    assert(register::register_views(registers@) =~= register::register_views(empty) + register::register_views(passed));
    registers
}

impl VM {
    /// Where an argument of a call makes the machine stop.
    fn stop_at_argument(&self, argument: &Register, register: u8, method: u16, lenient: bool) -> (context: Option<BreakpointContext>)
        ensures
            context == semantics::stop_at_argument(self@, argument@, register, method, lenient),
    {
        match argument {
            Register::Reference(_, address) => match self.value(*address) {
                Some(Value::Array(_)) => if self.stop_on_array_use {
                    Some(BreakpointContext::ArrayReg(register as u16, method))
                } else {
                    None
                },
                Some(Value::Object(instance)) => if instance.is_string() && (lenient || self.stop_on_string_use) {
                    Some(BreakpointContext::StringReg(register as u16, method))
                } else {
                    None
                },
                _ => None,
            },
            _ => None,
        }
    }

    /// Reads the arguments of a call.
    fn pass_arguments(&mut self, registers: &Vec<u8>, method: u16, site: u32, lenient: bool) -> (passed: Result<Vec<Register>, VMException>)
        ensures
            semantics::pass_arguments(old(self)@, Seq::empty(), registers@, 0, method, site, lenient) == (match passed {
                Ok(arguments) => Passing::Passed(final(self)@, register::register_views(arguments@)),
                Err(exception) => Passing::Fault(final(self)@, exception@),
            }),
    {
        let mut arguments: Vec<Register> = Vec::new();
        assert(register::register_views(arguments@) =~= Seq::<RegisterView>::empty());
        let mut i: usize = 0;
        while i < registers.len()
            invariant
                i <= registers@.len(),
                semantics::pass_arguments(old(self)@, Seq::empty(), registers@, 0, method, site, lenient)
                    == semantics::pass_arguments(
                    self@,
                    register::register_views(arguments@),
                    registers@,
                    i as int,
                    method,
                    site,
                    lenient,
                ),
            decreases registers@.len() - i,
        {
            let number: u8 = registers[i];
            let argument = match self.register(number as usize) {
                Some(register) => register.clone(),
                None => {
                    return Err(VMException::RegisterNotFound(number as usize));
                },
            };
            if (self.stop_on_array_use || self.stop_on_string_use) && self.current_state.vm_state == ExecutionState::Running
                && i as u32 >= self.current_state.last_break_point_reg {
                if !self.skip_next_breakpoint {
                    if let Some(context) = self.stop_at_argument(&argument, number, method, lenient) {
                        let pc = self.current_state.pc;
                        self.current_state.vm_state = ExecutionState::Paused;
                        self.current_state.last_break_point_reg = i as u32;
                        return Err(VMException::Breakpoint(pc, site, context));
                    }
                } else {
                    self.skip_next_breakpoint = false;
                }
            }
            let ghost before = arguments@;
            arguments.push(argument);
            assert(register::register_views(arguments@) =~= register::register_views(before).push(argument@));
            i = i + 1;
        }
        Ok(arguments)
    }

    /// Calls a method.
    fn call(&mut self, cursor: &mut Cursor, method: u16, count: Option<u8>, arguments: Vec<Register>) -> (turn: Result<Turn, VMException>)
        requires
            old(cursor).valid(),
        ensures
            control::turned(
                final(self)@,
                *final(cursor),
                turn,
                semantics::call(
                    control::machine_view(old(self)@, *old(cursor)),
                    old(self)@,
                    method,
                    count,
                    register::register_views(arguments@),
                ),
            ),
    {
        self.current_state.last_break_point_reg = 0;
        let frame = self.current_state.clone();
        self.stack_frames.push(frame);
        self.current_state.current_method_index = method as u32;
        let ghost called = semantics::saved(old(self)@, method);
        assert(self@.frames =~= called.frames);
        assert(self@ =~= called);
        let size: InstructionSize = cursor.code.insns[cursor.index].0;
        let dex = cursor.dex.clone();
        cursor.method = method as u32;
        let linked = match self.get_method(&dex, method as u32) {
            Ok((file, found)) => match &found.code {
                None => {
                    return Err(VMException::MethodNotFound(found.name.clone()));
                },
                Some(code) => Some((file, code.clone())),
            },
            Err(_) => None,
        };
        match linked {
            Some((file, code)) => {
                if let Some(n) = count {
                    if code.ins_size != n as u16 {
                        return Err(VMException::WrongNumberOfArguments);
                    }
                }
                if code.register_size < code.ins_size {
                    return Ok(Turn::Stuck);
                }
                let registers = match count {
                    Some(_) => static_registers(&code, arguments),
                    None => padded_registers(&code, &arguments),
                };
                self.current_state.current_dex_file = file.clone();
                self.current_state.pc = InstructionOffset(0);
                self.current_state.return_reg = Register::Empty;
                self.current_state.num_params = code.ins_size as usize;
                self.current_state.num_registers = code.register_size as usize;
                self.current_state.current_stackframe = registers;
                self.current_state.current_instructions = code.clone();
                cursor.dex = file;
                cursor.code = code;
                self.fetch(cursor)
            },
            None => Ok(
                Turn::Call(
                    RuntimeCall {
                        dex_file: dex,
                        method_idx: method as u32,
                        arguments,
                        required: count.is_none(),
                        code: cursor.code.clone(),
                        size,
                        steps: cursor.steps,
                    },
                ),
            ),
        }
    }

    /// Reads the arguments of a call and calls.
    pub(crate) fn invoke(&mut self, cursor: &mut Cursor, method: u16, count: Option<u8>, registers: &Vec<u8>) -> (turn: Result<Turn, VMException>)
        requires
            old(cursor).valid(),
        ensures
            control::turned(
                final(self)@,
                *final(cursor),
                turn,
                semantics::invoke(control::machine_view(old(self)@, *old(cursor)), method, count, registers@),
            ),
    {
        if self.stack_frames.len() > MAX_DEPTH {
            return Err(VMException::StackOverflow);
        }
        let site: u32 = match count {
            Some(_) => cursor.method,
            None => self.current_state.current_method_index,
        };
        match self.pass_arguments(registers, method, site, count.is_none()) {
            Ok(arguments) => self.call(cursor, method, count, arguments),
            Err(exception) => Err(exception),
        }
    }
}

} // verus!
