//! Going from one instruction to another.

use vstd::prelude::*;
use std::sync::Arc;
use crate::instruction::{CodeItem, Instruction, InstructionSize, TestFunction};
use crate::models::DexFile;
use crate::text::same_text;
use crate::vm::effects;
use crate::vm::effects::Motion;
use crate::vm::exception::{BreakpointContext, ExecutionState, VMException};
use crate::vm::register;
use crate::vm::register::Register;
use crate::vm::runtime::StringClass;
use crate::vm::semantics;
use crate::vm::semantics::{CallView, MachineView, Status};
use crate::vm::state::{VMView, VM};

verus! {

/// What a run keeps besides the machine.
pub struct Cursor {
    pub code: Arc<CodeItem>,
    pub index: usize,
    pub dex: Arc<DexFile>,
    pub method: u32,
    pub steps: u32,
}

impl Cursor {
    /// The current instruction exists.
    pub open spec fn valid(self) -> bool {
        self.index < self.code.insns@.len()
    }
}

/// A machine in a run.
pub open spec fn machine_view(vm: VMView, cursor: Cursor) -> MachineView {
    MachineView {
        vm,
        code: cursor.code,
        index: cursor.index as int,
        dex: cursor.dex,
        method: cursor.method,
        steps: cursor.steps as int,
    }
}

/// A call that a builtin has to answer before the run can go on.
#[derive(Debug)]
pub struct RuntimeCall {
    /// The dex file that numbers the method.
    pub dex_file: Arc<DexFile>,
    pub method_idx: u32,
    pub arguments: Vec<Register>,
    /// Whether the run ends where the builtin fails.
    pub required: bool,
    pub code: Arc<CodeItem>,
    pub size: InstructionSize,
    pub steps: u32,
}

impl View for RuntimeCall {
    type V = CallView;

    open spec fn view(&self) -> CallView {
        CallView {
            dex: self.dex_file,
            method: self.method_idx,
            arguments: register::register_views(self.arguments@),
            required: self.required,
            code: self.code,
            size: self.size.0,
            steps: self.steps as int,
        }
    }
}

/// How one instruction left the run.
#[derive(Debug)]
pub enum Turn {
    Running,
    Finished,
    Stuck,
    Call(RuntimeCall),
}

/// How far the run has come after an instruction.
pub open spec fn status(vm: VMView, cursor: Cursor, turn: Result<Turn, VMException>) -> Status {
    match turn {
        Ok(Turn::Running) => Status::Running(machine_view(vm, cursor)),
        Ok(Turn::Finished) => Status::Done(vm, Ok(())),
        Ok(Turn::Stuck) => Status::Stuck,
        Ok(Turn::Call(call)) => Status::Call(vm, call@),
        Err(exception) => Status::Done(vm, Err(exception@)),
    }
}

/// The contract of an instruction: what it makes of the run, and that a run
/// that goes on has a current instruction.
pub open spec fn turned(vm: VMView, cursor: Cursor, turn: Result<Turn, VMException>, expected: Status) -> bool {
    &&& status(vm, cursor, turn) == expected
    &&& turn matches Ok(Turn::Running) ==> cursor.valid()
}

/// The characters of a text that may be missing.
pub open spec fn text_of(text: Option<&str>) -> Option<Seq<char>> {
    match text {
        Some(t) => Some(t@),
        None => None,
    }
}

fn compare(test: TestFunction, a: &Register, b: &Register) -> (yes: bool)
    ensures
        yes == semantics::holds(test, a@.number(), b@.number()),
{
    match test {
        TestFunction::Equal => *a == *b,
        TestFunction::NotEqual => *a != *b,
        TestFunction::LessThan => *a < *b,
        TestFunction::LessEqual => *a <= *b,
        TestFunction::GreaterThan => *a > *b,
        TestFunction::GreaterEqual => *a >= *b,
    }
}

impl VM {
    /// Goes on at the program counter.
    pub(crate) fn fetch(&self, cursor: &mut Cursor) -> (turn: Result<Turn, VMException>)
        ensures
            turned(self@, *final(cursor), turn, semantics::fetch(machine_view(self@, *old(cursor)))),
    {
        match cursor.code.position(self.current_state.pc) {
            Some(i) => {
                cursor.index = i;
                Ok(Turn::Running)
            },
            None => Err(
                VMException::NoInstructionAtAddress(
                    self.current_state.current_method_index,
                    self.current_state.pc.0 as usize,
                ),
            ),
        }
    }

    /// Goes on behind an instruction of `size` bytes.
    pub(crate) fn settle(&mut self, cursor: &mut Cursor, size: u32) -> (turn: Result<Turn, VMException>)
        ensures
            turned(final(self)@, *final(cursor), turn, semantics::settle(machine_view(old(self)@, *old(cursor)), size)),
    {
        if self.current_state.vm_state == ExecutionState::Finished {
            return Ok(Turn::Finished);
        }
        if self.current_state.vm_state != ExecutionState::RunningStaticInitializer {
            self.current_state.last_instruction_size = InstructionSize(size / 2);
            self.current_state.pc = self.current_state.pc.skip(size / 2);
        }
        self.fetch(cursor)
    }

    /// Goes on after an operation that branches nowhere.
    pub(crate) fn proceed(&mut self, cursor: &mut Cursor, result: Result<Motion, VMException>) -> (turn: Result<Turn, VMException>)
        requires
            old(cursor).valid(),
        ensures
            turned(
                final(self)@,
                *final(cursor),
                turn,
                semantics::proceed(machine_view(old(self)@, *old(cursor)), effects::motion(old(self)@, result)),
            ),
    {
        match result {
            Ok(Motion::Next) => {
                let size: u32 = cursor.code.insns[cursor.index].0.0;
                self.settle(cursor, size)
            },
            Ok(Motion::Stuck) => Ok(Turn::Stuck),
            Err(exception) => Err(exception),
        }
    }

    /// Branches by `offset` code units.
    pub(crate) fn branch(&mut self, cursor: &mut Cursor, offset: i32) -> (turn: Result<Turn, VMException>)
        ensures
            turned(final(self)@, *final(cursor), turn, semantics::branch(machine_view(old(self)@, *old(cursor)), offset)),
    {
        self.current_state.pc = self.current_state.pc.offset_by(offset);
        self.fetch(cursor)
    }

    /// Goes on behind the instruction.
    fn fall_through(&mut self, cursor: &mut Cursor) -> (turn: Result<Turn, VMException>)
        requires
            old(cursor).valid(),
        ensures
            turned(final(self)@, *final(cursor), turn, semantics::fall_through(machine_view(old(self)@, *old(cursor)))),
    {
        let size: u32 = cursor.code.insns[cursor.index].0.0;
        self.current_state.pc = self.current_state.pc.skip(size / 2);
        self.fetch(cursor)
    }

    /// Branches where two registers compare.
    pub(crate) fn test(&mut self, cursor: &mut Cursor, test: TestFunction, a: usize, b: usize, offset: i32) -> (turn: Result<Turn, VMException>)
        requires
            old(cursor).valid(),
        ensures
            turned(
                final(self)@,
                *final(cursor),
                turn,
                semantics::test(machine_view(old(self)@, *old(cursor)), test, a, b, offset),
            ),
    {
        let taken = match (self.register(a), self.register(b)) {
            (Some(left), Some(right)) => {
                if matches!(left, Register::Empty) || matches!(right, Register::Empty) {
                    return Err(VMException::RegisterNotFound(0));
                }
                compare(test, left, right)
            },
            _ => {
                return Err(VMException::RegisterNotFound(0));
            },
        };
        if taken {
            self.branch(cursor, offset)
        } else {
            self.fall_through(cursor)
        }
    }

    /// Branches where a register compares with 0.
    pub(crate) fn test_zero(&mut self, cursor: &mut Cursor, test: TestFunction, a: usize, offset: i32) -> (turn: Result<Turn, VMException>)
        requires
            old(cursor).valid(),
        ensures
            turned(
                final(self)@,
                *final(cursor),
                turn,
                semantics::test_zero(machine_view(old(self)@, *old(cursor)), test, a, offset),
            ),
    {
        let zero = Register::Literal(0);
        let taken = match self.register(a) {
            Some(left) => compare(test, left, &zero),
            None => {
                return Err(VMException::RegisterNotFound(a));
            },
        };
        if taken {
            self.branch(cursor, offset)
        } else {
            self.fall_through(cursor)
        }
    }

    /// Branches by the table of a switch.
    pub(crate) fn switch(&mut self, cursor: &mut Cursor, register: usize, table: i32) -> (turn: Result<Turn, VMException>)
        requires
            old(cursor).valid(),
        ensures
            turned(
                final(self)@,
                *final(cursor),
                turn,
                semantics::switch(machine_view(old(self)@, *old(cursor)), register, table),
            ),
    {
        let n: i32 = match self.register(register) {
            Some(Register::Literal(n)) => *n,
            _ => {
                return Err(VMException::RegisterNotFound(register));
            },
        };
        let code = cursor.code.clone();
        if let Some(i) = code.position(self.current_state.pc.offset_by(table)) {
            if let Instruction::SwitchData(switch) = &code.insns[i].2 {
                if let Some(offset) = switch.targets.get(&n) {
                    return self.branch(cursor, *offset);
                }
            }
        }
        self.proceed(cursor, Ok(Motion::Next))
    }

    /// Goes on in the frame that has become the running one, behind its call.
    fn go_back(&mut self, cursor: &mut Cursor) -> (turn: Result<Turn, VMException>)
        ensures
            turned(
                final(self)@,
                *final(cursor),
                turn,
                semantics::go_back(machine_view(old(self)@, *old(cursor)), old(self)@),
            ),
    {
        cursor.code = self.current_state.current_instructions.clone();
        cursor.dex = self.current_state.current_dex_file.clone();
        match cursor.code.position(self.current_state.pc) {
            Some(i) => {
                cursor.index = i;
                let size: u32 = cursor.code.insns[i].0.0;
                self.settle(cursor, size)
            },
            None => Err(
                VMException::NoInstructionAtAddress(
                    self.current_state.current_method_index,
                    self.current_state.pc.0 as usize,
                ),
            ),
        }
    }

    /// Returns without a value.
    pub(crate) fn return_void(&mut self, cursor: &mut Cursor) -> (turn: Result<Turn, VMException>)
        ensures
            turned(final(self)@, *final(cursor), turn, semantics::return_void(machine_view(old(self)@, *old(cursor)))),
    {
        match self.stack_frames.pop() {
            Some(frame) => {
                self.current_state = frame;
                assert(self@.frames =~= old(self)@.frames.drop_last());
                self.go_back(cursor)
            },
            None => {
                self.current_state.vm_state = ExecutionState::Finished;
                assert(self@.frames =~= old(self)@.frames);
                Ok(Turn::Finished)
            },
        }
    }

    /// Whether a register refers to an array or a string by its type.
    fn has_watched_type(&self, register: u8) -> (yes: bool)
        ensures
            yes == semantics::has_watched_type(self@.register(register as int)),
    {
        match self.register(register as usize) {
            Some(Register::Reference(ty, _)) => same_text(ty.as_str(), "[B") || same_text(ty.as_str(), "[C") || same_text(
                ty.as_str(),
                StringClass::class_name(),
            ),
            _ => false,
        }
    }

    /// Returns a value.
    pub(crate) fn return_value(&mut self, cursor: &mut Cursor, register: u8) -> (turn: Result<Turn, VMException>)
        ensures
            turned(
                final(self)@,
                *final(cursor),
                turn,
                semantics::return_value(machine_view(old(self)@, *old(cursor)), register),
            ),
    {
        if !self.skip_next_breakpoint {
            if (self.stop_on_array_return || self.stop_on_string_return) && self.has_watched_type(register) {
                return Err(
                    VMException::Breakpoint(
                        self.current_state.pc,
                        self.current_state.current_method_index,
                        BreakpointContext::ResultObjectRegister(register as u16),
                    ),
                );
            }
        } else {
            self.skip_next_breakpoint = false;
        }
        let value = match self.register(register as usize) {
            Some(value) => Some(value.clone()),
            None => None,
        };
        if let Some(value) = value {
            self.current_state.return_reg = value;
        }
        let ghost before = self@;
        match self.stack_frames.pop() {
            Some(frame) => {
                let mut frame = frame;
                frame.return_reg = self.current_state.return_reg.clone();
                if frame.current_instructions.position(frame.pc).is_none() {
                    return Ok(Turn::Stuck);
                }
                self.current_state = frame;
                assert(self@.frames =~= before.frames.drop_last());
                self.go_back(cursor)
            },
            None => {
                self.current_state.vm_state = ExecutionState::Finished;
                assert(self@.frames =~= before.frames);
                Ok(Turn::Finished)
            },
        }
    }
}

} // verus!
