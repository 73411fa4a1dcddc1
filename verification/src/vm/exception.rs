//! Why the machine stops, and where it was asked to stop.

use vstd::prelude::*;
use crate::instruction::InstructionOffset;

verus! {

/// Why the machine stopped before the method returned.
#[derive(Debug)]
pub enum VMException {
    RegisterNotFound(usize),
    StackFrameMissing,
    /// The method and the address.
    NoInstructionAtAddress(u32, usize),
    ClassNotFound(u16),
    OutOfMemory,
    InstanceNotFound(u32),
    IndexOutOfBounds,
    WrongNumberOfArguments,
    InvalidRegisterType,
    StackOverflow,
    MethodNotFound(String),
    InvalidMemoryAddress(u32),
    LinkerError,
    StaticDataNotFound(u32),
    /// The address, the method and what was met there.
    Breakpoint(InstructionOffset, u32, BreakpointContext),
}

/// An exception, with its text as a sequence of characters.
pub enum ExceptionView {
    RegisterNotFound(usize),
    StackFrameMissing,
    NoInstructionAtAddress(u32, usize),
    ClassNotFound(u16),
    OutOfMemory,
    InstanceNotFound(u32),
    IndexOutOfBounds,
    WrongNumberOfArguments,
    InvalidRegisterType,
    StackOverflow,
    MethodNotFound(Seq<char>),
    InvalidMemoryAddress(u32),
    LinkerError,
    StaticDataNotFound(u32),
    Breakpoint(u32, u32, BreakpointContext),
}

impl View for VMException {
    type V = ExceptionView;

    open spec fn view(&self) -> ExceptionView {
        match self {
            VMException::RegisterNotFound(register) => ExceptionView::RegisterNotFound(*register),
            VMException::StackFrameMissing => ExceptionView::StackFrameMissing,
            VMException::NoInstructionAtAddress(method, address) => ExceptionView::NoInstructionAtAddress(*method, *address),
            VMException::ClassNotFound(class) => ExceptionView::ClassNotFound(*class),
            VMException::OutOfMemory => ExceptionView::OutOfMemory,
            VMException::InstanceNotFound(address) => ExceptionView::InstanceNotFound(*address),
            VMException::IndexOutOfBounds => ExceptionView::IndexOutOfBounds,
            VMException::WrongNumberOfArguments => ExceptionView::WrongNumberOfArguments,
            VMException::InvalidRegisterType => ExceptionView::InvalidRegisterType,
            VMException::StackOverflow => ExceptionView::StackOverflow,
            VMException::MethodNotFound(text) => ExceptionView::MethodNotFound(text@),
            VMException::InvalidMemoryAddress(address) => ExceptionView::InvalidMemoryAddress(*address),
            VMException::LinkerError => ExceptionView::LinkerError,
            VMException::StaticDataNotFound(field) => ExceptionView::StaticDataNotFound(*field),
            VMException::Breakpoint(address, method, context) => ExceptionView::Breakpoint(address.0, *method, *context),
        }
    }
}

/// What was met at a breakpoint.
#[derive(Debug, Clone, Copy, PartialEq, Eq, Structural)]
pub enum BreakpointContext {
    ResultObjectRegister(u16),
    /// The register with the array, and the method that gets it.
    ArrayReg(u16, u16),
    /// The register with the string, and the method that gets it.
    StringReg(u16, u16),
    /// The register, and the field that it is stored in.
    FieldSet(u16, u16),
    Nothing,
}

/// Where the machine is to stop.
#[derive(Debug, Clone, Copy, PartialEq, Eq, Structural)]
pub enum Breakpoint {
    ArrayUse,
    StringUse,
    StringReturn,
    ArrayReturn,
    RegisterAccess(u8),
    PrototypeResult(u16),
    FunctionResult(u16),
    Instruction(u32),
    FieldSet(u16),
    FieldGet(u16),
    FunctionEntry,
    FunctionExit,
}

/// What the machine is doing.
#[derive(Clone, Copy, Debug, PartialEq, Eq, Structural)]
pub enum ExecutionState {
    Stopped,
    Paused,
    Running,
    RunningStaticInitializer,
    StaticInitializer,
    Error,
    Finished,
}

/// The outcome of an operation, with an exception by its view.
pub open spec fn outcome<T>(result: Result<T, VMException>) -> Result<T, ExceptionView> {
    match result {
        Ok(value) => Ok(value),
        Err(exception) => Err(exception@),
    }
}

} // verus!
