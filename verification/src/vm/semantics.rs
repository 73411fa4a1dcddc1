//! What running code does to the machine, stated over views.

use vstd::prelude::*;
use std::sync::Arc;
use crate::instruction::{CodeItem, Instruction, InstructionOffset, InstructionSize, TestFunction};
use crate::models;
use crate::models::{Class, DexFile, MethodData, ValueType};
use crate::search;
use crate::text;
use crate::vm::exception::{Breakpoint, BreakpointContext, ExceptionView, ExecutionState};
use crate::vm::graph;
use crate::vm::graph::StaticSlot;
use crate::vm::machine;
use crate::vm::operation::{Arithmetic, Operation};
use crate::vm::register::RegisterView;
use crate::vm::runtime;
use crate::vm::runtime::StringClass;
use crate::vm::state::{FrameView, VMView};
use crate::vm::value::{InstanceView, ValueView};

verus! {

/// How many instructions one run may execute.
pub const MAX_STEPS: u32 = 1000;

/// How many frames may be saved when a method is called.
pub const MAX_DEPTH: usize = 20;

/// How long a new array may be.
pub const MAX_SIZE: usize = 100_000;

// ---------------------------------------------------------------------------
// Parts of the machine
// ---------------------------------------------------------------------------

impl VMView {
    /// The register `i` of the running method.
    pub open spec fn register(self, i: int) -> Option<RegisterView> {
        if 0 <= i < self.current.registers.len() {
            Some(self.current.registers[i])
        } else {
            None
        }
    }

    /// The value at a heap address.
    pub open spec fn value(self, address: u32) -> Option<ValueView> {
        if self.heap.contains_key(address) {
            Some(self.heap[address])
        } else {
            None
        }
    }

    /// The value that a register refers to.
    pub open spec fn referred(self, i: int) -> Option<ValueView> {
        match self.register(i) {
            Some(RegisterView::Reference(_, address)) => self.value(address),
            _ => None,
        }
    }

    /// The machine with another running frame.
    pub open spec fn with_frame(self, frame: FrameView) -> VMView {
        VMView { current: frame, ..self }
    }

    /// The machine with register `i` set.
    pub open spec fn with_register(self, i: int, register: RegisterView) -> VMView {
        self.with_frame(FrameView { registers: self.current.registers.update(i, register), ..self.current })
    }

    /// The machine with the program counter set.
    pub open spec fn at(self, pc: u32) -> VMView {
        self.with_frame(FrameView { pc, ..self.current })
    }

    /// The machine in another execution state.
    pub open spec fn in_state(self, state: ExecutionState) -> VMView {
        self.with_frame(FrameView { state, ..self.current })
    }

    /// The machine with `value` at a heap address.
    pub open spec fn store(self, address: u32, value: ValueView) -> VMView {
        VMView { heap: self.heap.insert(address, value), ..self }
    }

    /// The machine with a static field that refers to a heap address.
    pub open spec fn with_static(self, name: Seq<char>, slot: StaticSlot) -> VMView {
        VMView { instances: self.instances.insert(name, slot), ..self }
    }
}

/// The slot of a static field that gets its first object.
pub open spec fn new_slot(address: u32) -> StaticSlot {
    StaticSlot { node: graph::node_at(0), address }
}

/// An address that allocation may give: none, or one that is not in use.
pub open spec fn is_fresh(heap: Map<u32, ValueView>, address: Option<u32>) -> bool {
    address matches Some(a) ==> !heap.contains_key(a)
}

// ---------------------------------------------------------------------------
// Operations that go on with the instruction behind them
// ---------------------------------------------------------------------------

/// The effect of an operation on the machine.
#[verifier::ext_equal]
pub enum Effect {
    /// It goes on with the instruction behind.
    Next(VMView),
    /// It stops with an exception.
    Fault(VMView, ExceptionView),
    /// It has no defined result.
    Stuck,
}

/// Sets register `dst`.
pub open spec fn put(vm: VMView, dst: usize, register: RegisterView) -> Effect {
    if dst < vm.current.registers.len() {
        Effect::Next(vm.with_register(dst as int, register))
    } else {
        Effect::Fault(vm, ExceptionView::RegisterNotFound(dst))
    }
}

/// Copies register `src` to `dst`.
pub open spec fn move_register(vm: VMView, dst: usize, src: usize) -> Effect {
    match vm.register(src as int) {
        Some(register) => put(vm, dst, register),
        None => Effect::Fault(vm, ExceptionView::RegisterNotFound(src)),
    }
}

/// Takes the result of the last call.
pub open spec fn move_result(vm: VMView, dst: usize) -> Effect {
    match put(vm, dst, vm.current.result) {
        Effect::Next(vm) => Effect::Next(vm.with_frame(FrameView { result: RegisterView::Empty, ..vm.current })),
        other => other,
    }
}

/// The remainder of a division that rounds toward zero.
pub open spec fn remainder(a: int, b: int) -> int {
    let d = if b < 0 {
        -b
    } else {
        b
    };
    if a < 0 {
        -((-a) % d)
    } else {
        a % d
    }
}

/// The result of an operation on two integers, modulo 2^32.
pub open spec fn computed(op: Arithmetic, a: i32, b: i32) -> i32 {
    match op {
        Arithmetic::Xor => a ^ b,
        Arithmetic::Rem => remainder(a as int, b as int) as i32,
        Arithmetic::Add => a.wrapping_add(b),
        Arithmetic::Mul => a.wrapping_mul(b),
        Arithmetic::Sub => a.wrapping_sub(b),
        Arithmetic::And => a & b,
        Arithmetic::Or => a | b,
    }
}

/// Computes with two registers. Where one of them holds no literal the result
/// is an empty register.
pub open spec fn arithmetic(vm: VMView, op: Arithmetic, dst: usize, a: usize, b: usize) -> Effect {
    match vm.register(a as int) {
        None => Effect::Fault(vm, ExceptionView::RegisterNotFound(a)),
        Some(RegisterView::Literal(left)) => match vm.register(b as int) {
            None => Effect::Fault(vm, ExceptionView::RegisterNotFound(b)),
            Some(RegisterView::Literal(right)) => if op == Arithmetic::Rem && right == 0 {
                Effect::Fault(vm, ExceptionView::InvalidRegisterType)
            } else if op == Arithmetic::Rem && left == i32::MIN && right == -1 {
                Effect::Stuck
            } else {
                put(vm, dst, RegisterView::Literal(computed(op, left, right)))
            },
            Some(_) => put(vm, dst, RegisterView::Empty),
        },
        Some(_) => put(vm, dst, RegisterView::Empty),
    }
}

/// Computes with a register and a literal.
pub open spec fn arithmetic_literal(vm: VMView, op: Arithmetic, dst: usize, a: usize, literal: i32) -> Effect {
    match vm.register(a as int) {
        None => Effect::Fault(vm, ExceptionView::RegisterNotFound(a)),
        Some(RegisterView::Literal(left)) => if op == Arithmetic::Rem && literal == 0 {
            Effect::Stuck
        } else {
            put(vm, dst, RegisterView::Literal(computed(op, left, literal)))
        },
        Some(_) => put(vm, dst, RegisterView::Empty),
    }
}

/// Keeps the low byte of a literal, with its sign.
pub open spec fn truncate(vm: VMView, dst: usize, src: usize) -> Effect {
    match vm.register(src as int) {
        Some(RegisterView::Literal(n)) => put(vm, dst, RegisterView::Literal((n as i8) as i32)),
        _ => Effect::Next(vm),
    }
}

/// Puts an object on the heap, at the address that allocation gave.
pub open spec fn place(vm: VMView, address: Option<u32>, ty: Seq<char>, value: ValueView) -> (VMView, Result<RegisterView, ExceptionView>) {
    match address {
        Some(a) => (vm.store(a, value), Ok(RegisterView::Reference(ty, a))),
        None => (vm, Err(ExceptionView::OutOfMemory)),
    }
}

/// Makes a string from the string table.
pub open spec fn const_string(vm: VMView, dst: usize, string: u32, address: Option<u32>) -> Effect {
    match vm.current.dex.string_at(string as int) {
        None => Effect::Fault(vm, ExceptionView::StaticDataNotFound(string)),
        Some(text) => {
            let (placed, made) = place(
                vm,
                address,
                StringClass::name(),
                ValueView::Object(StringClass::object(vm.builtins, text)),
            );
            match made {
                Ok(register) => put(placed, dst, register),
                Err(exception) => Effect::Fault(placed, exception),
            }
        },
    }
}

/// Reads the length of an array.
pub open spec fn array_length(vm: VMView, dst: usize, array: usize) -> Effect {
    match vm.register(array as int) {
        Some(RegisterView::Reference(_, address)) => match vm.value(address) {
            Some(ValueView::Array(data)) => put(vm, dst, RegisterView::Literal(data.len() as i32)),
            _ => Effect::Next(vm),
        },
        _ => Effect::Fault(vm, ExceptionView::InvalidRegisterType),
    }
}

/// Reads an item of an array.
pub open spec fn array_get(vm: VMView, dst: usize, array: usize, index: usize) -> Effect {
    match vm.register(array as int) {
        Some(RegisterView::Reference(_, address)) => match vm.value(address) {
            Some(ValueView::Array(data)) => match vm.register(index as int) {
                Some(RegisterView::Literal(i)) => if 0 <= i < data.len() {
                    put(vm, dst, RegisterView::Literal(data[i as int] as i32))
                } else {
                    Effect::Fault(vm, ExceptionView::IndexOutOfBounds)
                },
                _ => Effect::Next(vm),
            },
            _ => Effect::Fault(vm, ExceptionView::InstanceNotFound(address)),
        },
        _ => Effect::Next(vm),
    }
}

/// Sets an item of an array to the low byte of a literal.
pub open spec fn array_put(vm: VMView, src: usize, array: usize, index: usize) -> Effect {
    match vm.register(array as int) {
        Some(RegisterView::Reference(_, address)) => match vm.register(index as int) {
            Some(RegisterView::Literal(i)) => match vm.value(address) {
                Some(ValueView::Array(data)) => if 0 <= i < data.len() {
                    match vm.register(src as int) {
                        Some(RegisterView::Literal(n)) => Effect::Next(
                            vm.store(address, ValueView::Array(data.update(i as int, n as u8))),
                        ),
                        _ => Effect::Next(vm),
                    }
                } else {
                    Effect::Fault(vm, ExceptionView::IndexOutOfBounds)
                },
                _ => Effect::Fault(vm, ExceptionView::InstanceNotFound(address)),
            },
            _ => Effect::Next(vm),
        },
        _ => Effect::Fault(vm, ExceptionView::RegisterNotFound(array)),
    }
}

/// Holds of the dex files that define a class called `name`.
pub open spec fn has_class(name: Seq<char>) -> spec_fn(Arc<DexFile>) -> bool {
    |dex: Arc<DexFile>| search::first(dex.classes@, models::class_called(name)) is Some
}

/// The class of a type: from the dex file that names it, else by its name from
/// the runtime, else from the builtins.
pub open spec fn find_class(vm: VMView, dex: DexFile, type_idx: u32) -> Result<Class, ExceptionView> {
    match search::first(dex.classes@, models::class_of_type(type_idx)) {
        Some(class) => Ok(*class),
        None => match dex.type_name_at(type_idx as int) {
            None => Err(ExceptionView::ClassNotFound(type_idx as u16)),
            Some(name) => match search::first(vm.runtime, has_class(name)) {
                Some(file) => Ok(*search::first(file.classes@, models::class_called(name))->0),
                None => if vm.builtins.contains_key(name) {
                    Ok(vm.builtins[name])
                } else {
                    Err(ExceptionView::ClassNotFound(type_idx as u16))
                },
            },
        },
    }
}

/// Makes an instance of a class, without fields.
pub open spec fn new_object(vm: VMView, dex: DexFile, dst: usize, class: u16, address: Option<u32>) -> Effect {
    match find_class(vm, dex, class as u32) {
        Err(exception) => Effect::Fault(vm, exception),
        Ok(found) => match address {
            None => Effect::Fault(vm, ExceptionView::OutOfMemory),
            Some(a) => match dex.type_name_at(class as int) {
                None => Effect::Stuck,
                Some(name) => put(
                    vm.store(a, ValueView::Object(InstanceView::plain(found, Map::empty()))),
                    dst,
                    RegisterView::Reference(name, a),
                ),
            },
        },
    }
}

/// The type of a byte array.
pub open spec fn byte_array() -> Seq<char> {
    "[B"@
}

/// The type of a character array.
pub open spec fn char_array() -> Seq<char> {
    "[C"@
}

/// Makes an array of zeros. Where allocation gives no address nothing happens.
pub open spec fn new_array(vm: VMView, dst: usize, size: usize, class: u16, address: Option<u32>) -> Effect {
    match vm.register(size as int) {
        Some(RegisterView::Literal(n)) => if n < 0 || n > MAX_SIZE {
            Effect::Fault(vm, ExceptionView::StackOverflow)
        } else {
            match address {
                None => Effect::Next(vm),
                Some(a) => {
                    let ty = match vm.current.dex.type_name_at(class as int) {
                        Some(name) => name,
                        None => byte_array(),
                    };
                    put(
                        vm.store(a, ValueView::Array(Seq::new(n as nat, |i: int| 0u8))),
                        dst,
                        RegisterView::Reference(ty, a),
                    )
                },
            }
        },
        _ => Effect::Next(vm),
    }
}

/// Makes an array with these bytes, as the result of a call.
pub open spec fn filled_new_array(vm: VMView, data: Seq<u8>, address: Option<u32>) -> Effect {
    match address {
        Some(a) => {
            let stored = vm.store(a, ValueView::Array(data));
            Effect::Next(
                stored.with_frame(FrameView { result: RegisterView::Reference(byte_array(), a), ..stored.current }),
            )
        },
        None => Effect::Fault(vm, ExceptionView::OutOfMemory),
    }
}

/// The instruction at an address of a method.
pub open spec fn instruction_at(code: CodeItem, address: u32) -> Option<Instruction> {
    match code.index_at(address) {
        Some(i) => Some(code.insns@[i].2),
        None => None,
    }
}

/// Replaces an object by the bytes that stand in the method.
pub open spec fn fill_array(vm: VMView, code: CodeItem, array: usize, table: i32) -> Effect {
    match vm.register(array as int) {
        Some(RegisterView::Reference(_, address)) => if !vm.heap.contains_key(address) {
            Effect::Fault(vm, ExceptionView::InstanceNotFound(address))
        } else {
            match instruction_at(code, vm.current.pc.wrapping_add_signed(table)) {
                None => Effect::Fault(vm, ExceptionView::InstanceNotFound(table as u32)),
                Some(Instruction::ArrayData(_, data)) => Effect::Next(vm.store(address, ValueView::Array(data@))),
                Some(_) => Effect::Next(vm),
            }
        },
        _ => Effect::Next(vm),
    }
}

/// The qualified name of a field, by the class that the dex file defines.
pub open spec fn field_name(dex: DexFile, field: u16) -> Result<Seq<char>, ExceptionView> {
    if field < dex.fields@.len() {
        let entry = dex.fields@[field as int];
        match search::first(dex.classes@, models::class_of_type(entry.class_idx as u32)) {
            Some(class) => Ok(text::qualified(class.class_name@, entry.name@)),
            None => Err(ExceptionView::ClassNotFound(entry.class_idx)),
        }
    } else {
        Err(ExceptionView::ClassNotFound(0))
    }
}

/// Whether the machine is to stop where this field is set.
pub open spec fn stops_at_field(break_points: Seq<Breakpoint>, field: u16) -> bool {
    exists|i: int| 0 <= i < break_points.len() && #[trigger] break_points[i] == Breakpoint::FieldSet(field)
}

/// Whether a value is an array or a string.
pub open spec fn is_watched(value: ValueView) -> bool {
    match value {
        ValueView::Array(_) => true,
        ValueView::Object(instance) => instance.is_string(),
        _ => false,
    }
}

/// Makes a static field refer to the object of a register.
pub open spec fn static_put(vm: VMView, dex: DexFile, src: u8, field: u16) -> Effect {
    match field_name(dex, field) {
        Err(exception) => Effect::Fault(vm, exception),
        Ok(name) => match vm.register(src as int) {
            Some(RegisterView::Reference(_, address)) => match vm.value(address) {
                None => Effect::Stuck,
                Some(value) => if !vm.skip_next_breakpoint && stops_at_field(vm.break_points, field) && is_watched(value) {
                    Effect::Fault(
                        vm,
                        ExceptionView::Breakpoint(
                            vm.current.pc,
                            vm.current.method,
                            BreakpointContext::FieldSet(src as u16, field),
                        ),
                    )
                } else {
                    let slot = if vm.instances.contains_key(name) {
                        StaticSlot { node: vm.instances[name].node, address }
                    } else {
                        new_slot(address)
                    };
                    Effect::Next(VMView { skip_next_breakpoint: false, ..vm.with_static(name, slot) })
                },
            },
            _ => Effect::Fault(vm, ExceptionView::RegisterNotFound(src as usize)),
        },
    }
}

/// Reads an integer field. A field that was never set reads as 0.
pub open spec fn instance_get(vm: VMView, dex: DexFile, dst: usize, object: usize, field: u16) -> Effect {
    match field_name(dex, field) {
        Err(exception) => Effect::Fault(vm, exception),
        Ok(name) => match vm.referred(object as int) {
            Some(ValueView::Object(instance)) => if instance.instances.contains_key(name) {
                match vm.value(instance.instances[name]) {
                    None => Effect::Fault(vm, ExceptionView::StaticDataNotFound(field as u32)),
                    Some(ValueView::Int(n)) => put(vm, dst, RegisterView::Literal(n)),
                    Some(_) => Effect::Next(vm),
                }
            } else {
                put(vm, dst, RegisterView::Literal(0))
            },
            _ => Effect::Next(vm),
        },
    }
}

/// Reads a field that refers to an object. The register gets the class of the
/// object that has the field as its type.
pub open spec fn instance_get_object(vm: VMView, dex: DexFile, dst: usize, object: usize, field: u16) -> Effect {
    match field_name(dex, field) {
        Err(exception) => Effect::Fault(vm, exception),
        Ok(name) => match vm.referred(object as int) {
            Some(ValueView::Object(instance)) => if instance.instances.contains_key(name) {
                put(vm, dst, RegisterView::Reference(instance.class.class_name@, instance.instances[name]))
            } else {
                Effect::Next(vm)
            },
            _ => Effect::Next(vm),
        },
    }
}

/// An instance with one field at another heap address.
pub open spec fn with_field(instance: InstanceView, name: Seq<char>, address: u32) -> InstanceView {
    InstanceView { instances: instance.instances.insert(name, address), ..instance }
}

/// Whether an integer is about to be stored in a field that was never set.
pub open spec fn needs_cell(vm: VMView, dex: DexFile, src: usize, object: usize, field: u16) -> bool {
    match (field_name(dex, field), vm.register(src as int), vm.referred(object as int)) {
        (Ok(name), Some(RegisterView::Literal(_)), Some(ValueView::Object(instance))) => !instance.instances.contains_key(name),
        _ => false,
    }
}

/// Sets an integer field. One that was never set gets a heap address.
pub open spec fn instance_put(vm: VMView, dex: DexFile, src: usize, object: usize, field: u16, address: Option<u32>) -> Effect {
    match field_name(dex, field) {
        Err(exception) => Effect::Fault(vm, exception),
        Ok(name) => match (vm.register(src as int), vm.register(object as int)) {
            (Some(RegisterView::Literal(n)), Some(RegisterView::Reference(_, owner))) => match vm.value(owner) {
                Some(ValueView::Object(instance)) => if instance.instances.contains_key(name) {
                    let cell = instance.instances[name];
                    if vm.heap.contains_key(cell) {
                        Effect::Next(vm.store(cell, ValueView::Int(n)))
                    } else {
                        Effect::Next(vm)
                    }
                } else {
                    match address {
                        Some(a) => Effect::Next(
                            vm.store(a, ValueView::Int(n)).store(owner, ValueView::Object(with_field(instance, name, a))),
                        ),
                        None => Effect::Next(vm),
                    }
                },
                _ => Effect::Next(vm),
            },
            _ => Effect::Next(vm),
        },
    }
}

/// Makes a field refer to the object of a register.
pub open spec fn instance_put_object(vm: VMView, dex: DexFile, src: usize, object: usize, field: u16) -> Effect {
    match field_name(dex, field) {
        Err(exception) => Effect::Fault(vm, exception),
        Ok(name) => match (vm.register(src as int), vm.register(object as int)) {
            (Some(RegisterView::Reference(_, address)), Some(RegisterView::Reference(_, owner))) => match vm.value(owner) {
                Some(ValueView::Object(instance)) => Effect::Next(
                    vm.store(owner, ValueView::Object(with_field(instance, name, address))),
                ),
                _ => Effect::Next(vm),
            },
            _ => Effect::Next(vm),
        },
    }
}

// ---------------------------------------------------------------------------
// Running
// ---------------------------------------------------------------------------

/// A machine in a run: its state and what the run keeps besides.
#[verifier::ext_equal]
pub struct MachineView {
    pub vm: VMView,
    /// The method that runs, and the place of the current instruction in it.
    pub code: Arc<CodeItem>,
    pub index: int,
    /// The dex file by which the method names things.
    pub dex: Arc<DexFile>,
    /// The method that was called last.
    pub method: u32,
    /// How many instructions the run has executed.
    pub steps: int,
}

/// A call that a builtin has to answer.
#[verifier::ext_equal]
pub struct CallView {
    pub dex: Arc<DexFile>,
    pub method: u32,
    pub arguments: Seq<RegisterView>,
    /// Whether the run ends where the builtin fails.
    pub required: bool,
    pub code: Arc<CodeItem>,
    pub size: u32,
    pub steps: int,
}

/// How far a run has come.
#[verifier::ext_equal]
pub enum Status {
    Running(MachineView),
    Done(VMView, Result<(), ExceptionView>),
    /// A builtin has to answer a call before the run goes on.
    Call(VMView, CallView),
    /// The code asked for something that has no defined result.
    Stuck,
}

/// The heap addresses that allocation gives during one instruction.
#[derive(Clone, Copy, Debug, PartialEq, Eq, Structural)]
pub struct Choice {
    pub first: Option<u32>,
    pub second: Option<u32>,
}

/// The addresses are not in use.
pub open spec fn is_allowed(vm: VMView, choice: Choice) -> bool {
    is_fresh(vm.heap, choice.first) && is_fresh(vm.heap, choice.second)
}

impl MachineView {
    /// The current instruction.
    pub open spec fn entry(self) -> (InstructionSize, InstructionOffset, Instruction) {
        self.code.insns@[self.index]
    }

    /// The run with another machine.
    pub open spec fn with_vm(self, vm: VMView) -> MachineView {
        MachineView { vm, ..self }
    }
}

/// Goes on at the program counter.
pub open spec fn fetch(m: MachineView) -> Status {
    match m.code.index_at(m.vm.current.pc) {
        Some(i) => Status::Running(MachineView { index: i, ..m }),
        None => Status::Done(
            m.vm,
            Err(ExceptionView::NoInstructionAtAddress(m.vm.current.method, m.vm.current.pc as usize)),
        ),
    }
}

/// Goes on behind an instruction of `size` bytes. While a static initializer is
/// about to have run, the instruction that needed it is executed again.
pub open spec fn settle(m: MachineView, size: u32) -> Status {
    let frame = m.vm.current;
    if frame.state == ExecutionState::Finished {
        Status::Done(m.vm, Ok(()))
    } else if frame.state == ExecutionState::RunningStaticInitializer {
        fetch(m)
    } else {
        fetch(
            m.with_vm(
                m.vm.with_frame(FrameView { last_size: size / 2, pc: frame.pc.wrapping_add(size / 2), ..frame }),
            ),
        )
    }
}

/// Goes on after an operation that branches nowhere.
pub open spec fn proceed(m: MachineView, effect: Effect) -> Status {
    match effect {
        Effect::Next(vm) => settle(m.with_vm(vm), m.entry().0.0),
        Effect::Fault(vm, exception) => Status::Done(vm, Err(exception)),
        Effect::Stuck => Status::Stuck,
    }
}

/// Branches by `offset` code units.
pub open spec fn branch(m: MachineView, offset: i32) -> Status {
    fetch(m.with_vm(m.vm.at(m.vm.current.pc.wrapping_add_signed(offset))))
}

/// Goes on behind the instruction, without recording its size.
pub open spec fn fall_through(m: MachineView) -> Status {
    fetch(m.with_vm(m.vm.at(m.vm.current.pc.wrapping_add(m.entry().0.0 / 2))))
}

/// Whether a comparison of two numbers holds.
pub open spec fn holds(test: TestFunction, a: int, b: int) -> bool {
    match test {
        TestFunction::Equal => a == b,
        TestFunction::NotEqual => a != b,
        TestFunction::LessThan => a < b,
        TestFunction::LessEqual => a <= b,
        TestFunction::GreaterThan => a > b,
        TestFunction::GreaterEqual => a >= b,
    }
}

/// Branches where two registers compare.
pub open spec fn test(m: MachineView, test: TestFunction, a: usize, b: usize, offset: i32) -> Status {
    match (m.vm.register(a as int), m.vm.register(b as int)) {
        (Some(left), Some(right)) => if left is Empty || right is Empty {
            Status::Done(m.vm, Err(ExceptionView::RegisterNotFound(0)))
        } else if holds(test, left.number(), right.number()) {
            branch(m, offset)
        } else {
            fall_through(m)
        },
        _ => Status::Done(m.vm, Err(ExceptionView::RegisterNotFound(0))),
    }
}

/// Branches where a register compares with 0.
pub open spec fn test_zero(m: MachineView, test: TestFunction, a: usize, offset: i32) -> Status {
    match m.vm.register(a as int) {
        Some(left) => if holds(test, left.number(), 0) {
            branch(m, offset)
        } else {
            fall_through(m)
        },
        None => Status::Done(m.vm, Err(ExceptionView::RegisterNotFound(a))),
    }
}

/// Branches by the table of a switch; without a case it goes on behind.
pub open spec fn switch(m: MachineView, register: usize, table: i32) -> Status {
    match m.vm.register(register as int) {
        Some(RegisterView::Literal(n)) => match instruction_at(*m.code, m.vm.current.pc.wrapping_add_signed(table)) {
            Some(Instruction::SwitchData(switch)) => if switch.targets@.contains_key(n) {
                branch(m, switch.targets@[n])
            } else {
                proceed(m, Effect::Next(m.vm))
            },
            _ => proceed(m, Effect::Next(m.vm)),
        },
        _ => Status::Done(m.vm, Err(ExceptionView::RegisterNotFound(register))),
    }
}

/// The run goes on in the frame that was saved last, behind its call.
pub open spec fn go_back(m: MachineView, vm: VMView) -> Status {
    let back = MachineView { vm, code: vm.current.code, dex: vm.current.dex, ..m };
    match vm.current.code.index_at(vm.current.pc) {
        Some(i) => settle(MachineView { index: i, ..back }, vm.current.code.insns@[i].0.0),
        None => Status::Done(
            vm,
            Err(ExceptionView::NoInstructionAtAddress(vm.current.method, vm.current.pc as usize)),
        ),
    }
}

/// Returns without a value.
pub open spec fn return_void(m: MachineView) -> Status {
    if m.vm.frames.len() > 0 {
        go_back(m, VMView { current: m.vm.frames.last(), frames: m.vm.frames.drop_last(), ..m.vm })
    } else {
        Status::Done(m.vm.in_state(ExecutionState::Finished), Ok(()))
    }
}

/// Whether a register refers to an array or a string by its type.
pub open spec fn has_watched_type(register: Option<RegisterView>) -> bool {
    match register {
        Some(RegisterView::Reference(ty, _)) => ty == byte_array() || ty == char_array() || ty == StringClass::name(),
        _ => false,
    }
}

/// Returns a value. The machine stops before that where it watches for the
/// return of arrays or strings; a request to pass over one stop is used up.
pub open spec fn return_value(m: MachineView, register: u8) -> Status {
    let value = m.vm.register(register as int);
    if !m.vm.skip_next_breakpoint && (m.vm.stop_on_array_return || m.vm.stop_on_string_return) && has_watched_type(value) {
        Status::Done(
            m.vm,
            Err(
                ExceptionView::Breakpoint(
                    m.vm.current.pc,
                    m.vm.current.method,
                    BreakpointContext::ResultObjectRegister(register as u16),
                ),
            ),
        )
    } else {
        let result = match value {
            Some(v) => v,
            None => m.vm.current.result,
        };
        let vm = VMView {
            skip_next_breakpoint: false,
            ..m.vm.with_frame(FrameView { result, ..m.vm.current })
        };
        if vm.frames.len() > 0 {
            let caller = FrameView { result, ..vm.frames.last() };
            if caller.code.index_at(caller.pc) is Some {
                go_back(m, VMView { current: caller, frames: vm.frames.drop_last(), ..vm })
            } else {
                Status::Stuck
            }
        } else {
            Status::Done(vm.in_state(ExecutionState::Finished), Ok(()))
        }
    }
}

/// The arguments of a call, as far as they were read.
#[verifier::ext_equal]
pub enum Passing {
    Passed(VMView, Seq<RegisterView>),
    Fault(VMView, ExceptionView),
}

/// Where an argument of a call makes the machine stop.
pub open spec fn stop_at_argument(vm: VMView, argument: RegisterView, register: u8, method: u16, lenient: bool) -> Option<BreakpointContext> {
    match argument {
        RegisterView::Reference(_, address) => match vm.value(address) {
            Some(ValueView::Array(_)) => if vm.stop_on_array_use {
                Some(BreakpointContext::ArrayReg(register as u16, method))
            } else {
                None
            },
            Some(ValueView::Object(instance)) => if instance.is_string() && (lenient || vm.stop_on_string_use) {
                Some(BreakpointContext::StringReg(register as u16, method))
            } else {
                None
            },
            _ => None,
        },
        _ => None,
    }
}

/// Reads the arguments of a call from number `i` on. In a running method the
/// machine stops at an array or a string that it watches for, at none before
/// the one at which it stopped last; a request to pass over one stop is used up
/// by the first argument that is looked at. `lenient` calls stop at strings
/// also where only arrays are watched. `site` is the method that is reported.
pub open spec fn pass_arguments(vm: VMView, passed: Seq<RegisterView>, registers: Seq<u8>, i: int, method: u16, site: u32, lenient: bool) -> Passing
    decreases registers.len() - i,
{
    if i < 0 || i >= registers.len() {
        Passing::Passed(vm, passed)
    } else {
        match vm.register(registers[i] as int) {
            None => Passing::Fault(vm, ExceptionView::RegisterNotFound(registers[i] as usize)),
            Some(argument) => if (vm.stop_on_array_use || vm.stop_on_string_use) && vm.current.state == ExecutionState::Running
                && (i as u32) >= vm.current.break_register {
                if vm.skip_next_breakpoint {
                    pass_arguments(
                        VMView { skip_next_breakpoint: false, ..vm },
                        passed.push(argument),
                        registers,
                        i + 1,
                        method,
                        site,
                        lenient,
                    )
                } else {
                    match stop_at_argument(vm, argument, registers[i], method, lenient) {
                        Some(context) => Passing::Fault(
                            vm.with_frame(
                                FrameView { state: ExecutionState::Paused, break_register: i as u32, ..vm.current },
                            ),
                            ExceptionView::Breakpoint(vm.current.pc, site, context),
                        ),
                        None => pass_arguments(vm, passed.push(argument), registers, i + 1, method, site, lenient),
                    }
                }
            } else {
                pass_arguments(vm, passed.push(argument), registers, i + 1, method, site, lenient)
            },
        }
    }
}

/// Holds of the dex files that define this method.
pub open spec fn has_method(class: Seq<char>, name: Seq<char>, proto: Seq<char>) -> spec_fn(Arc<DexFile>) -> bool {
    |dex: Arc<DexFile>| dex.method_declared_as(class, name, proto) is Some
}

/// The method of a class with this name and prototype, from the runtime.
pub open spec fn find_declared(runtime: Seq<Arc<DexFile>>, class: Seq<char>, name: Seq<char>, proto: Seq<char>) -> Result<(Arc<DexFile>, MethodData), ExceptionView> {
    match search::first(runtime, has_method(class, name, proto)) {
        Some(file) => Ok((file, file.method_declared_as(class, name, proto)->0)),
        None => Err(ExceptionView::LinkerError),
    }
}

/// The method that a dex file numbers `method`: from that file, else by its
/// class, name and prototype from the runtime.
pub open spec fn find_method(runtime: Seq<Arc<DexFile>>, dex: Arc<DexFile>, method: u32) -> Result<(Arc<DexFile>, MethodData), ExceptionView> {
    match dex.method_at(method) {
        Some(found) => Ok((dex, found)),
        None => if method >= dex.methods@.len() {
            Err(ExceptionView::MethodNotFound("Method Index: "@ + text::decimal_digits(method as nat)))
        } else {
            let entry = dex.methods@[method as int];
            if entry.proto_idx >= dex.protos@.len() {
                Err(
                    ExceptionView::MethodNotFound(
                        "Method Index: "@ + text::decimal_digits(method as nat) + ", Proto Index: "@ + text::decimal_digits(
                            entry.proto_idx as nat,
                        ),
                    ),
                )
            } else {
                match dex.type_name_at(entry.class_idx as int) {
                    None => Err(ExceptionView::ClassNotFound(entry.class_idx)),
                    Some(class) => find_declared(
                        runtime,
                        class,
                        entry.method_name@,
                        dex.protos@[entry.proto_idx as int].descriptor@,
                    ),
                }
            }
        },
    }
}

/// Enters a method: its frame gets the registers, and it starts at address 0.
pub open spec fn enter(m: MachineView, dex: Arc<DexFile>, code: Arc<CodeItem>, registers: Seq<RegisterView>) -> Status {
    let frame = FrameView {
        dex,
        pc: 0,
        result: RegisterView::Empty,
        num_params: code.ins_size as usize,
        num_registers: code.register_size as usize,
        registers,
        code,
        ..m.vm.current
    };
    fetch(MachineView { vm: m.vm.with_frame(frame), dex, code, ..m })
}

/// `n` empty registers.
pub open spec fn empty_registers(n: int) -> Seq<RegisterView> {
    Seq::new(n as nat, |i: int| RegisterView::Empty)
}

/// The registers of a method that is called on an object: its parameters are
/// the last ones, as far as there are arguments.
pub open spec fn padded_registers(code: CodeItem, arguments: Seq<RegisterView>) -> Seq<RegisterView> {
    empty_registers(code.register_size - code.ins_size) + Seq::new(
        code.ins_size as nat,
        |i: int| if i < arguments.len() { arguments[i] } else { RegisterView::Empty },
    )
}

/// The registers of a static method: its arguments come last.
pub open spec fn static_registers(code: CodeItem, arguments: Seq<RegisterView>) -> Seq<RegisterView> {
    empty_registers(code.register_size - code.ins_size) + arguments
}

/// The machine with the running frame saved, about to run another method.
pub open spec fn saved(vm: VMView, method: u16) -> VMView {
    let frame = FrameView { break_register: 0, ..vm.current };
    VMView { frames: vm.frames.push(frame), current: FrameView { method: method as u32, ..frame }, ..vm }
}

/// Calls a method. `count` is the number of arguments that a static call
/// announces; a call on an object announces none.
pub open spec fn call(m: MachineView, vm: VMView, method: u16, count: Option<u8>, arguments: Seq<RegisterView>) -> Status {
    let called = saved(vm, method);
    match find_method(vm.runtime, m.dex, method as u32) {
        Ok((file, found)) => match found.code {
            None => Status::Done(called, Err(ExceptionView::MethodNotFound(found.name@))),
            Some(code) => if count is Some && code.ins_size != count->0 as u16 {
                Status::Done(called, Err(ExceptionView::WrongNumberOfArguments))
            } else if code.register_size < code.ins_size {
                Status::Stuck
            } else {
                enter(
                    MachineView { vm: called, method: method as u32, ..m },
                    file,
                    code,
                    if count is Some {
                        static_registers(*code, arguments)
                    } else {
                        padded_registers(*code, arguments)
                    },
                )
            },
        },
        Err(_) => Status::Call(
            called,
            CallView {
                dex: m.dex,
                method: method as u32,
                arguments,
                required: count is None,
                code: m.code,
                size: m.entry().0.0,
                steps: m.steps,
            },
        ),
    }
}

/// Reads the arguments of a call and calls.
pub open spec fn invoke(m: MachineView, method: u16, count: Option<u8>, registers: Seq<u8>) -> Status {
    if m.vm.frames.len() > MAX_DEPTH {
        Status::Done(m.vm, Err(ExceptionView::StackOverflow))
    } else {
        let site = if count is Some {
            m.method
        } else {
            m.vm.current.method
        };
        match pass_arguments(m.vm, Seq::empty(), registers, 0, method, site, count is None) {
            Passing::Fault(vm, exception) => Status::Done(vm, Err(exception)),
            Passing::Passed(vm, arguments) => call(m, vm, method, count, arguments),
        }
    }
}

/// The run after a builtin has answered a call. Where it failed, a call on an
/// object ends the run and a static call goes on.
pub open spec fn answered(vm: VMView, call: CallView, answer: Result<(), ExceptionView>) -> Status {
    if call.required && answer is Err {
        Status::Done(vm, Err(answer->Err_0))
    } else {
        let back = if vm.frames.len() > 0 {
            VMView {
                frames: vm.frames.drop_last(),
                current: FrameView { method: vm.frames.last().method, ..vm.current },
                ..vm
            }
        } else {
            vm
        };
        let method = if vm.frames.len() > 0 {
            vm.frames.last().method
        } else {
            call.method
        };
        settle(
            MachineView { vm: back, code: call.code, index: 0, dex: call.dex, method, steps: call.steps },
            call.size,
        )
    }
}

/// The text that a static field starts with.
pub open spec fn initial_text(file: DexFile, class: Class, field: u16) -> Option<Seq<char>> {
    match class.static_value(field as u32) {
        Some(item) => if item.value_type == ValueType::String {
            file.string_at(item.index as int)
        } else {
            None
        },
        None => None,
    }
}

/// The machine with the string that a static field starts with.
pub open spec fn preset(vm: VMView, name: Seq<char>, class: Class, field: u16, address: Option<u32>) -> VMView {
    match (initial_text(*vm.dex_file, class, field), address) {
        (Some(text), Some(a)) => vm.store(a, ValueView::Object(StringClass::object(vm.builtins, text))).with_static(
            name,
            new_slot(a),
        ),
        _ => vm,
    }
}

/// The static initializer of a class.
pub open spec fn initializer(class: Class) -> Option<MethodData> {
    search::first(class.codes@, models::method_called("<clinit>"@))
}

/// Runs a static initializer; the instruction that needed it is executed again
/// when it has returned.
pub open spec fn initialize(m: MachineView, method: MethodData) -> Status {
    match method.code {
        None => Status::Stuck,
        Some(code) => {
            let waiting = FrameView { state: ExecutionState::RunningStaticInitializer, ..m.vm.current };
            let frame = FrameView {
                pc: 0,
                num_params: 0,
                state: ExecutionState::StaticInitializer,
                num_registers: code.register_size as usize,
                registers: empty_registers(code.register_size as int),
                last_size: 0,
                method: method.method.method_idx as u32,
                code,
                ..waiting
            };
            let vm = VMView { frames: m.vm.frames.push(waiting), current: frame, ..m.vm };
            fetch(MachineView { vm, code, dex: frame.dex, method: frame.method, ..m })
        },
    }
}

/// The machine with the instance that the platform hands out for a field that
/// nothing was stored in.
pub open spec fn with_ambient(vm: VMView, name: Seq<char>, ty: Option<Seq<char>>, address: Option<u32>) -> VMView {
    match (ty, address) {
        (Some(t), Some(a)) => if !vm.instances.contains_key(name) && runtime::is_ambient(t) {
            vm.store(a, ValueView::Object(InstanceView::plain(vm.builtins[t], Map::empty()))).with_static(
                name,
                new_slot(a),
            )
        } else {
            vm
        },
        _ => vm,
    }
}

/// Reads a static field that refers to an object.
pub open spec fn read_static(vm: VMView, dst: usize, name: Seq<char>, field: u16) -> Effect {
    if vm.instances.contains_key(name) {
        let address = vm.instances[name].address;
        match vm.value(address) {
            Some(ValueView::Object(instance)) => put(
                vm,
                dst,
                RegisterView::Reference(instance.class.class_name@, address),
            ),
            Some(ValueView::Array(_)) => put(vm, dst, RegisterView::Reference(byte_array(), address)),
            _ => Effect::Fault(vm, ExceptionView::InvalidMemoryAddress(address)),
        }
    } else {
        Effect::Fault(vm, ExceptionView::StaticDataNotFound(field as u32))
    }
}

/// Reads a static field whose initializer has run, or that needs none.
pub open spec fn finish_static_get(m: MachineView, dst: usize, name: Seq<char>, ty: Option<Seq<char>>, field: u16, address: Option<u32>) -> Status {
    let vm = with_ambient(m.vm, name, ty, address);
    let running = if vm.current.state == ExecutionState::RunningStaticInitializer {
        vm.in_state(ExecutionState::Running)
    } else {
        vm
    };
    proceed(m, read_static(running, dst, name, field))
}

/// Reads a static field. One that nothing was stored in gets its initial text,
/// and its class is initialized first.
pub open spec fn static_get(m: MachineView, dst: usize, field: u16, choice: Choice) -> Status {
    if field >= m.dex.fields@.len() {
        Status::Done(m.vm, Err(ExceptionView::ClassNotFound(0)))
    } else {
        let entry = m.dex.fields@[field as int];
        match m.dex.type_name_at(entry.class_idx as int) {
            None => Status::Done(m.vm, Err(ExceptionView::ClassNotFound(entry.class_idx))),
            Some(class_name) => {
                let name = text::qualified(class_name, entry.name@);
                let ty = m.dex.type_name_at(entry.type_idx as int);
                if m.vm.instances.contains_key(name) || m.vm.current.state == ExecutionState::RunningStaticInitializer {
                    finish_static_get(m, dst, name, ty, field, choice.second)
                } else {
                    match search::first(m.vm.dex_file.classes@, models::class_of_type(entry.class_idx as u32)) {
                        None => finish_static_get(m, dst, name, ty, field, choice.second),
                        Some(class) => {
                            let ready = m.with_vm(preset(m.vm, name, *class, field, choice.first));
                            match initializer(*class) {
                                Some(method) => initialize(ready, method),
                                None => finish_static_get(ready, dst, name, ty, field, choice.second),
                            }
                        },
                    }
                }
            },
        }
    }
}

/// The effect of an operation that goes on with the instruction behind it.
#[verifier::opaque]
pub open spec fn applied(vm: VMView, code: CodeItem, dex: DexFile, operation: Operation, choice: Choice) -> Effect {
    match operation {
        Operation::Move { dst, src } => move_register(vm, dst, src),
        Operation::MoveResult { dst } => move_result(vm, dst),
        Operation::Arithmetic { op, dst, a, b } => arithmetic(vm, op, dst, a, b),
        Operation::ArithmeticLiteral { op, dst, a, literal } => arithmetic_literal(vm, op, dst, a, literal),
        Operation::Truncate { dst, src } => truncate(vm, dst, src),
        Operation::Literal { dst, value } => put(vm, dst, RegisterView::Literal(value)),
        Operation::ConstString { dst, string } => const_string(vm, dst, string, choice.first),
        Operation::ArrayLength { dst, array } => array_length(vm, dst, array),
        Operation::ArrayGet { dst, array, index } => array_get(vm, dst, array, index),
        Operation::ArrayPut { src, array, index } => array_put(vm, src, array, index),
        Operation::NewInstance { dst, class } => new_object(vm, dex, dst, class, choice.first),
        Operation::NewArray { dst, size, class } => new_array(vm, dst, size, class, choice.first),
        Operation::FilledNewArray { data } => filled_new_array(vm, data@, choice.first),
        Operation::FillArrayData { array, table } => fill_array(vm, code, array, table),
        Operation::StaticPutObject { src, field } => static_put(vm, dex, src, field),
        Operation::InstanceGet { dst, object, field } => instance_get(vm, dex, dst, object, field),
        Operation::InstanceGetObject { dst, object, field } => instance_get_object(vm, dex, dst, object, field),
        Operation::InstancePut { src, object, field } => instance_put(vm, dex, src, object, field, choice.first),
        Operation::InstancePutObject { src, object, field } => instance_put_object(vm, dex, src, object, field),
        _ => Effect::Next(vm),
    }
}

/// Executes an operation.
#[verifier::opaque]
pub open spec fn perform(m: MachineView, operation: Operation, choice: Choice) -> Status {
    match operation {
        Operation::Test { test, a, b, offset } => self::test(m, test, a, b, offset),
        Operation::TestZero { test, a, offset } => test_zero(m, test, a, offset),
        Operation::Goto { offset } => branch(m, offset),
        Operation::Switch { register, table } => switch(m, register, table),
        Operation::Invoke { method, arguments } => invoke(m, method, None, arguments@),
        Operation::InvokeStatic { count, method, arguments } => invoke(m, method, Some(count), arguments@),
        Operation::ReturnVoid => return_void(m),
        Operation::Return { register } => return_value(m, register),
        Operation::StaticGetObject { dst, field } => static_get(m, dst, field, choice),
        _ => proceed(m, applied(m.vm, *m.code, *m.dex, operation, choice)),
    }
}

/// Whether reading a static field makes the string that the field starts with.
pub open spec fn needs_text(vm: VMView, dex: DexFile, field: u16) -> bool {
    field < dex.fields@.len() && {
        let entry = dex.fields@[field as int];
        match (
            dex.type_name_at(entry.class_idx as int),
            search::first(vm.dex_file.classes@, models::class_of_type(entry.class_idx as u32)),
        ) {
            (Some(class_name), Some(class)) => {
                &&& !vm.instances.contains_key(text::qualified(class_name, entry.name@))
                &&& vm.current.state != ExecutionState::RunningStaticInitializer
                &&& initial_text(*vm.dex_file, *class, field) is Some
            },
            _ => false,
        }
    }
}

/// Whether reading a static field makes the instance that the platform hands
/// out: where the field has that type, nothing was stored in it, no string was
/// made at `first`, and no initializer is about to run.
pub open spec fn needs_ambient(vm: VMView, dex: DexFile, field: u16, first: Option<u32>) -> bool {
    field < dex.fields@.len() && {
        let entry = dex.fields@[field as int];
        match (dex.type_name_at(entry.class_idx as int), dex.type_name_at(entry.type_idx as int)) {
            (Some(class_name), Some(ty)) => {
                &&& !vm.instances.contains_key(text::qualified(class_name, entry.name@))
                &&& runtime::is_ambient(ty)
                &&& vm.current.state == ExecutionState::RunningStaticInitializer || match search::first(
                    vm.dex_file.classes@,
                    models::class_of_type(entry.class_idx as u32),
                ) {
                    Some(class) => first is None && initializer(*class) is None,
                    None => true,
                }
            },
            _ => false,
        }
    }
}

/// Whether an operation makes an object, or the first of two.
pub open spec fn needs_first(vm: VMView, dex: DexFile, operation: Operation) -> bool {
    match operation {
        Operation::ConstString { string, .. } => vm.current.dex.string_at(string as int) is Some,
        Operation::NewInstance { class, .. } => find_class(vm, dex, class as u32) is Ok,
        Operation::NewArray { size, .. } => vm.register(size as int) matches Some(RegisterView::Literal(n)) && 0 <= n <= MAX_SIZE,
        Operation::FilledNewArray { .. } => true,
        Operation::InstancePut { src, object, field } => needs_cell(vm, dex, src, object, field),
        Operation::StaticGetObject { field, .. } => needs_text(vm, dex, field),
        _ => false,
    }
}

/// Whether an operation makes an object besides what stands at `first`.
pub open spec fn needs_second(vm: VMView, dex: DexFile, operation: Operation, first: Option<u32>) -> bool {
    match operation {
        Operation::StaticGetObject { field, .. } => needs_ambient(vm, dex, field, first),
        _ => false,
    }
}

/// The run about to execute its current instruction.
pub open spec fn begun(m: MachineView) -> MachineView {
    MachineView {
        steps: m.steps + 1,
        vm: m.vm.with_frame(FrameView { size: m.entry().0.0 / 2, ..m.vm.current }),
        ..m
    }
}

/// Executes the current instruction.
pub open spec fn step(m: MachineView, choice: Choice) -> Status {
    if m.steps >= MAX_STEPS {
        Status::Done(m.vm, Err(ExceptionView::StackOverflow))
    } else {
        perform(begun(m), m.entry().2.operation(), choice)
    }
}

/// The run after as many instructions as there are choices, or where it ended.
pub open spec fn run(start: Status, choices: Seq<Choice>) -> Status
    decreases choices.len(),
{
    if choices.len() == 0 {
        start
    } else {
        match run(start, choices.drop_last()) {
            Status::Running(m) => step(m, choices.last()),
            ended => ended,
        }
    }
}

/// The addresses that allocation gives for the current instruction: one for each
/// object that it makes, none where the run is cut off before it.
pub open spec fn is_drawn(m: MachineView, choice: Choice) -> bool {
    let operation = m.entry().2.operation();
    let goes_on = m.steps < MAX_STEPS;
    &&& machine::drawn(m.vm, goes_on && needs_first(m.vm, *m.dex, operation), choice.first)
    &&& machine::drawn(m.vm, goes_on && needs_second(m.vm, *m.dex, operation, choice.first), choice.second)
}

/// Each choice is drawn for the instruction that it is made for.
pub open spec fn are_drawn(start: Status, choices: Seq<Choice>) -> bool
    decreases choices.len(),
{
    choices.len() > 0 ==> {
        &&& are_drawn(start, choices.drop_last())
        &&& run(start, choices.drop_last()) matches Status::Running(m) ==> is_drawn(m, choices.last())
    }
}

/// A run that begins at an address of the running method. The program counter
/// stays where it is.
pub open spec fn begin(vm: VMView, address: u32) -> Status {
    match vm.current.code.index_at(address) {
        None => Status::Done(vm, Err(ExceptionView::NoInstructionAtAddress(vm.current.method, address as usize))),
        Some(i) => Status::Running(
            MachineView {
                vm: vm.with_frame(FrameView { state: ExecutionState::Running, last_size: 0, ..vm.current }),
                code: vm.current.code,
                index: i,
                dex: vm.current.dex,
                method: vm.current.method,
                steps: 0,
            },
        ),
    }
}

/// Holds of the dex files with this identifier.
pub open spec fn identified(identifier: Seq<char>) -> spec_fn(Arc<DexFile>) -> bool {
    |dex: Arc<DexFile>| dex.identifier@ == identifier
}

/// The dex file with this identifier: the main one, else one of the runtime.
pub open spec fn find_file(vm: VMView, identifier: Seq<char>) -> Option<Arc<DexFile>> {
    if vm.dex_file.identifier@ == identifier {
        Some(vm.dex_file)
    } else {
        search::first(vm.runtime, identified(identifier))
    }
}

/// The machine about to run a method, with nothing on its stack.
pub open spec fn cleared(vm: VMView, method: u32, code: CodeItem) -> VMView {
    VMView {
        frames: Seq::empty(),
        current: FrameView {
            pc: 0,
            result: RegisterView::Empty,
            registers: Seq::empty(),
            num_params: code.ins_size as usize,
            num_registers: code.register_size as usize,
            method,
            ..vm.current
        },
        ..vm
    }
}

/// A run of a method from its first instruction.
pub open spec fn opening(vm: VMView, method: u32, identifier: Seq<char>, code: Arc<CodeItem>, arguments: Seq<RegisterView>) -> Status {
    let empty = cleared(vm, method, *code);
    match find_file(vm, identifier) {
        None => Status::Done(empty, Err(ExceptionView::LinkerError)),
        Some(dex) => {
            let linked = empty.with_frame(FrameView { dex, ..empty.current });
            if arguments.len() != code.ins_size {
                Status::Done(linked, Err(ExceptionView::WrongNumberOfArguments))
            } else {
                begin(
                    linked.with_frame(
                        FrameView { registers: static_registers(*code, arguments), code, ..linked.current },
                    ),
                    0,
                )
            }
        },
    }
}

/// A run that goes on at an address, passing over the next stop.
pub open spec fn continuing(vm: VMView, address: u32) -> Status {
    begin(VMView { skip_next_breakpoint: true, ..vm }, address)
}

} // verus!
