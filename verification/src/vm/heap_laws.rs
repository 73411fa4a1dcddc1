//! What instructions on arrays, objects and strings are for: what they read from
//! the heap, what they store in it and what they leave as it was.

use vstd::prelude::*;
use crate::instruction::Instruction;
use crate::vm::exception::ExceptionView;
use crate::vm::operation::Operation;
use crate::vm::register::RegisterView;
use crate::vm::semantics;
use crate::vm::semantics::{Choice, MachineView, Status};
use crate::vm::state::{FrameView, VMView};
use crate::vm::step_laws;
use crate::vm::value::{InstanceView, InternalView, ValueView};

verus! {

/// The machine with a value stored at a heap address.
pub open spec fn storing(vm: VMView, address: u32, value: ValueView) -> VMView {
    VMView { heap: vm.heap.insert(address, value), ..vm }
}

/// The register refers to the heap address.
pub open spec fn refers(vm: VMView, register: u8, address: u32) -> bool {
    &&& register < vm.current.registers.len()
    &&& match vm.current.registers[register as int] {
        RegisterView::Reference(_, a) => a == address,
        _ => false,
    }
}

/// The register refers to no heap address, or is missing.
pub open spec fn refers_nowhere(vm: VMView, register: u8) -> bool {
    register < vm.current.registers.len() ==> !(vm.current.registers[register as int] is Reference)
}

/// The register holds an integer.
pub open spec fn holds(vm: VMView, register: u8, n: i32) -> bool {
    &&& register < vm.current.registers.len()
    &&& vm.current.registers[register as int] == RegisterView::Literal(n)
}

/// The register holds no integer, or is missing.
pub open spec fn holds_none(vm: VMView, register: u8) -> bool {
    register < vm.current.registers.len() ==> !(vm.current.registers[register as int] is Literal)
}

/// An array stands at the heap address.
pub open spec fn is_array_at(vm: VMView, address: u32, data: Seq<u8>) -> bool {
    vm.heap.contains_key(address) && vm.heap[address] == ValueView::Array(data)
}

/// No array stands at the heap address.
pub open spec fn no_array_at(vm: VMView, address: u32) -> bool {
    vm.heap.contains_key(address) ==> !(vm.heap[address] is Array)
}

/// An object stands at the heap address.
pub open spec fn is_object_at(vm: VMView, address: u32, instance: InstanceView) -> bool {
    vm.heap.contains_key(address) && vm.heap[address] == ValueView::Object(instance)
}

/// No object stands at the heap address.
pub open spec fn no_object_at(vm: VMView, address: u32) -> bool {
    vm.heap.contains_key(address) ==> !(vm.heap[address] is Object)
}

/// The run goes on with a register set in the machine that the instruction has
/// made, or reports that the register is missing.
pub open spec fn sets(m: MachineView, after: Status, vm: VMView, dst: u8, register: RegisterView) -> bool {
    if dst < vm.current.registers.len() {
        step_laws::goes_behind(m, after, step_laws::setting(vm, dst as int, register))
    } else {
        after == Status::Done(
            VMView { current: FrameView { size: step_laws::units(m), ..vm.current }, ..vm },
            Err::<(), ExceptionView>(ExceptionView::RegisterNotFound(dst as usize)),
        )
    }
}

/// The machine that an instruction leaves.
pub open spec fn machine_after(after: Status) -> VMView {
    match after {
        Status::Running(n) => n.vm,
        Status::Done(vm, _) => vm,
        Status::Call(vm, _) => vm,
        Status::Stuck => arbitrary(),
    }
}

// ---------------------------------------------------------------------------
// Arrays
// ---------------------------------------------------------------------------

/// The length of an array is read into a register.
pub proof fn law_array_length(m: MachineView, choice: Choice, dst: u8, array: u8, address: u32, data: Seq<u8>)
    requires
        step_laws::is_ready(m),
        step_laws::insn(m) == Instruction::ArrayLength(dst, array),
    ensures
        ({
            let after = semantics::step(m, choice);
            &&& refers_nowhere(m.vm, array) ==> step_laws::fails(m, after, ExceptionView::InvalidRegisterType)
            &&& refers(m.vm, array, address) && no_array_at(m.vm, address) ==> step_laws::goes_behind(m, after, m.vm)
            &&& refers(m.vm, array, address) && is_array_at(m.vm, address, data) ==> sets(
                m,
                after,
                m.vm,
                dst,
                RegisterView::Literal(data.len() as i32),
            )
        }),
{
    assert(step_laws::insn(m).operation() == (Operation::ArrayLength { dst: dst as usize, array: array as usize }));
    step_laws::lemma_effect(m, choice);
    reveal(semantics::applied);
}

/// An item of an array is read into a register. An index outside the array is
/// refused.
pub proof fn law_array_item_read(m: MachineView, choice: Choice, dst: u8, array: u8, index: u8, address: u32, data: Seq<u8>, i: i32)
    requires
        step_laws::is_ready(m),
        step_laws::insn(m) == Instruction::ArrayGetByte(dst, array, index) || step_laws::insn(m) == Instruction::ArrayGetChar(
            dst,
            array,
            index,
        ),
    ensures
        ({
            let after = semantics::step(m, choice);
            &&& refers_nowhere(m.vm, array) ==> step_laws::goes_behind(m, after, m.vm)
            &&& refers(m.vm, array, address) && no_array_at(m.vm, address) ==> step_laws::fails(
                m,
                after,
                ExceptionView::InstanceNotFound(address),
            )
            &&& refers(m.vm, array, address) && is_array_at(m.vm, address, data) && holds_none(m.vm, index)
                ==> step_laws::goes_behind(m, after, m.vm)
            &&& refers(m.vm, array, address) && is_array_at(m.vm, address, data) && holds(m.vm, index, i) ==> (if 0 <= i
                < data.len() {
                sets(m, after, m.vm, dst, RegisterView::Literal(data[i as int] as i32))
            } else {
                step_laws::fails(m, after, ExceptionView::IndexOutOfBounds)
            })
        }),
{
    assert(step_laws::insn(m).operation() == (Operation::ArrayGet {
        dst: dst as usize,
        array: array as usize,
        index: index as usize,
    }));
    step_laws::lemma_effect(m, choice);
    reveal(semantics::applied);
}

/// The instruction stores an item of an array.
pub open spec fn is_array_put(insn: Instruction, src: u8, array: u8, index: u8) -> bool {
    insn == Instruction::ArrayPutByte(src, array, index) || insn == Instruction::ArrayPutChar(src, array, index)
}

/// An item of an array becomes the low byte of a register. An index outside the
/// array is refused, and without an integer nothing is stored.
pub proof fn law_array_item_stored(m: MachineView, choice: Choice, src: u8, array: u8, index: u8, address: u32, data: Seq<u8>, i: i32, n: i32)
    requires
        step_laws::is_ready(m),
        is_array_put(step_laws::insn(m), src, array, index),
    ensures
        ({
            let after = semantics::step(m, choice);
            let there = refers(m.vm, array, address) && is_array_at(m.vm, address, data) && holds(m.vm, index, i);
            &&& refers_nowhere(m.vm, array) ==> step_laws::fails(m, after, ExceptionView::RegisterNotFound(array as usize))
            &&& refers(m.vm, array, address) && holds_none(m.vm, index) ==> step_laws::goes_behind(m, after, m.vm)
            &&& refers(m.vm, array, address) && holds(m.vm, index, i) && no_array_at(m.vm, address) ==> step_laws::fails(
                m,
                after,
                ExceptionView::InstanceNotFound(address),
            )
            &&& there && !(0 <= i < data.len()) ==> step_laws::fails(m, after, ExceptionView::IndexOutOfBounds)
            &&& there && 0 <= i < data.len() && holds_none(m.vm, src) ==> step_laws::goes_behind(m, after, m.vm)
            &&& there && 0 <= i < data.len() && holds(m.vm, src, n) ==> step_laws::goes_behind(
                m,
                after,
                storing(m.vm, address, ValueView::Array(data.update(i as int, n as u8))),
            )
        }),
{
    assert(step_laws::insn(m).operation() == (Operation::ArrayPut {
        src: src as usize,
        array: array as usize,
        index: index as usize,
    }));
    step_laws::lemma_effect(m, choice);
    reveal(semantics::applied);
}

/// Storing an item of an array leaves its length and every other item as they
/// were, and every other value of the heap.
pub proof fn law_array_store_keeps_other_items(m: MachineView, choice: Choice, src: u8, array: u8, index: u8, address: u32, data: Seq<u8>, i: i32, n: i32)
    requires
        step_laws::is_ready(m),
        is_array_put(step_laws::insn(m), src, array, index),
        refers(m.vm, array, address),
        is_array_at(m.vm, address, data),
        holds(m.vm, index, i),
        0 <= i < data.len(),
        holds(m.vm, src, n),
    ensures
        ({
            let after = semantics::step(m, choice);
            let heap = machine_after(after).heap;
            &&& !(after is Stuck) && !(after is Call)
            &&& heap.contains_key(address)
            &&& heap[address] matches ValueView::Array(kept) && {
                &&& kept.len() == data.len()
                &&& kept[i as int] == n as u8
                &&& forall|k: int| 0 <= k < data.len() && k != i ==> #[trigger] kept[k] == data[k]
            }
            &&& heap.dom() == m.vm.heap.dom()
            &&& forall|a: u32| #[trigger] m.vm.heap.contains_key(a) && a != address ==> heap[a] == m.vm.heap[a]
        }),
{
    law_array_item_stored(m, choice, src, array, index, address, data, i, n);
    let after = semantics::step(m, choice);
    assert(machine_after(after).heap == m.vm.heap.insert(address, ValueView::Array(data.update(i as int, n as u8))));
    assert(machine_after(after).heap.dom() =~= m.vm.heap.dom());
}

/// What was stored in an array is read back: an item that is read after it was
/// stored is the byte that was stored, and one at another index is as before.
pub proof fn law_array_read_after_store(data: Seq<u8>, m: MachineView, n: MachineView, choice: Choice, next: Choice, src: u8, dst: u8, array: u8, index: u8, at: u8, address: u32, i: i32, j: i32, x: i32)
    requires
        step_laws::is_ready(m),
        is_array_put(step_laws::insn(m), src, array, index),
        refers(m.vm, array, address),
        is_array_at(m.vm, address, data),
        holds(m.vm, index, i),
        holds(m.vm, at, j),
        0 <= i < data.len(),
        0 <= j < data.len(),
        holds(m.vm, src, x),
        dst < m.vm.current.registers.len(),
        semantics::step(m, choice) == Status::Running(n),
        n.steps < 1000,
        step_laws::insn(n) == Instruction::ArrayGetByte(dst, array, at),
    ensures
        machine_after(semantics::step(n, next)).current.registers[dst as int] == RegisterView::Literal(
            if j == i {
                (x as u8) as i32
            } else {
                data[j as int] as i32
            },
        ),
{
    law_array_item_stored(m, choice, src, array, index, address, data, i, x);
    law_array_item_read(n, next, dst, array, at, address, data.update(i as int, x as u8), j);
}

/// `n` zeros.
pub open spec fn zeros(n: int) -> Seq<u8> {
    Seq::new(n as nat, |i: int| 0u8)
}

/// A new array has as many items as were asked for, all zero, and the type that
/// was asked for. More than a hundred thousand are refused, and so is a negative
/// number. Without an address, or without a number, nothing happens.
pub proof fn law_array_made(m: MachineView, choice: Choice, dst: u8, size: u8, class: u16, n: i32)
    requires
        step_laws::is_ready(m),
        step_laws::insn(m) == Instruction::NewArray(dst, size, class),
    ensures
        ({
            let after = semantics::step(m, choice);
            let names = m.vm.current.dex.type_names@;
            let ty = if class < names.len() {
                names[class as int]@
            } else {
                "[B"@
            };
            &&& holds_none(m.vm, size) ==> step_laws::goes_behind(m, after, m.vm)
            &&& holds(m.vm, size, n) && (n < 0 || n > 100_000) ==> step_laws::fails(m, after, ExceptionView::StackOverflow)
            &&& holds(m.vm, size, n) && 0 <= n <= 100_000 && choice.first is None ==> step_laws::goes_behind(m, after, m.vm)
            &&& holds(m.vm, size, n) && 0 <= n <= 100_000 && choice.first is Some ==> sets(
                m,
                after,
                storing(m.vm, choice.first->0, ValueView::Array(zeros(n as int))),
                dst,
                RegisterView::Reference(ty, choice.first->0),
            )
        }),
{
    assert(step_laws::insn(m).operation() == (Operation::NewArray { dst: dst as usize, size: size as usize, class }));
    step_laws::lemma_effect(m, choice);
    reveal(semantics::applied);
}

/// An array with given bytes becomes the result of the instruction, of type byte
/// array.
pub proof fn law_array_filled(m: MachineView, choice: Choice, data: Seq<u8>)
    requires
        step_laws::is_ready(m),
        step_laws::insn(m) is FilledNewArray,
        step_laws::insn(m)->FilledNewArray_2@ == data,
    ensures
        ({
            let after = semantics::step(m, choice);
            match choice.first {
                None => step_laws::fails(m, after, ExceptionView::OutOfMemory),
                Some(a) => step_laws::goes_behind(
                    m,
                    after,
                    VMView {
                        heap: m.vm.heap.insert(a, ValueView::Array(data)),
                        current: FrameView { result: RegisterView::Reference("[B"@, a), ..m.vm.current },
                        ..m.vm
                    },
                ),
            }
        }),
{
    step_laws::lemma_effect(m, choice);
    reveal(semantics::applied);
}

/// An array is replaced by the bytes that stand `table` code units from the
/// instruction.
pub proof fn law_array_data(m: MachineView, choice: Choice, array: u8, table: i32, address: u32, k: int)
    requires
        step_laws::is_ready(m),
        step_laws::insn(m) == Instruction::FillArrayData(array, table),
    ensures
        ({
            let after = semantics::step(m, choice);
            let place = m.vm.current.pc.wrapping_add_signed(table);
            let there = refers(m.vm, array, address) && m.vm.heap.contains_key(address);
            &&& refers_nowhere(m.vm, array) ==> step_laws::goes_behind(m, after, m.vm)
            &&& refers(m.vm, array, address) && !m.vm.heap.contains_key(address) ==> step_laws::fails(
                m,
                after,
                ExceptionView::InstanceNotFound(address),
            )
            &&& there && step_laws::nothing_at(*m.code, place) ==> step_laws::fails(
                m,
                after,
                ExceptionView::InstanceNotFound(table as u32),
            )
            &&& there && step_laws::stands_at(*m.code, k, place) ==> match m.code.insns@[k].2 {
                Instruction::ArrayData(_, data) => step_laws::goes_behind(
                    m,
                    after,
                    storing(m.vm, address, ValueView::Array(data@)),
                ),
                _ => step_laws::goes_behind(m, after, m.vm),
            }
        }),
{
    assert(step_laws::insn(m).operation() == (Operation::FillArrayData { array: array as usize, table }));
    step_laws::lemma_stands();
    step_laws::lemma_effect(m, choice);
    reveal(semantics::applied);
}

// ---------------------------------------------------------------------------
// Objects and strings
// ---------------------------------------------------------------------------

/// The instance is a string with this text: of the string class, without fields,
/// and with nothing else in its state.
pub open spec fn is_text(vm: VMView, instance: InstanceView, text: Seq<char>) -> bool {
    &&& instance.class == vm.builtins["Ljava/lang/String;"@]
    &&& instance.instances == Map::<Seq<char>, u32>::empty()
    &&& instance.internal_state == Map::<Seq<char>, InternalView>::empty().insert("tmp_string"@, InternalView::String(text))
}

/// A string constant becomes a new string with the text of the string table of
/// the running method.
pub proof fn law_string_made(m: MachineView, choice: Choice, dst: u8, string: u32, instance: InstanceView)
    requires
        step_laws::is_ready(m),
        step_laws::insn(m) == Instruction::ConstString(dst, string),
    ensures
        ({
            let after = semantics::step(m, choice);
            let strings = m.vm.current.dex.strings@;
            &&& string >= strings.len() ==> step_laws::fails(m, after, ExceptionView::StaticDataNotFound(string))
            &&& string < strings.len() && choice.first is None ==> step_laws::fails(m, after, ExceptionView::OutOfMemory)
            &&& string < strings.len() && choice.first is Some && is_text(m.vm, instance, strings[string as int]@) ==> sets(
                m,
                after,
                storing(m.vm, choice.first->0, ValueView::Object(instance)),
                dst,
                RegisterView::Reference("Ljava/lang/String;"@, choice.first->0),
            )
        }),
{
    assert(step_laws::insn(m).operation() == (Operation::ConstString { dst: dst as usize, string }));
    step_laws::lemma_effect(m, choice);
    reveal(semantics::applied);
}

/// A new object has the class that was found for its type, no fields and no
/// state, and its register has the name of the type.
pub proof fn law_object_made(m: MachineView, choice: Choice, dst: u8, class: u16)
    requires
        step_laws::is_ready(m),
        step_laws::insn(m) == Instruction::NewInstance(dst, class),
    ensures
        ({
            let after = semantics::step(m, choice);
            match semantics::find_class(m.vm, *m.dex, class as u32) {
                Err(exception) => step_laws::fails(m, after, exception),
                Ok(found) => if choice.first is None {
                    step_laws::fails(m, after, ExceptionView::OutOfMemory)
                } else if class >= m.dex.type_names@.len() {
                    after is Stuck
                } else {
                    sets(
                        m,
                        after,
                        storing(
                            m.vm,
                            choice.first->0,
                            ValueView::Object(
                                InstanceView { internal_state: Map::empty(), instances: Map::empty(), class: found },
                            ),
                        ),
                        dst,
                        RegisterView::Reference(m.dex.type_names@[class as int]@, choice.first->0),
                    )
                },
            }
        }),
{
    assert(step_laws::insn(m).operation() == (Operation::NewInstance { dst: dst as usize, class }));
    step_laws::lemma_effect(m, choice);
    reveal(semantics::applied);
}

} // verus!
