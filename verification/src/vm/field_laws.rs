//! What instructions on fields are for: what is read from them, what is stored in
//! them, what stays as it was, and where the machine stops before it stores.

use vstd::prelude::*;
use std::sync::Arc;
use crate::instruction::{CodeItem, Instruction};
use crate::models::{Class, DexFile};
use crate::vm::exception::{Breakpoint, BreakpointContext, ExceptionView, ExecutionState};
use crate::vm::graph;
use crate::vm::graph::StaticSlot;
use crate::vm::heap_laws;
use crate::vm::lookup_laws;
use crate::vm::operation::Operation;
use crate::vm::register::RegisterView;
use crate::vm::semantics;
use crate::vm::semantics::{Choice, Effect, MachineView, Status};
use crate::vm::state::{FrameView, VMView};
use crate::vm::step_laws;
use crate::vm::value::{InstanceView, InternalView, ValueView};

verus! {

// ---------------------------------------------------------------------------
// Instance fields
// ---------------------------------------------------------------------------

/// The instruction reads or writes an instance field, or writes a static one.
pub open spec fn uses_field(insn: Instruction, field: u16) -> bool {
    match insn {
        Instruction::InstanceGet(_, _, f) => f == field,
        Instruction::InstanceGetObject(_, _, f) => f == field,
        Instruction::InstancePut(_, _, f) => f == field,
        Instruction::InstancePutObject(_, _, f) => f == field,
        Instruction::StaticPutObject(_, f) => f == field,
        _ => false,
    }
}

/// A field that the file does not list, or whose class it does not define, cannot
/// be used.
pub proof fn law_unknown_field(m: MachineView, choice: Choice, field: u16)
    requires
        step_laws::is_ready(m),
        uses_field(step_laws::insn(m), field),
    ensures
        ({
            let after = semantics::step(m, choice);
            &&& field >= m.dex.fields@.len() ==> step_laws::fails(m, after, ExceptionView::ClassNotFound(0))
            &&& field < m.dex.fields@.len() && lookup_laws::no_class_of_type(
                *m.dex,
                m.dex.fields@[field as int].class_idx as u32,
            ) ==> step_laws::fails(m, after, ExceptionView::ClassNotFound(m.dex.fields@[field as int].class_idx))
        }),
{
    lookup_laws::lemma_classes();
    step_laws::lemma_effect(m, choice);
    reveal(semantics::applied);
}

/// An integer field reads as what stands at its heap address, and as zero where it
/// was never set.
pub proof fn law_field_read(m: MachineView, choice: Choice, dst: u8, object: u8, field: u16, i: int, name: Seq<char>, owner: u32, instance: InstanceView)
    requires
        step_laws::is_ready(m),
        step_laws::insn(m) == Instruction::InstanceGet(dst, object, field),
        lookup_laws::stored_as(*m.dex, field, i, name),
    ensures
        ({
            let after = semantics::step(m, choice);
            let found = heap_laws::refers(m.vm, object, owner) && heap_laws::is_object_at(m.vm, owner, instance);
            let cell = instance.instances[name];
            &&& heap_laws::refers_nowhere(m.vm, object) ==> step_laws::goes_behind(m, after, m.vm)
            &&& heap_laws::refers(m.vm, object, owner) && heap_laws::no_object_at(m.vm, owner) ==> step_laws::goes_behind(
                m,
                after,
                m.vm,
            )
            &&& found && !instance.instances.contains_key(name) ==> heap_laws::sets(
                m,
                after,
                m.vm,
                dst,
                RegisterView::Literal(0),
            )
            &&& found && instance.instances.contains_key(name) ==> (if !m.vm.heap.contains_key(cell) {
                step_laws::fails(m, after, ExceptionView::StaticDataNotFound(field as u32))
            } else {
                match m.vm.heap[cell] {
                    ValueView::Int(n) => heap_laws::sets(m, after, m.vm, dst, RegisterView::Literal(n)),
                    _ => step_laws::goes_behind(m, after, m.vm),
                }
            })
        }),
{
    lookup_laws::lemma_field_names();
    assert(step_laws::insn(m).operation() == (Operation::InstanceGet { dst: dst as usize, object: object as usize, field }));
    step_laws::lemma_effect(m, choice);
    reveal(semantics::applied);
}

/// A field that refers to an object reads as a reference to its heap address, with
/// the class of the owner as its type.
pub proof fn law_object_field_read(m: MachineView, choice: Choice, dst: u8, object: u8, field: u16, i: int, name: Seq<char>, owner: u32, instance: InstanceView)
    requires
        step_laws::is_ready(m),
        step_laws::insn(m) == Instruction::InstanceGetObject(dst, object, field),
        lookup_laws::stored_as(*m.dex, field, i, name),
    ensures
        ({
            let after = semantics::step(m, choice);
            let found = heap_laws::refers(m.vm, object, owner) && heap_laws::is_object_at(m.vm, owner, instance);
            &&& heap_laws::refers_nowhere(m.vm, object) ==> step_laws::goes_behind(m, after, m.vm)
            &&& heap_laws::refers(m.vm, object, owner) && heap_laws::no_object_at(m.vm, owner) ==> step_laws::goes_behind(
                m,
                after,
                m.vm,
            )
            &&& found && !instance.instances.contains_key(name) ==> step_laws::goes_behind(m, after, m.vm)
            &&& found && instance.instances.contains_key(name) ==> heap_laws::sets(
                m,
                after,
                m.vm,
                dst,
                RegisterView::Reference(instance.class.class_name@, instance.instances[name]),
            )
        }),
{
    lookup_laws::lemma_field_names();
    assert(step_laws::insn(m).operation() == (Operation::InstanceGetObject {
        dst: dst as usize,
        object: object as usize,
        field,
    }));
    step_laws::lemma_effect(m, choice);
    reveal(semantics::applied);
}

/// An integer field that was set before keeps its heap address, which gets the
/// integer. One that was never set gets the address that allocation gave. Without
/// an integer, an object or an address nothing happens.
pub proof fn law_field_set(m: MachineView, choice: Choice, src: u8, object: u8, field: u16, i: int, name: Seq<char>, owner: u32, instance: InstanceView, n: i32)
    requires
        step_laws::is_ready(m),
        step_laws::insn(m) == Instruction::InstancePut(src, object, field),
        lookup_laws::stored_as(*m.dex, field, i, name),
    ensures
        ({
            let after = semantics::step(m, choice);
            let found = heap_laws::holds(m.vm, src, n) && heap_laws::refers(m.vm, object, owner) && heap_laws::is_object_at(
                m.vm,
                owner,
                instance,
            );
            let cell = instance.instances[name];
            &&& heap_laws::holds_none(m.vm, src) || heap_laws::refers_nowhere(m.vm, object) ==> step_laws::goes_behind(
                m,
                after,
                m.vm,
            )
            &&& heap_laws::refers(m.vm, object, owner) && heap_laws::no_object_at(m.vm, owner) ==> step_laws::goes_behind(
                m,
                after,
                m.vm,
            )
            &&& found && instance.instances.contains_key(name) && m.vm.heap.contains_key(cell) ==> step_laws::goes_behind(
                m,
                after,
                heap_laws::storing(m.vm, cell, ValueView::Int(n)),
            )
            &&& found && instance.instances.contains_key(name) && !m.vm.heap.contains_key(cell) ==> step_laws::goes_behind(
                m,
                after,
                m.vm,
            )
            &&& found && !instance.instances.contains_key(name) && choice.first is None ==> step_laws::goes_behind(
                m,
                after,
                m.vm,
            )
            &&& found && !instance.instances.contains_key(name) && choice.first is Some ==> step_laws::goes_behind(
                m,
                after,
                heap_laws::storing(
                    heap_laws::storing(m.vm, choice.first->0, ValueView::Int(n)),
                    owner,
                    ValueView::Object(
                        InstanceView {
                            internal_state: instance.internal_state,
                            instances: instance.instances.insert(name, choice.first->0),
                            class: instance.class,
                        },
                    ),
                ),
            )
        }),
{
    lookup_laws::lemma_field_names();
    assert(step_laws::insn(m).operation() == (Operation::InstancePut { src: src as usize, object: object as usize, field }));
    step_laws::lemma_effect(m, choice);
    reveal(semantics::applied);
}

/// A field is made to refer to the object of a register. Without two references,
/// or where the owner is no object, nothing happens.
pub proof fn law_object_field_set(m: MachineView, choice: Choice, src: u8, object: u8, field: u16, i: int, name: Seq<char>, address: u32, owner: u32, instance: InstanceView)
    requires
        step_laws::is_ready(m),
        step_laws::insn(m) == Instruction::InstancePutObject(src, object, field),
        lookup_laws::stored_as(*m.dex, field, i, name),
    ensures
        ({
            let after = semantics::step(m, choice);
            &&& heap_laws::refers_nowhere(m.vm, src) || heap_laws::refers_nowhere(m.vm, object) ==> step_laws::goes_behind(
                m,
                after,
                m.vm,
            )
            &&& heap_laws::refers(m.vm, object, owner) && heap_laws::no_object_at(m.vm, owner) ==> step_laws::goes_behind(
                m,
                after,
                m.vm,
            )
            &&& heap_laws::refers(m.vm, src, address) && heap_laws::refers(m.vm, object, owner) && heap_laws::is_object_at(
                m.vm,
                owner,
                instance,
            ) ==> step_laws::goes_behind(
                m,
                after,
                heap_laws::storing(
                    m.vm,
                    owner,
                    ValueView::Object(
                        InstanceView {
                            internal_state: instance.internal_state,
                            instances: instance.instances.insert(name, address),
                            class: instance.class,
                        },
                    ),
                ),
            )
        }),
{
    lookup_laws::lemma_field_names();
    assert(step_laws::insn(m).operation() == (Operation::InstancePutObject {
        src: src as usize,
        object: object as usize,
        field,
    }));
    step_laws::lemma_effect(m, choice);
    reveal(semantics::applied);
}

/// The instruction stores register `src` in a field of the object in register
/// `object`.
pub open spec fn is_field_put(insn: Instruction, src: u8, object: u8, field: u16) -> bool {
    insn == Instruction::InstancePut(src, object, field) || insn == Instruction::InstancePutObject(src, object, field)
}

/// Setting one field of an object leaves its other fields: under every other name
/// the object has a field exactly where it had one, at the same heap address, and
/// that address holds the same value. The object keeps its class and its state.
///
/// The heap address that is written to is left out: that of the field set, and that
/// of the object itself.
pub proof fn law_setting_a_field_keeps_the_others(m: MachineView, choice: Choice, src: u8, object: u8, field: u16, i: int, name: Seq<char>, owner: u32, instance: InstanceView, other: Seq<char>)
    requires
        step_laws::is_ready(m),
        is_field_put(step_laws::insn(m), src, object, field),
        lookup_laws::stored_as(*m.dex, field, i, name),
        heap_laws::refers(m.vm, object, owner),
        heap_laws::is_object_at(m.vm, owner, instance),
        choice.first is Some ==> !m.vm.heap.contains_key(choice.first->0),
        step_laws::insn(m) is InstancePut && instance.instances.contains_key(name) ==> instance.instances[name] != owner,
        other != name,
    ensures
        ({
            let after = semantics::step(m, choice);
            let heap = heap_laws::machine_after(after).heap;
            let address = instance.instances[other];
            &&& !(after is Stuck) && !(after is Call)
            &&& heap.contains_key(owner)
            &&& heap[owner] matches ValueView::Object(kept) && {
                &&& kept.class == instance.class
                &&& kept.internal_state == instance.internal_state
                &&& kept.instances.contains_key(other) == instance.instances.contains_key(other)
                &&& instance.instances.contains_key(other) ==> kept.instances[other] == address
            }
            &&& instance.instances.contains_key(other) && address != owner && !(instance.instances.contains_key(name)
                && instance.instances[name] == address) && m.vm.heap.contains_key(address) ==> heap.contains_key(address)
                && heap[address] == m.vm.heap[address]
        }),
{
    let registers = m.vm.current.registers;
    if step_laws::insn(m) is InstancePut {
        let n = if src < registers.len() && registers[src as int] is Literal {
            registers[src as int]->Literal_0
        } else {
            0
        };
        law_field_set(m, choice, src, object, field, i, name, owner, instance, n);
    } else {
        let address = if src < registers.len() && registers[src as int] is Reference {
            registers[src as int]->Reference_1
        } else {
            0
        };
        law_object_field_set(m, choice, src, object, field, i, name, address, owner, instance);
    }
}

/// Setting a field changes no other value of the heap than that of the field and
/// that of the object.
pub proof fn law_setting_a_field_keeps_the_heap(m: MachineView, choice: Choice, src: u8, object: u8, field: u16, i: int, name: Seq<char>, owner: u32, instance: InstanceView, address: u32)
    requires
        step_laws::is_ready(m),
        is_field_put(step_laws::insn(m), src, object, field),
        lookup_laws::stored_as(*m.dex, field, i, name),
        heap_laws::refers(m.vm, object, owner),
        heap_laws::is_object_at(m.vm, owner, instance),
        choice.first is Some ==> !m.vm.heap.contains_key(choice.first->0),
        address != owner,
        !(instance.instances.contains_key(name) && instance.instances[name] == address),
        m.vm.heap.contains_key(address),
    ensures
        ({
            let heap = heap_laws::machine_after(semantics::step(m, choice)).heap;
            heap.contains_key(address) && heap[address] == m.vm.heap[address]
        }),
{
    let registers = m.vm.current.registers;
    if step_laws::insn(m) is InstancePut {
        let n = if src < registers.len() && registers[src as int] is Literal {
            registers[src as int]->Literal_0
        } else {
            0
        };
        law_field_set(m, choice, src, object, field, i, name, owner, instance, n);
    } else {
        let to = if src < registers.len() && registers[src as int] is Reference {
            registers[src as int]->Reference_1
        } else {
            0
        };
        law_object_field_set(m, choice, src, object, field, i, name, to, owner, instance);
    }
}

// ---------------------------------------------------------------------------
// Static fields
// ---------------------------------------------------------------------------

/// The value is an array, or an instance of the string class.
pub open spec fn is_array_or_string(value: ValueView) -> bool {
    ||| value is Array
    ||| value is Object && value->Object_0.class.class_name@ == "Ljava/lang/String;"@
}

/// The machine is to stop where the field is set, and no stop is to be passed
/// over.
pub open spec fn stops_at(vm: VMView, field: u16) -> bool {
    !vm.skip_next_breakpoint && vm.break_points.contains(Breakpoint::FieldSet(field))
}

/// Where no stop is to be passed over and the field is among the break points, an
/// array or a string that is about to be stored in it ends the run, with the
/// register and the field as what was met. Nothing has been stored.
pub proof fn law_stop_at_static_field(m: MachineView, choice: Choice, src: u8, field: u16, i: int, name: Seq<char>, address: u32)
    requires
        step_laws::is_ready(m),
        step_laws::insn(m) == Instruction::StaticPutObject(src, field),
        lookup_laws::stored_as(*m.dex, field, i, name),
        heap_laws::refers(m.vm, src, address),
        m.vm.heap.contains_key(address),
        is_array_or_string(m.vm.heap[address]),
        stops_at(m.vm, field),
    ensures
        step_laws::fails(
            m,
            semantics::step(m, choice),
            ExceptionView::Breakpoint(
                m.vm.current.pc,
                m.vm.current.method,
                BreakpointContext::FieldSet(src as u16, field),
            ),
        ),
{
    lemma_static_put(m, choice, src, field, i, name, address);
}

proof fn lemma_static_put(m: MachineView, choice: Choice, src: u8, field: u16, i: int, name: Seq<char>, address: u32)
    requires
        step_laws::is_ready(m),
        step_laws::insn(m) == Instruction::StaticPutObject(src, field),
        lookup_laws::stored_as(*m.dex, field, i, name),
        heap_laws::refers(m.vm, src, address),
        m.vm.heap.contains_key(address),
    ensures
        ({
            let after = semantics::step(m, choice);
            if stops_at(m.vm, field) && is_array_or_string(m.vm.heap[address]) {
                step_laws::fails(
                    m,
                    after,
                    ExceptionView::Breakpoint(
                        m.vm.current.pc,
                        m.vm.current.method,
                        BreakpointContext::FieldSet(src as u16, field),
                    ),
                )
            } else {
                step_laws::goes_behind(
                    m,
                    after,
                    VMView {
                        instances: m.vm.instances.insert(
                            name,
                            StaticSlot {
                                node: if m.vm.instances.contains_key(name) {
                                    m.vm.instances[name].node
                                } else {
                                    graph::node_at(0)
                                },
                                address,
                            },
                        ),
                        skip_next_breakpoint: false,
                        ..m.vm
                    },
                )
            }
        }),
{
    lookup_laws::lemma_field_names();
    assert(step_laws::insn(m).operation() == (Operation::StaticPutObject { src, field }));
    assert(semantics::stops_at_field(m.vm.break_points, field) == m.vm.break_points.contains(Breakpoint::FieldSet(field)));
    step_laws::lemma_effect(m, choice);
    reveal(semantics::applied);
}

/// Where the machine does not stop, a static field refers to the object that was
/// stored: under its name alone, and at the node that it had. The request to pass
/// over a stop is used up.
pub proof fn law_static_field_set(m: MachineView, choice: Choice, src: u8, field: u16, i: int, name: Seq<char>, address: u32)
    requires
        step_laws::is_ready(m),
        step_laws::insn(m) == Instruction::StaticPutObject(src, field),
        lookup_laws::stored_as(*m.dex, field, i, name),
        heap_laws::refers(m.vm, src, address),
        m.vm.heap.contains_key(address),
        !stops_at(m.vm, field) || !is_array_or_string(m.vm.heap[address]),
    ensures
        step_laws::goes_behind(
            m,
            semantics::step(m, choice),
            VMView {
                instances: m.vm.instances.insert(
                    name,
                    StaticSlot {
                        node: if m.vm.instances.contains_key(name) {
                            m.vm.instances[name].node
                        } else {
                            graph::node_at(0)
                        },
                        address,
                    },
                ),
                skip_next_breakpoint: false,
                ..m.vm
            },
        ),
{
    lemma_static_put(m, choice, src, field, i, name, address);
}

/// A register without a reference cannot be stored in a static field, and a
/// reference to nothing has no result.
pub proof fn law_static_field_refused(m: MachineView, choice: Choice, src: u8, field: u16, i: int, name: Seq<char>, address: u32)
    requires
        step_laws::is_ready(m),
        step_laws::insn(m) == Instruction::StaticPutObject(src, field),
        lookup_laws::stored_as(*m.dex, field, i, name),
    ensures
        heap_laws::refers_nowhere(m.vm, src) ==> step_laws::fails(
            m,
            semantics::step(m, choice),
            ExceptionView::RegisterNotFound(src as usize),
        ),
        heap_laws::refers(m.vm, src, address) && !m.vm.heap.contains_key(address) ==> semantics::step(m, choice) is Stuck,
{
    lookup_laws::lemma_field_names();
    assert(step_laws::insn(m).operation() == (Operation::StaticPutObject { src, field }));
    step_laws::lemma_effect(m, choice);
    reveal(semantics::applied);
}

// ---------------------------------------------------------------------------
// Reading static fields
// ---------------------------------------------------------------------------

/// The name under which a static field is read: that of the class by which the
/// file refers to it, an arrow, and its own.
pub open spec fn read_as(dex: DexFile, field: u16, name: Seq<char>) -> bool {
    &&& field < dex.fields@.len()
    &&& dex.fields@[field as int].class_idx < dex.type_names@.len()
    &&& name == dex.type_names@[dex.fields@[field as int].class_idx as int]@ + "->"@ + dex.fields@[field as int].name@
}

/// The machine when an initializer that it waited for has run.
pub open spec fn awake(vm: VMView) -> VMView {
    if vm.current.state == ExecutionState::RunningStaticInitializer {
        VMView { current: FrameView { state: ExecutionState::Running, ..vm.current }, ..vm }
    } else {
        vm
    }
}

/// What reading a static field does in a machine that is ready for it: a field that
/// refers to an object becomes a reference with the class of the object, one that
/// refers to an array a byte array. One that nothing was stored in is not found.
pub open spec fn reads_static(m: MachineView, after: Status, vm: VMView, dst: u8, name: Seq<char>, field: u16) -> bool {
    let there = VMView { current: FrameView { size: step_laws::units(m), ..vm.current }, ..vm };
    let address = vm.instances[name].address;
    if !vm.instances.contains_key(name) {
        after == Status::Done(there, Err::<(), ExceptionView>(ExceptionView::StaticDataNotFound(field as u32)))
    } else if vm.heap.contains_key(address) && vm.heap[address] is Object {
        heap_laws::sets(
            m,
            after,
            vm,
            dst,
            RegisterView::Reference(vm.heap[address]->Object_0.class.class_name@, address),
        )
    } else if vm.heap.contains_key(address) && vm.heap[address] is Array {
        heap_laws::sets(m, after, vm, dst, RegisterView::Reference("[B"@, address))
    } else {
        after == Status::Done(there, Err::<(), ExceptionView>(ExceptionView::InvalidMemoryAddress(address)))
    }
}

/// A static field that the file does not list, or whose class it does not name,
/// cannot be read.
pub proof fn law_unknown_static_field(m: MachineView, choice: Choice, dst: u8, field: u16)
    requires
        step_laws::is_ready(m),
        step_laws::insn(m) == Instruction::StaticGetObject(dst, field),
    ensures
        ({
            let after = semantics::step(m, choice);
            &&& field >= m.dex.fields@.len() ==> step_laws::fails(m, after, ExceptionView::ClassNotFound(0))
            &&& field < m.dex.fields@.len() && m.dex.fields@[field as int].class_idx >= m.dex.type_names@.len()
                ==> step_laws::fails(m, after, ExceptionView::ClassNotFound(m.dex.fields@[field as int].class_idx))
        }),
{
    reveal(semantics::perform);
}

/// A static field in which an object was stored is read as a reference to that
/// object.
pub proof fn law_static_field_read(m: MachineView, choice: Choice, dst: u8, field: u16, name: Seq<char>)
    requires
        step_laws::is_ready(m),
        step_laws::insn(m) == Instruction::StaticGetObject(dst, field),
        read_as(*m.dex, field, name),
        m.vm.instances.contains_key(name),
    ensures
        reads_static(m, semantics::step(m, choice), awake(m.vm), dst, name, field),
{
    lemma_static_read(m, choice, dst, field, name);
    lemma_finished(m, semantics::begun(m).vm, m.vm, dst, field, name, choice.second);
}

/// The type of the field is one of which the platform hands out an instance.
pub open spec fn is_handed_out(dex: DexFile, field: u16) -> bool {
    let idx = dex.fields@[field as int].type_idx;
    &&& idx < dex.type_names@.len()
    &&& {
        ||| dex.type_names@[idx as int]@ == "Landroid/content/Context;"@
        ||| dex.type_names@[idx as int]@ == "Landroid/app/Application;"@
        ||| dex.type_names@[idx as int]@ == "Ljava/nio/charset/Charset;"@
    }
}

/// The machine with an object in a static field that had none.
pub open spec fn with_object(vm: VMView, name: Seq<char>, address: u32, instance: InstanceView) -> VMView {
    VMView {
        heap: vm.heap.insert(address, ValueView::Object(instance)),
        instances: vm.instances.insert(name, StaticSlot { node: graph::node_at(0), address }),
        ..vm
    }
}

/// The machine when a field that nothing was stored in is about to be read: one of
/// a type that the platform hands out has got a plain instance of the builtin
/// class, where there was an address for it.
pub open spec fn handed(vm: VMView, dex: DexFile, field: u16, name: Seq<char>, address: Option<u32>) -> VMView {
    if is_handed_out(dex, field) && !vm.instances.contains_key(name) && address is Some {
        with_object(
            vm,
            name,
            address->0,
            InstanceView {
                internal_state: Map::empty(),
                instances: Map::empty(),
                class: vm.builtins[dex.type_names@[dex.fields@[field as int].type_idx as int]@],
            },
        )
    } else {
        vm
    }
}

/// A static field that nothing was stored in, and whose class the main file does
/// not define or whose initializer has run, is read as what the platform hands
/// out, and else is not found.
pub proof fn law_static_field_handed_out(m: MachineView, choice: Choice, dst: u8, field: u16, name: Seq<char>)
    requires
        step_laws::is_ready(m),
        step_laws::insn(m) == Instruction::StaticGetObject(dst, field),
        read_as(*m.dex, field, name),
        !m.vm.instances.contains_key(name),
        m.vm.current.state == ExecutionState::RunningStaticInitializer || lookup_laws::no_class_of_type(
            *m.vm.dex_file,
            m.dex.fields@[field as int].class_idx as u32,
        ),
    ensures
        reads_static(
            m,
            semantics::step(m, choice),
            awake(handed(m.vm, *m.dex, field, name, choice.second)),
            dst,
            name,
            field,
        ),
{
    lookup_laws::lemma_classes();
    lemma_static_read(m, choice, dst, field, name);
    lemma_finished(m, semantics::begun(m).vm, m.vm, dst, field, name, choice.second);
}

/// The machine with the string that a static field starts with.
pub open spec fn with_initial_text(vm: VMView, name: Seq<char>, class: Class, field: u16, address: Option<u32>) -> VMView {
    match semantics::initial_text(*vm.dex_file, class, field) {
        Some(text) => if address is Some {
            with_object(
                vm,
                name,
                address->0,
                InstanceView {
                    internal_state: Map::<Seq<char>, InternalView>::empty().insert("tmp_string"@, InternalView::String(text)),
                    instances: Map::empty(),
                    class: vm.builtins["Ljava/lang/String;"@],
                },
            )
        } else {
            vm
        },
        None => vm,
    }
}

/// A static field that nothing was stored in gets the text that it starts with
/// before it is read, where its class has no initializer.
pub proof fn law_static_field_starts_with_text(m: MachineView, choice: Choice, dst: u8, field: u16, name: Seq<char>, i: int)
    requires
        step_laws::is_ready(m),
        step_laws::insn(m) == Instruction::StaticGetObject(dst, field),
        read_as(*m.dex, field, name),
        !m.vm.instances.contains_key(name),
        m.vm.current.state != ExecutionState::RunningStaticInitializer,
        lookup_laws::is_class_of_type(*m.vm.dex_file, m.dex.fields@[field as int].class_idx as u32, i),
        semantics::initializer(*m.vm.dex_file.classes@[i]) is None,
    ensures
        reads_static(
            m,
            semantics::step(m, choice),
            handed(
                with_initial_text(m.vm, name, *m.vm.dex_file.classes@[i], field, choice.first),
                *m.dex,
                field,
                name,
                choice.second,
            ),
            dst,
            name,
            field,
        ),
{
    lookup_laws::lemma_classes();
    lemma_static_read(m, choice, dst, field, name);
    let class = m.vm.dex_file.classes@[i];
    assert(semantics::preset(semantics::begun(m).vm, name, *class, field, choice.first) =~= (VMView {
        current: semantics::begun(m).vm.current,
        ..with_initial_text(m.vm, name, *class, field, choice.first)
    }));
    lemma_preset(m, name, class, field, choice.first);
    lemma_finished(
        m,
        with_size(m, with_initial_text_of(m.vm, name, class, field, choice.first)),
        with_initial_text_of(m.vm, name, class, field, choice.first),
        dst,
        field,
        name,
        choice.second,
    );
}

/// The run has entered a static initializer: the frame that needed it is saved, and
/// waits for it, and the new one has the registers of the initializer, all empty.
pub open spec fn has_entered_initializer(m: MachineView, after: Status, vm: VMView, number: u32, code: Arc<CodeItem>) -> bool {
    let waiting = FrameView {
        size: step_laws::units(m),
        state: ExecutionState::RunningStaticInitializer,
        ..vm.current
    };
    let frame = FrameView {
        pc: 0,
        last_size: 0,
        registers: Seq::new(code.register_size as nat, |i: int| RegisterView::Empty),
        num_params: 0,
        num_registers: code.register_size as usize,
        code,
        method: number,
        state: ExecutionState::StaticInitializer,
        ..waiting
    };
    let entered = VMView { frames: vm.frames.push(waiting), current: frame, ..vm };
    match after {
        Status::Running(n) => {
            &&& n.vm == entered
            &&& n.code == code
            &&& n.dex == vm.current.dex
            &&& n.method == number
            &&& n.steps == m.steps + 1
            &&& step_laws::stands_at(*code, n.index, 0)
        },
        Status::Done(left, result) => {
            &&& left == entered
            &&& step_laws::nothing_at(*code, 0)
            &&& result == Err::<(), ExceptionView>(ExceptionView::NoInstructionAtAddress(number, 0))
        },
        _ => false,
    }
}

/// Where nothing was stored in a static field and its class has an initializer,
/// that one runs first; an initializer without a body has no defined result.
pub proof fn law_static_initializer_runs(m: MachineView, choice: Choice, dst: u8, field: u16, name: Seq<char>, i: int)
    requires
        step_laws::is_ready(m),
        step_laws::insn(m) == Instruction::StaticGetObject(dst, field),
        read_as(*m.dex, field, name),
        !m.vm.instances.contains_key(name),
        m.vm.current.state != ExecutionState::RunningStaticInitializer,
        lookup_laws::is_class_of_type(*m.vm.dex_file, m.dex.fields@[field as int].class_idx as u32, i),
        semantics::initializer(*m.vm.dex_file.classes@[i]) is Some,
    ensures
        ({
            let after = semantics::step(m, choice);
            let class = *m.vm.dex_file.classes@[i];
            let method = semantics::initializer(class)->0;
            match method.code {
                None => after is Stuck,
                Some(code) => has_entered_initializer(
                    m,
                    after,
                    with_initial_text(m.vm, name, class, field, choice.first),
                    method.method.method_idx as u32,
                    code,
                ),
            }
        }),
{
    lookup_laws::lemma_classes();
    lemma_static_read(m, choice, dst, field, name);
    let class = m.vm.dex_file.classes@[i];
    lemma_preset(m, name, class, field, choice.first);
    step_laws::lemma_fetches();
}

spec fn with_initial_text_of(vm: VMView, name: Seq<char>, class: Arc<Class>, field: u16, address: Option<u32>) -> VMView {
    with_initial_text(vm, name, *class, field, address)
}

spec fn with_size(m: MachineView, vm: VMView) -> VMView {
    VMView { current: FrameView { size: step_laws::units(m), ..vm.current }, ..vm }
}

proof fn lemma_preset(m: MachineView, name: Seq<char>, class: Arc<Class>, field: u16, address: Option<u32>)
    ensures
        semantics::preset(semantics::begun(m).vm, name, *class, field, address) == with_size(
            m,
            with_initial_text(m.vm, name, *class, field, address),
        ),
{
}

proof fn lemma_static_read(m: MachineView, choice: Choice, dst: u8, field: u16, name: Seq<char>)
    requires
        step_laws::is_ready(m),
        step_laws::insn(m) == Instruction::StaticGetObject(dst, field),
    ensures
        semantics::step(m, choice) == semantics::static_get(semantics::begun(m), dst as usize, field, choice),
{
    reveal(semantics::perform);
}

proof fn lemma_finished(m: MachineView, with: VMView, vm: VMView, dst: u8, field: u16, name: Seq<char>, address: Option<u32>)
    requires
        0 <= m.index < m.code.insns@.len(),
        read_as(*m.dex, field, name),
        with == with_size(m, vm),
    ensures
        reads_static(
            m,
            semantics::finish_static_get(
                MachineView { vm: with, ..semantics::begun(m) },
                dst as usize,
                name,
                m.dex.type_name_at(m.dex.fields@[field as int].type_idx as int),
                field,
                address,
            ),
            awake(handed(vm, *m.dex, field, name, address)),
            dst,
            name,
            field,
        ),
{
    let got = handed_of(vm, m.dex, field, name, address);
    lemma_handed(m, vm, field, name, address);
    let running = with_size(m, awake(got));
    let ambient = with_size(m, got);
    assert(running == (if ambient.current.state == ExecutionState::RunningStaticInitializer {
        ambient.in_state(ExecutionState::Running)
    } else {
        ambient
    }));
    lemma_read(m, with, awake(got), dst, name, field);
}

spec fn handed_of(vm: VMView, dex: Arc<DexFile>, field: u16, name: Seq<char>, address: Option<u32>) -> VMView {
    handed(vm, *dex, field, name, address)
}

proof fn lemma_handed(m: MachineView, vm: VMView, field: u16, name: Seq<char>, address: Option<u32>)
    requires
        read_as(*m.dex, field, name),
    ensures
        semantics::with_ambient(
            with_size(m, vm),
            name,
            m.dex.type_name_at(m.dex.fields@[field as int].type_idx as int),
            address,
        ) == with_size(m, handed_of(vm, m.dex, field, name, address)),
{
}

proof fn lemma_settled(m: MachineView, with: VMView, vm: VMView)
    requires
        0 <= m.index < m.code.insns@.len(),
    ensures
        step_laws::goes_behind(
            m,
            semantics::proceed(MachineView { vm: with, ..semantics::begun(m) }, Effect::Next(with_size(m, vm))),
            vm,
        ),
{
    step_laws::lemma_fetches();
}

proof fn lemma_put(m: MachineView, with: VMView, vm: VMView, dst: u8, register: RegisterView)
    requires
        0 <= m.index < m.code.insns@.len(),
    ensures
        heap_laws::sets(
            m,
            semantics::proceed(
                MachineView { vm: with, ..semantics::begun(m) },
                semantics::put(with_size(m, vm), dst as usize, register),
            ),
            vm,
            dst,
            register,
        ),
{
    lemma_settled(m, with, step_laws::setting(vm, dst as int, register));
    assert(dst < vm.current.registers.len() ==> semantics::put(with_size(m, vm), dst as usize, register) == Effect::Next(
        with_size(m, step_laws::setting(vm, dst as int, register)),
    ));
}

proof fn lemma_read(m: MachineView, with: VMView, vm: VMView, dst: u8, name: Seq<char>, field: u16)
    requires
        0 <= m.index < m.code.insns@.len(),
    ensures
        reads_static(
            m,
            semantics::proceed(
                MachineView { vm: with, ..semantics::begun(m) },
                semantics::read_static(with_size(m, vm), dst as usize, name, field),
            ),
            vm,
            dst,
            name,
            field,
        ),
{
    let address = vm.instances[name].address;
    if vm.instances.contains_key(name) && vm.heap.contains_key(address) {
        match vm.heap[address] {
            ValueView::Object(instance) => {
                lemma_put(m, with, vm, dst, RegisterView::Reference(instance.class.class_name@, address));
            },
            ValueView::Array(_) => {
                lemma_put(m, with, vm, dst, RegisterView::Reference("[B"@, address));
            },
            _ => {},
        }
    }
}


} // verus!
