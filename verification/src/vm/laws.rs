//! What holds of every run.

use vstd::prelude::*;
use std::sync::Arc;
use crate::instruction::CodeItem;
use crate::models::{Class, DexFile, MethodData};
use crate::vm::exception::{ExceptionView, ExecutionState};
use crate::vm::operation::Operation;
use crate::vm::register::RegisterView;
use crate::vm::semantics;
use crate::vm::semantics::{CallView, Choice, Effect, MachineView, Passing, Status, MAX_DEPTH, MAX_STEPS};
use crate::vm::state::{FrameView, VMView};
use crate::vm::value::ValueView;

verus! {

// ---------------------------------------------------------------------------
// What an instruction keeps
// ---------------------------------------------------------------------------

/// What a machine was set up with: its files, its builtins, its generator of heap
/// addresses and where it stops.
pub open spec fn same_setup(a: VMView, b: VMView) -> bool {
    &&& a.dex_file == b.dex_file
    &&& a.runtime == b.runtime
    &&& a.resources == b.resources
    &&& a.builtins == b.builtins
    &&& a.generator == b.generator
    &&& a.break_points == b.break_points
    &&& a.stop_on_array_use == b.stop_on_array_use
    &&& a.stop_on_string_use == b.stop_on_string_use
    &&& a.stop_on_array_return == b.stop_on_array_return
    &&& a.stop_on_string_return == b.stop_on_string_return
}

/// A heap address in use stays in use, and a static field that was set stays set.
pub open spec fn objects_remain(before: VMView, after: VMView) -> bool {
    &&& forall|address: u32| #[trigger] before.heap.contains_key(address) ==> after.heap.contains_key(address)
    &&& forall|name: Seq<char>| #[trigger] before.instances.contains_key(name) ==> after.instances.contains_key(name)
}

/// The stack changed at its top alone: one frame more, one less, or none.
pub open spec fn top_changed(before: Seq<FrameView>, after: Seq<FrameView>) -> bool {
    ||| after == before
    ||| after.len() == before.len() + 1 && after.drop_last() == before
    ||| before.len() > 0 && after == before.drop_last()
}

/// What every instruction keeps of the machine.
pub open spec fn preserved(before: VMView, after: VMView) -> bool {
    &&& same_setup(before, after)
    &&& objects_remain(before, after)
    &&& top_changed(before.frames, after.frames)
}

/// What every instruction keeps, however it leaves the run.
pub open spec fn keeps(m: MachineView, after: Status) -> bool {
    match after {
        Status::Running(next) => next.steps == m.steps && preserved(m.vm, next.vm) && 0 <= next.index < next.code.insns@.len(),
        Status::Done(vm, _) => preserved(m.vm, vm),
        Status::Call(vm, call) => call.steps == m.steps && preserved(m.vm, vm),
        Status::Stuck => true,
    }
}

/// The frames differ in their registers and in the result of the last call
/// alone.
pub open spec fn same_place(before: FrameView, after: FrameView) -> bool {
    &&& after == FrameView { registers: after.registers, result: after.result, ..before }
    &&& after.registers.len() == before.registers.len()
}

/// What every operation that goes on behind itself keeps: besides, it leaves the
/// stack alone and stays where it is.
pub open spec fn effect_keeps(vm: VMView, effect: Effect) -> bool {
    match effect {
        Effect::Next(after) => preserved(vm, after) && after.frames == vm.frames && same_place(vm.current, after.current),
        Effect::Fault(after, _) => preserved(vm, after) && after.frames == vm.frames && same_place(vm.current, after.current),
        Effect::Stuck => true,
    }
}

proof fn lemma_makes(vm: VMView, code: Arc<CodeItem>, dex: Arc<DexFile>, operation: Operation, choice: Choice)
    requires
        operation is ConstString || operation is NewInstance || operation is NewArray || operation is FilledNewArray,
    ensures
        effect_keeps(vm, semantics::applied(vm, *code, *dex, operation, choice)),
{
    reveal(semantics::applied);
}

proof fn lemma_changes(vm: VMView, code: Arc<CodeItem>, dex: Arc<DexFile>, operation: Operation, choice: Choice)
    requires
        operation is ArrayPut || operation is FillArrayData || operation is StaticPutObject || operation is InstancePut
            || operation is InstancePutObject,
    ensures
        effect_keeps(vm, semantics::applied(vm, *code, *dex, operation, choice)),
{
    reveal(semantics::applied);
}

proof fn lemma_reads(vm: VMView, code: Arc<CodeItem>, dex: Arc<DexFile>, operation: Operation, choice: Choice)
    requires
        operation is ArrayLength || operation is ArrayGet || operation is InstanceGet || operation is InstanceGetObject,
    ensures
        effect_keeps(vm, semantics::applied(vm, *code, *dex, operation, choice)),
{
    reveal(semantics::applied);
}

proof fn lemma_computes(vm: VMView, code: Arc<CodeItem>, dex: Arc<DexFile>, operation: Operation, choice: Choice)
    requires
        operation is Move || operation is MoveResult || operation is Arithmetic || operation is ArithmeticLiteral
            || operation is Truncate || operation is Literal,
    ensures
        effect_keeps(vm, semantics::applied(vm, *code, *dex, operation, choice)),
{
    reveal(semantics::applied);
}

proof fn lemma_does_nothing(vm: VMView, code: Arc<CodeItem>, dex: Arc<DexFile>, operation: Operation, choice: Choice)
    requires
        operation is Nothing,
    ensures
        effect_keeps(vm, semantics::applied(vm, *code, *dex, operation, choice)),
{
    reveal(semantics::applied);
}

proof fn lemma_applied(vm: VMView, code: Arc<CodeItem>, dex: Arc<DexFile>, operation: Operation, choice: Choice)
    requires
        !branches(operation),
    ensures
        effect_keeps(vm, semantics::applied(vm, *code, *dex, operation, choice)),
{
    match operation {
        Operation::Nothing => lemma_does_nothing(vm, code, dex, operation, choice),
        Operation::ConstString { .. } | Operation::NewInstance { .. } | Operation::NewArray { .. } | Operation::FilledNewArray {
            ..
        } => lemma_makes(vm, code, dex, operation, choice),
        Operation::ArrayPut { .. } | Operation::FillArrayData { .. } | Operation::StaticPutObject { .. }
        | Operation::InstancePut { .. } | Operation::InstancePutObject { .. } => lemma_changes(vm, code, dex, operation, choice),
        Operation::ArrayLength { .. } | Operation::ArrayGet { .. } | Operation::InstanceGet { .. } | Operation::InstanceGetObject {
            ..
        } => lemma_reads(vm, code, dex, operation, choice),
        _ => lemma_computes(vm, code, dex, operation, choice),
    }
}

/// Whether an operation decides itself which instruction comes next.
pub open spec fn branches(operation: Operation) -> bool {
    operation is Test || operation is TestZero || operation is Goto || operation is Switch || operation is Invoke
        || operation is InvokeStatic || operation is ReturnVoid || operation is Return || operation is StaticGetObject
}

proof fn lemma_branches(m: MachineView, operation: Operation, choice: Choice)
    requires
        operation is Test || operation is TestZero || operation is Goto || operation is Switch,
    ensures
        keeps(m, semantics::perform(m, operation, choice)),
{
    reveal(semantics::perform);
    lemma_proceed(m);
}

proof fn lemma_proceed(m: MachineView)
    ensures
        forall|effect: Effect|
            effect_keeps(m.vm, effect) ==> keeps(m, #[trigger] semantics::proceed(m, effect)),
{
}

pub(crate) proof fn lemma_pass_arguments(
    vm: VMView,
    passed: Seq<RegisterView>,
    registers: Seq<u8>,
    i: int,
    method: u16,
    site: u32,
    lenient: bool,
)
    ensures
        match semantics::pass_arguments(vm, passed, registers, i, method, site, lenient) {
            Passing::Passed(after, _) => same_setup(vm, after) && after.frames == vm.frames && after.heap == vm.heap
                && after.instances == vm.instances,
            Passing::Fault(after, _) => same_setup(vm, after) && after.frames == vm.frames && after.heap == vm.heap
                && after.instances == vm.instances,
        },
    decreases registers.len() - i,
{
    if 0 <= i < registers.len() {
        if let Some(argument) = vm.register(registers[i] as int) {
            lemma_pass_arguments(
                VMView { skip_next_breakpoint: false, ..vm },
                passed.push(argument),
                registers,
                i + 1,
                method,
                site,
                lenient,
            );
            lemma_pass_arguments(vm, passed.push(argument), registers, i + 1, method, site, lenient);
        }
    }
}

proof fn lemma_invoke(m: MachineView, method: u16, count: Option<u8>, registers: Seq<u8>)
    ensures
        keeps(m, semantics::invoke(m, method, count, registers)),
{
    let site = if count is Some {
        m.method
    } else {
        m.vm.current.method
    };
    lemma_pass_arguments(m.vm, Seq::empty(), registers, 0, method, site, count is None);
    match semantics::pass_arguments(m.vm, Seq::empty(), registers, 0, method, site, count is None) {
        Passing::Passed(vm, arguments) => {
            let called = semantics::saved(vm, method);
            assert(called.frames.drop_last() =~= vm.frames);
        },
        Passing::Fault(_, _) => {},
    }
}

proof fn lemma_return(m: MachineView, register: u8)
    ensures
        keeps(m, semantics::return_value(m, register)),
        keeps(m, semantics::return_void(m)),
{
}

proof fn lemma_initialize(m: MachineView)
    ensures
        forall|vm: VMView, method: MethodData|
            preserved(m.vm, vm) && vm.frames == m.vm.frames ==> keeps(m, #[trigger] semantics::initialize(m.with_vm(vm), method)),
{
    assert forall|vm: VMView, method: MethodData| preserved(m.vm, vm) && vm.frames == m.vm.frames implies keeps(
        m,
        #[trigger] semantics::initialize(m.with_vm(vm), method),
    ) by {
        let waiting = FrameView { state: ExecutionState::RunningStaticInitializer, ..vm.current };
        assert(m.vm.frames.push(waiting).drop_last() =~= m.vm.frames);
    }
}

proof fn lemma_read_static(vm: VMView, dst: usize, name: Seq<char>, field: u16)
    ensures
        effect_keeps(vm, semantics::read_static(vm, dst, name, field)),
{
}

proof fn lemma_finish(m: MachineView, vm: VMView, dst: usize, name: Seq<char>, ty: Option<Seq<char>>, field: u16, address: Option<u32>)
    requires
        preserved(m.vm, vm),
        vm.frames == m.vm.frames,
    ensures
        keeps(m, semantics::finish_static_get(m.with_vm(vm), dst, name, ty, field, address)),
{
    let given = semantics::with_ambient(vm, name, ty, address);
    assert(preserved(m.vm, given) && given.frames == m.vm.frames);
    let running = if given.current.state == ExecutionState::RunningStaticInitializer {
        given.in_state(ExecutionState::Running)
    } else {
        given
    };
    lemma_read_static(running, dst, name, field);
    let effect = semantics::read_static(running, dst, name, field);
    let settled = m.with_vm(running);
    lemma_proceed(settled);
    assert(semantics::proceed(m.with_vm(vm), effect) == semantics::proceed(settled, effect));
    assert(keeps(settled, semantics::proceed(settled, effect)));
}

proof fn lemma_static_get(m: MachineView, dst: usize, field: u16, choice: Choice)
    ensures
        keeps(m, semantics::static_get(m, dst, field, choice)),
{
    assert forall|vm: VMView, name: Seq<char>, ty: Option<Seq<char>>|
        preserved(m.vm, vm) && vm.frames == m.vm.frames implies keeps(
        m,
        #[trigger] semantics::finish_static_get(m.with_vm(vm), dst, name, ty, field, choice.second),
    ) by {
        lemma_finish(m, vm, dst, name, ty, field, choice.second);
    }
    assert(m.with_vm(m.vm) == m);
    lemma_initialize(m);
    assert(forall|name: Seq<char>, class: Class|
        {
            let ready = #[trigger] semantics::preset(m.vm, name, class, field, choice.first);
            preserved(m.vm, ready) && ready.frames == m.vm.frames
        });
}

proof fn lemma_perform(m: MachineView, operation: Operation, choice: Choice)
    ensures
        keeps(m, semantics::perform(m, operation, choice)),
{
    reveal(semantics::perform);
    match operation {
        Operation::Invoke { method, arguments } => lemma_invoke(m, method, None, arguments@),
        Operation::InvokeStatic { count, method, arguments } => lemma_invoke(m, method, Some(count), arguments@),
        Operation::ReturnVoid => lemma_return(m, 0),
        Operation::Return { register } => lemma_return(m, register),
        Operation::StaticGetObject { dst, field } => lemma_static_get(m, dst, field, choice),
        Operation::Test { .. } | Operation::TestZero { .. } | Operation::Goto { .. } | Operation::Switch { .. } => {
            lemma_branches(m, operation, choice);
        },
        _ => {
            lemma_applied(m.vm, m.code, m.dex, operation, choice);
            lemma_proceed(m);
        },
    }
}

/// An instruction keeps what the machine was set up with; no object and no
/// static field disappears; the stack changes at its top alone. A run that goes
/// on has executed one instruction more, fewer than the limit before, and has a
/// current instruction.
pub proof fn law_step_keeps(m: MachineView, choice: Choice)
    ensures
        match semantics::step(m, choice) {
            Status::Running(next) => preserved(m.vm, next.vm) && next.steps == m.steps + 1 && m.steps < MAX_STEPS && 0 <= next.index
                < next.code.insns@.len(),
            Status::Done(vm, _) => preserved(m.vm, vm),
            Status::Call(vm, call) => preserved(m.vm, vm) && call.steps == m.steps + 1,
            Status::Stuck => true,
        },
{
    if m.steps < MAX_STEPS {
        let begun = semantics::begun(m);
        lemma_perform(begun, m.entry().2.operation(), choice);
        assert(keeps(begun, semantics::step(m, choice)));
        assert(preserved(m.vm, begun.vm));
    }
}

// ---------------------------------------------------------------------------
// What an instruction changes of objects
// ---------------------------------------------------------------------------

/// No object has changed, except perhaps the one at `changed`.
pub open spec fn others_unchanged(before: Map<u32, ValueView>, after: Map<u32, ValueView>, changed: Option<u32>) -> bool {
    forall|address: u32|
        #[trigger] before.contains_key(address) && changed != Some(address) ==> after.contains_key(address) && after[address]
            == before[address]
}

/// What a status says of objects: none has changed, except perhaps one.
pub open spec fn spares_objects(before: Map<u32, ValueView>, after: Status, changed: Option<u32>) -> bool {
    match after {
        Status::Running(next) => others_unchanged(before, next.vm.heap, changed),
        Status::Done(vm, _) => others_unchanged(before, vm.heap, changed),
        Status::Call(vm, _) => others_unchanged(before, vm.heap, changed),
        Status::Stuck => true,
    }
}

/// What an effect says of objects.
spec fn effect_spares(before: Map<u32, ValueView>, effect: Effect, changed: Option<u32>) -> bool {
    match effect {
        Effect::Next(vm) => others_unchanged(before, vm.heap, changed),
        Effect::Fault(vm, _) => others_unchanged(before, vm.heap, changed),
        Effect::Stuck => true,
    }
}

/// The object that an instruction may change.
pub open spec fn changed_object(vm: VMView, dex: DexFile, operation: Operation) -> Option<u32> {
    match operation {
        Operation::ArrayPut { array, .. } => referred_address(vm, array),
        Operation::FillArrayData { array, .. } => referred_address(vm, array),
        Operation::InstancePutObject { object, .. } => referred_address(vm, object),
        Operation::InstancePut { object, field, .. } => match (vm.referred(object as int), semantics::field_name(dex, field)) {
            (Some(ValueView::Object(instance)), Ok(name)) => if instance.instances.contains_key(name) {
                Some(instance.instances[name])
            } else {
                referred_address(vm, object)
            },
            _ => None,
        },
        _ => None,
    }
}

/// The heap address in a register.
pub open spec fn referred_address(vm: VMView, register: usize) -> Option<u32> {
    match vm.register(register as int) {
        Some(RegisterView::Reference(_, address)) => Some(address),
        _ => None,
    }
}

proof fn lemma_proceed_spares(m: MachineView, before: Map<u32, ValueView>, changed: Option<u32>)
    ensures
        forall|effect: Effect|
            effect_spares(before, effect, changed) ==> spares_objects(before, #[trigger] semantics::proceed(m, effect), changed),
{
}

proof fn lemma_makes_spare(vm: VMView, code: Arc<CodeItem>, dex: Arc<DexFile>, operation: Operation, choice: Choice)
    requires
        semantics::is_allowed(vm, choice),
        operation is ConstString || operation is NewInstance || operation is NewArray || operation is FilledNewArray,
    ensures
        effect_spares(vm.heap, semantics::applied(vm, *code, *dex, operation, choice), None),
{
    reveal(semantics::applied);
}

proof fn lemma_changes_spare(vm: VMView, code: Arc<CodeItem>, dex: Arc<DexFile>, operation: Operation, choice: Choice)
    requires
        semantics::is_allowed(vm, choice),
        operation is ArrayPut || operation is FillArrayData || operation is InstancePut || operation is InstancePutObject,
    ensures
        effect_spares(
            vm.heap,
            semantics::applied(vm, *code, *dex, operation, choice),
            changed_object(vm, *dex, operation),
        ),
{
    reveal(semantics::applied);
}

proof fn lemma_reads_spare(vm: VMView, code: Arc<CodeItem>, dex: Arc<DexFile>, operation: Operation, choice: Choice)
    requires
        operation is ArrayLength || operation is ArrayGet || operation is InstanceGet || operation is InstanceGetObject
            || operation is StaticPutObject,
    ensures
        effect_spares(vm.heap, semantics::applied(vm, *code, *dex, operation, choice), None),
{
    reveal(semantics::applied);
}

proof fn lemma_computes_spare(vm: VMView, code: Arc<CodeItem>, dex: Arc<DexFile>, operation: Operation, choice: Choice)
    requires
        operation is Nothing || operation is Move || operation is MoveResult || operation is Arithmetic
            || operation is ArithmeticLiteral || operation is Truncate || operation is Literal,
    ensures
        effect_spares(vm.heap, semantics::applied(vm, *code, *dex, operation, choice), None),
{
    reveal(semantics::applied);
}

proof fn lemma_static_get_spares(m: MachineView, dst: usize, field: u16, choice: Choice)
    requires
        semantics::is_allowed(m.vm, choice),
    ensures
        spares_objects(m.vm.heap, semantics::static_get(m, dst, field, choice), None),
{
    let before = m.vm.heap;
    assert forall|vm: VMView, name: Seq<char>, ty: Option<Seq<char>>|
        others_unchanged(before, vm.heap, None) && vm.builtins == m.vm.builtins implies spares_objects(
        before,
        #[trigger] semantics::finish_static_get(m.with_vm(vm), dst, name, ty, field, choice.second),
        None,
    ) by {
        let given = semantics::with_ambient(vm, name, ty, choice.second);
        assert(others_unchanged(before, given.heap, None));
        let running = if given.current.state == ExecutionState::RunningStaticInitializer {
            given.in_state(ExecutionState::Running)
        } else {
            given
        };
        assert(effect_spares(before, semantics::read_static(running, dst, name, field), None));
        lemma_proceed_spares(m.with_vm(vm), before, None);
    }
    assert(m.with_vm(m.vm) == m);
    assert(forall|name: Seq<char>, class: Class|
        others_unchanged(before, (#[trigger] semantics::preset(m.vm, name, class, field, choice.first)).heap, None));
    assert(forall|vm: VMView, method: MethodData|
        others_unchanged(before, vm.heap, None) ==> spares_objects(
            before,
            #[trigger] semantics::initialize(m.with_vm(vm), method),
            None,
        ));
}

proof fn lemma_calls_spare(m: MachineView, method: u16, count: Option<u8>, registers: Seq<u8>)
    ensures
        spares_objects(m.vm.heap, semantics::invoke(m, method, count, registers), None),
{
    let site = if count is Some {
        m.method
    } else {
        m.vm.current.method
    };
    lemma_pass_arguments(m.vm, Seq::empty(), registers, 0, method, site, count is None);
}

proof fn lemma_branches_spare(m: MachineView, operation: Operation, choice: Choice)
    requires
        operation is Test || operation is TestZero || operation is Goto || operation is Switch || operation is ReturnVoid
            || operation is Return,
    ensures
        spares_objects(m.vm.heap, semantics::perform(m, operation, choice), None),
{
    reveal(semantics::perform);
    lemma_proceed_spares(m, m.vm.heap, None);
}

/// An instruction changes no object but the one that it stores into: an array
/// item, the data of an array or a field. What it makes is put where nothing was.
pub proof fn law_step_spares_objects(m: MachineView, choice: Choice)
    requires
        semantics::is_allowed(m.vm, choice),
    ensures
        spares_objects(
            m.vm.heap,
            semantics::step(m, choice),
            changed_object(m.vm, *m.dex, m.entry().2.operation()),
        ),
{
    if m.steps < MAX_STEPS {
        let begun = semantics::begun(m);
        let operation = m.entry().2.operation();
        assert(begun.vm.heap == m.vm.heap);
        assert(changed_object(begun.vm, *m.dex, operation) == changed_object(m.vm, *m.dex, operation));
        reveal(semantics::perform);
        match operation {
            Operation::Invoke { method, arguments } => lemma_calls_spare(begun, method, None, arguments@),
            Operation::InvokeStatic { count, method, arguments } => lemma_calls_spare(begun, method, Some(count), arguments@),
            Operation::StaticGetObject { dst, field } => lemma_static_get_spares(begun, dst, field, choice),
            Operation::Test { .. } | Operation::TestZero { .. } | Operation::Goto { .. } | Operation::Switch { .. }
            | Operation::ReturnVoid | Operation::Return { .. } => lemma_branches_spare(begun, operation, choice),
            Operation::ConstString { .. } | Operation::NewInstance { .. } | Operation::NewArray { .. }
            | Operation::FilledNewArray { .. } => {
                lemma_makes_spare(begun.vm, begun.code, begun.dex, operation, choice);
                lemma_proceed_spares(begun, m.vm.heap, None);
            },
            Operation::ArrayPut { .. } | Operation::FillArrayData { .. } | Operation::InstancePut { .. }
            | Operation::InstancePutObject { .. } => {
                lemma_changes_spare(begun.vm, begun.code, begun.dex, operation, choice);
                lemma_change_spares(begun, operation);
            },
            Operation::ArrayLength { .. } | Operation::ArrayGet { .. } | Operation::InstanceGet { .. }
            | Operation::InstanceGetObject { .. } | Operation::StaticPutObject { .. } => {
                lemma_reads_spare(begun.vm, begun.code, begun.dex, operation, choice);
                lemma_proceed_spares(begun, m.vm.heap, None);
            },
            _ => {
                lemma_computes_spare(begun.vm, begun.code, begun.dex, operation, choice);
                lemma_proceed_spares(begun, m.vm.heap, None);
            },
        }
    }
}

proof fn lemma_change_spares(m: MachineView, operation: Operation)
    ensures
        forall|effect: Effect|
            effect_spares(m.vm.heap, effect, changed_object(m.vm, *m.dex, operation)) ==> spares_objects(
                m.vm.heap,
                #[trigger] semantics::proceed(m, effect),
                changed_object(m.vm, *m.dex, operation),
            ),
{
}

// ---------------------------------------------------------------------------
// Where a run stands
// ---------------------------------------------------------------------------

/// A frame at whose address there is an instruction.
pub open spec fn is_placed(frame: FrameView) -> bool {
    frame.code.index_at(frame.pc) is Some
}

/// All of these frames are at an instruction.
pub open spec fn are_placed(frames: Seq<FrameView>) -> bool {
    forall|i: int| 0 <= i < frames.len() ==> is_placed(#[trigger] frames[i])
}

/// A run that stands where its frame says: in the frame's method, at the
/// instruction at the frame's address. The frames that wait do so at an
/// instruction each.
pub open spec fn anchored(m: MachineView) -> bool {
    &&& m.code == m.vm.current.code
    &&& m.dex == m.vm.current.dex
    &&& m.code.index_at(m.vm.current.pc) == Some(m.index)
    &&& are_placed(m.vm.frames)
}

/// A run that goes on stands where its frame says; one that waits for a builtin
/// will.
pub open spec fn anchors(after: Status) -> bool {
    match after {
        Status::Running(next) => anchored(next),
        Status::Call(vm, call) => call.code == vm.current.code && call.dex == vm.current.dex && are_placed(vm.frames),
        _ => true,
    }
}

/// What a run needs to go on where its frame says.
spec fn in_place(m: MachineView) -> bool {
    &&& m.code == m.vm.current.code
    &&& m.dex == m.vm.current.dex
    &&& are_placed(m.vm.frames)
}

proof fn lemma_proceed_anchors(m: MachineView)
    ensures
        forall|effect: Effect|
            (effect matches Effect::Next(vm) ==> in_place(m.with_vm(vm))) ==> anchors(#[trigger] semantics::proceed(m, effect)),
{
}

proof fn lemma_branches_anchors(m: MachineView, operation: Operation, choice: Choice)
    requires
        in_place(m),
        operation is Test || operation is TestZero || operation is Goto || operation is Switch,
    ensures
        anchors(semantics::perform(m, operation, choice)),
{
    reveal(semantics::perform);
    lemma_proceed_anchors(m);
}

proof fn lemma_push_placed(frames: Seq<FrameView>, frame: FrameView)
    requires
        are_placed(frames),
        is_placed(frame),
    ensures
        are_placed(frames.push(frame)),
{
    assert forall|i: int| 0 <= i < frames.push(frame).len() implies is_placed(#[trigger] frames.push(frame)[i]) by {
        if i < frames.len() {
            assert(frames.push(frame)[i] == frames[i]);
        }
    }
}

pub(crate) proof fn lemma_pass_stays(vm: VMView, passed: Seq<RegisterView>, registers: Seq<u8>, i: int, method: u16, site: u32, lenient: bool)
    ensures
        match semantics::pass_arguments(vm, passed, registers, i, method, site, lenient) {
            Passing::Passed(after, _) => after.current == vm.current,
            Passing::Fault(after, _) => after.current == (FrameView {
                state: after.current.state,
                break_register: after.current.break_register,
                ..vm.current
            }),
        },
    decreases registers.len() - i,
{
    if 0 <= i < registers.len() {
        if let Some(argument) = vm.register(registers[i] as int) {
            lemma_pass_stays(
                VMView { skip_next_breakpoint: false, ..vm },
                passed.push(argument),
                registers,
                i + 1,
                method,
                site,
                lenient,
            );
            lemma_pass_stays(vm, passed.push(argument), registers, i + 1, method, site, lenient);
        }
    }
}

proof fn lemma_invoke_anchors(m: MachineView, method: u16, count: Option<u8>, registers: Seq<u8>)
    requires
        in_place(m),
        is_placed(m.vm.current),
    ensures
        anchors(semantics::invoke(m, method, count, registers)),
{
    let site = if count is Some {
        m.method
    } else {
        m.vm.current.method
    };
    lemma_pass_arguments(m.vm, Seq::empty(), registers, 0, method, site, count is None);
    lemma_pass_stays(m.vm, Seq::empty(), registers, 0, method, site, count is None);
    match semantics::pass_arguments(m.vm, Seq::empty(), registers, 0, method, site, count is None) {
        Passing::Passed(vm, arguments) => {
            lemma_push_placed(vm.frames, FrameView { break_register: 0, ..vm.current });
        },
        Passing::Fault(_, _) => {},
    }
}

proof fn lemma_return_anchors(m: MachineView, register: u8)
    requires
        are_placed(m.vm.frames),
    ensures
        anchors(semantics::return_value(m, register)),
        anchors(semantics::return_void(m)),
        semantics::return_value(m, register) !is Stuck,
{
    if m.vm.frames.len() > 0 {
        assert(is_placed(m.vm.frames[m.vm.frames.len() - 1]));
        assert(are_placed(m.vm.frames.drop_last())) by {
            assert forall|i: int| 0 <= i < m.vm.frames.drop_last().len() implies is_placed(
                #[trigger] m.vm.frames.drop_last()[i],
            ) by {
                assert(is_placed(m.vm.frames[i]));
            }
        }
    }
}

proof fn lemma_initialize_anchors(m: MachineView, vm: VMView)
    requires
        in_place(m),
        is_placed(m.vm.current),
        vm.current == m.vm.current,
        vm.frames == m.vm.frames,
    ensures
        forall|method: MethodData| anchors(#[trigger] semantics::initialize(m.with_vm(vm), method)),
{
    lemma_push_placed(
        vm.frames,
        FrameView { state: ExecutionState::RunningStaticInitializer, ..vm.current },
    );
}

proof fn lemma_finish_anchors(m: MachineView, vm: VMView, dst: usize, name: Seq<char>, ty: Option<Seq<char>>, field: u16, address: Option<u32>)
    requires
        in_place(m),
        vm.current == m.vm.current,
        vm.frames == m.vm.frames,
    ensures
        anchors(semantics::finish_static_get(m.with_vm(vm), dst, name, ty, field, address)),
{
    let given = semantics::with_ambient(vm, name, ty, address);
    let running = if given.current.state == ExecutionState::RunningStaticInitializer {
        given.in_state(ExecutionState::Running)
    } else {
        given
    };
    lemma_read_static(running, dst, name, field);
    lemma_proceed_anchors(m.with_vm(vm));
}

proof fn lemma_static_get_anchors(m: MachineView, dst: usize, field: u16, choice: Choice)
    requires
        in_place(m),
        is_placed(m.vm.current),
    ensures
        anchors(semantics::static_get(m, dst, field, choice)),
{
    assert forall|vm: VMView, name: Seq<char>, ty: Option<Seq<char>>|
        vm.current == m.vm.current && vm.frames == m.vm.frames implies anchors(
        #[trigger] semantics::finish_static_get(m.with_vm(vm), dst, name, ty, field, choice.second),
    ) by {
        lemma_finish_anchors(m, vm, dst, name, ty, field, choice.second);
    }
    assert forall|vm: VMView, method: MethodData| vm.current == m.vm.current && vm.frames == m.vm.frames implies anchors(
        #[trigger] semantics::initialize(m.with_vm(vm), method),
    ) by {
        lemma_initialize_anchors(m, vm);
    }
    assert(m.with_vm(m.vm) == m);
}

proof fn lemma_perform_anchors(m: MachineView, operation: Operation, choice: Choice)
    requires
        in_place(m),
        is_placed(m.vm.current),
    ensures
        anchors(semantics::perform(m, operation, choice)),
{
    reveal(semantics::perform);
    match operation {
        Operation::Invoke { method, arguments } => lemma_invoke_anchors(m, method, None, arguments@),
        Operation::InvokeStatic { count, method, arguments } => lemma_invoke_anchors(m, method, Some(count), arguments@),
        Operation::ReturnVoid => lemma_return_anchors(m, 0),
        Operation::Return { register } => lemma_return_anchors(m, register),
        Operation::StaticGetObject { dst, field } => lemma_static_get_anchors(m, dst, field, choice),
        Operation::Test { .. } | Operation::TestZero { .. } | Operation::Goto { .. } | Operation::Switch { .. } => {
            lemma_branches_anchors(m, operation, choice);
        },
        _ => {
            lemma_applied(m.vm, m.code, m.dex, operation, choice);
            lemma_proceed_anchors(m);
        },
    }
}

/// A run that stands where its frame says goes on to stand there, through calls,
/// returns and static initializers; and it never returns to a frame that is not
/// at an instruction.
pub proof fn law_step_stays_anchored(m: MachineView, choice: Choice)
    requires
        anchored(m),
    ensures
        anchors(semantics::step(m, choice)),
        m.entry().2.operation() is Return ==> semantics::step(m, choice) !is Stuck,
{
    if m.steps < MAX_STEPS {
        let begun = semantics::begun(m);
        lemma_perform_anchors(begun, m.entry().2.operation(), choice);
        if let Operation::Return { register } = m.entry().2.operation() {
            reveal(semantics::perform);
            lemma_return_anchors(begun, register);
        }
    }
}

/// A method that is run from its first instruction starts where its frame says.
pub proof fn law_start_is_anchored(vm: VMView, method: u32, identifier: Seq<char>, code: Arc<CodeItem>, arguments: Seq<RegisterView>)
    ensures
        anchors(semantics::opening(vm, method, identifier, code, arguments)),
{
}

/// What an earlier run left in its frames has no influence on a method that is
/// run from its first instruction; what it left on the heap, in static fields and
/// of a stop has.
pub proof fn law_start_forgets(a: VMView, b: VMView, method: u32, identifier: Seq<char>, code: Arc<CodeItem>, arguments: Seq<RegisterView>)
    requires
        same_setup(a, b),
        a.heap == b.heap,
        a.instances == b.instances,
        a.skip_next_breakpoint == b.skip_next_breakpoint,
        a.current.size == b.current.size,
        a.current.break_register == b.current.break_register,
    ensures
        semantics::opening(a, method, identifier, code, arguments) matches Status::Running(_) ==> semantics::opening(
            a,
            method,
            identifier,
            code,
            arguments,
        ) == semantics::opening(b, method, identifier, code, arguments),
{
}

/// A run that waits for a builtin goes on where its frame says, if the builtin
/// leaves the place and the stack of the machine alone.
pub proof fn law_resume_stays_anchored(before: VMView, call: CallView, after: VMView, answer: Result<(), ExceptionView>)
    requires
        anchors(Status::Call(before, call)),
        after.current.code == before.current.code,
        after.current.dex == before.current.dex,
        after.frames == before.frames,
    ensures
        anchors(semantics::answered(after, call, answer)),
{
    if after.frames.len() > 0 {
        assert(are_placed(after.frames.drop_last())) by {
            assert forall|i: int| 0 <= i < after.frames.drop_last().len() implies is_placed(
                #[trigger] after.frames.drop_last()[i],
            ) by {
                assert(is_placed(after.frames[i]));
            }
        }
    }
}

/// Going on after a builtin has answered keeps the count of instructions.
pub proof fn law_resume_keeps_count(vm: VMView, call: CallView, answer: Result<(), ExceptionView>)
    ensures
        semantics::answered(vm, call, answer) matches Status::Running(m) ==> m.steps == call.steps,
        !(semantics::answered(vm, call, answer) is Call),
{
}

// ---------------------------------------------------------------------------
// Whole runs
// ---------------------------------------------------------------------------

/// A run keeps what the machine was set up with, and no object and no static
/// field disappears. As long as it goes on it has executed one instruction for
/// each choice.
pub proof fn law_run_keeps(m: MachineView, choices: Seq<Choice>)
    ensures
        match semantics::run(Status::Running(m), choices) {
            Status::Running(next) => {
                &&& same_setup(m.vm, next.vm)
                &&& objects_remain(m.vm, next.vm)
                &&& next.steps == m.steps + choices.len()
            },
            Status::Done(vm, _) => same_setup(m.vm, vm) && objects_remain(m.vm, vm),
            Status::Call(vm, call) => same_setup(m.vm, vm) && objects_remain(m.vm, vm),
            Status::Stuck => true,
        },
    decreases choices.len(),
{
    if choices.len() > 0 {
        law_run_keeps(m, choices.drop_last());
        if let Status::Running(last) = semantics::run(Status::Running(m), choices.drop_last()) {
            law_step_keeps(last, choices.last());
        }
    }
}

/// A run can be cut in two: what the second part begins with is how far the
/// first one came.
pub proof fn law_run_composes(start: Status, first: Seq<Choice>, second: Seq<Choice>)
    ensures
        semantics::run(start, first + second) == semantics::run(semantics::run(start, first), second),
        semantics::are_drawn(start, first + second) <==> semantics::are_drawn(start, first) && semantics::are_drawn(
            semantics::run(start, first),
            second,
        ),
    decreases second.len(),
{
    if second.len() == 0 {
        assert(first + second =~= first);
    } else {
        law_run_composes(start, first, second.drop_last());
        assert((first + second).drop_last() =~= first + second.drop_last());
        assert((first + second).last() == second.last());
    }
}

/// A run that has ended stays as it ended.
pub proof fn law_ended_run_stays(ended: Status, choices: Seq<Choice>)
    requires
        !(ended is Running),
    ensures
        semantics::run(ended, choices) == ended,
    decreases choices.len(),
{
    if choices.len() > 0 {
        law_ended_run_stays(ended, choices.drop_last());
    }
}

/// A run ends: it executes no more instructions than it may, whatever addresses
/// allocation gives.
pub proof fn law_run_ends(m: MachineView, choices: Seq<Choice>)
    requires
        m.steps >= 0,
        choices.len() > MAX_STEPS,
    ensures
        semantics::run(Status::Running(m), choices) !is Running,
{
    law_run_keeps(m, choices.drop_last());
    if let Status::Running(last) = semantics::run(Status::Running(m), choices.drop_last()) {
        law_step_keeps(last, choices.last());
    }
}

/// One limit holds over the whole run, the parts before and after the calls of
/// builtins together: after a builtin has answered, the run executes no more
/// instructions than were left before the call.
pub proof fn law_resumed_run_ends(vm: VMView, call: CallView, answer: Result<(), ExceptionView>, choices: Seq<Choice>)
    requires
        call.steps >= 0,
        choices.len() > 0,
        call.steps + choices.len() > MAX_STEPS,
    ensures
        !(semantics::run(semantics::answered(vm, call, answer), choices) is Running),
{
    let start = semantics::answered(vm, call, answer);
    law_resume_keeps_count(vm, call, answer);
    if let Status::Running(m) = start {
        law_run_keeps(m, choices.drop_last());
        if let Status::Running(last) = semantics::run(start, choices.drop_last()) {
            law_step_keeps(last, choices.last());
        }
    } else {
        law_ended_run_stays(start, choices);
    }
}

/// A run that executes as many instructions as it may, in all the methods that
/// it calls, without ending, is cut off by an exception.
pub proof fn law_run_is_cut_off(vm: VMView, address: u32, choices: Seq<Choice>, next: Choice)
    requires
        choices.len() == MAX_STEPS,
    ensures
        match semantics::run(semantics::begin(vm, address), choices) {
            Status::Running(last) => semantics::run(semantics::begin(vm, address), choices.push(next)) == Status::Done(
                last.vm,
                Err(ExceptionView::StackOverflow),
            ),
            ended => semantics::run(semantics::begin(vm, address), choices.push(next)) == ended,
        },
{
    let start = semantics::begin(vm, address);
    assert(choices.push(next).drop_last() =~= choices);
    if let Status::Running(m) = start {
        law_run_keeps(m, choices);
    } else {
        law_ended_run_stays(start, choices);
    }
}

/// A run that stands where its frame says stays so to its end.
pub proof fn law_run_stays_anchored(m: MachineView, choices: Seq<Choice>)
    requires
        anchored(m),
    ensures
        anchors(semantics::run(Status::Running(m), choices)),
    decreases choices.len(),
{
    if choices.len() > 0 {
        law_run_stays_anchored(m, choices.drop_last());
        if let Status::Running(last) = semantics::run(Status::Running(m), choices.drop_last()) {
            law_step_stays_anchored(last, choices.last());
        }
    }
}

/// The run never has fewer than `depth` frames waiting before its last
/// instruction has been executed.
pub open spec fn stays_above(m: MachineView, choices: Seq<Choice>, depth: int) -> bool
    decreases choices.len(),
{
    choices.len() > 0 ==> {
        &&& stays_above(m, choices.drop_last(), depth)
        &&& semantics::run(Status::Running(m), choices) matches Status::Running(next) ==> next.vm.frames.len() >= depth
    }
}

/// What runs above a frame cannot change it: the frames that waited when the run
/// began are untouched as long as none of them was returned to.
pub proof fn law_waiting_frames_are_untouched(m: MachineView, choices: Seq<Choice>, depth: int)
    requires
        0 <= depth <= m.vm.frames.len(),
        stays_above(m, choices, depth),
    ensures
        semantics::run(Status::Running(m), choices) matches Status::Running(next) ==> next.vm.frames.take(depth) == m.vm.frames.take(
            depth,
        ),
    decreases choices.len(),
{
    if choices.len() > 0 {
        law_waiting_frames_are_untouched(m, choices.drop_last(), depth);
        if let Status::Running(last) = semantics::run(Status::Running(m), choices.drop_last()) {
            law_step_keeps(last, choices.last());
            if let Status::Running(next) = semantics::run(Status::Running(m), choices) {
                assert(last.vm.frames.len() >= depth) by {
                    reveal_with_fuel(stays_above, 2);
                }
                assert(next.vm.frames.take(depth) =~= last.vm.frames.take(depth));
            }
        }
    }
}

// ---------------------------------------------------------------------------
// Calls and returns
// ---------------------------------------------------------------------------

/// A return gives the caller its frame back, with the result, and goes on behind
/// the call.
pub proof fn law_return_restores(m: MachineView, register: u8, next: MachineView)
    requires
        m.vm.frames.len() > 0,
        m.vm.frames.last().state != ExecutionState::RunningStaticInitializer,
        semantics::return_value(m, register) == Status::Running(next),
    ensures
        ({
            let caller = m.vm.frames.last();
            let size = caller.code.insns@[caller.code.index_at(caller.pc)->0].0.0 / 2;
            let result = match m.vm.register(register as int) {
                Some(value) => value,
                None => m.vm.current.result,
            };
            &&& next.vm.frames == m.vm.frames.drop_last()
            &&& next.vm.current == (FrameView { result, pc: caller.pc.wrapping_add(size), last_size: size, ..caller })
            &&& next.code == caller.code
            &&& next.dex == caller.dex
            &&& next.vm.heap == m.vm.heap
            &&& next.vm.instances == m.vm.instances
        }),
{
}

/// A call leaves the caller as it was: when the method that was called returns,
/// whatever ran meanwhile, the caller has its registers back and goes on behind
/// the call, with the result.
pub proof fn law_call_returns(
    m: MachineView,
    method: u16,
    count: Option<u8>,
    registers: Seq<u8>,
    entered: MachineView,
    choices: Seq<Choice>,
    last: MachineView,
    register: u8,
    next: MachineView,
)
    requires
        m.vm.current.state != ExecutionState::RunningStaticInitializer,
        semantics::invoke(m, method, count, registers) == Status::Running(entered),
        stays_above(entered, choices, entered.vm.frames.len() as int),
        semantics::run(Status::Running(entered), choices) == Status::Running(last),
        last.vm.frames.len() == entered.vm.frames.len(),
        semantics::return_value(last, register) == Status::Running(next),
    ensures
        ({
            let caller = m.vm.current;
            let size = caller.code.insns@[caller.code.index_at(caller.pc)->0].0.0 / 2;
            let result = match last.vm.register(register as int) {
                Some(value) => value,
                None => last.vm.current.result,
            };
            &&& next.vm.frames == m.vm.frames
            &&& next.vm.current == (FrameView {
                result,
                pc: caller.pc.wrapping_add(size),
                last_size: size,
                break_register: 0,
                ..caller
            })
            &&& next.code == caller.code
            &&& next.dex == caller.dex
        }),
{
    let site = if count is Some {
        m.method
    } else {
        m.vm.current.method
    };
    lemma_pass_arguments(m.vm, Seq::empty(), registers, 0, method, site, count is None);
    lemma_pass_stays(m.vm, Seq::empty(), registers, 0, method, site, count is None);
    let waiting = FrameView { break_register: 0, ..m.vm.current };
    assert(entered.vm.frames == m.vm.frames.push(waiting));
    let depth = entered.vm.frames.len() as int;
    law_waiting_frames_are_untouched(entered, choices, depth);
    assert(last.vm.frames.take(depth) =~= last.vm.frames);
    assert(entered.vm.frames.take(depth) =~= entered.vm.frames);
    assert(m.vm.frames.push(waiting).drop_last() =~= m.vm.frames);
    law_return_restores(last, register, next);
}

/// When a static initializer has returned, the instruction that needed it is
/// executed again, in the frame that it was met in.
pub proof fn law_initializer_goes_back(m: MachineView, next: MachineView)
    requires
        m.vm.frames.len() > 0,
        m.vm.frames.last().state == ExecutionState::RunningStaticInitializer,
        semantics::return_void(m) == Status::Running(next),
    ensures
        next.vm.current == m.vm.frames.last(),
        next.vm.frames == m.vm.frames.drop_last(),
        next.code == m.vm.frames.last().code,
        next.code.index_at(m.vm.frames.last().pc) == Some(next.index),
{
}

/// No initializer is run twice for one instruction: after it has run, reading the
/// field calls nothing, and the method runs on as usual.
pub proof fn law_initializer_runs_once(m: MachineView, dst: usize, field: u16, choice: Choice)
    requires
        m.vm.current.state == ExecutionState::RunningStaticInitializer,
    ensures
        match semantics::static_get(m, dst, field, choice) {
            Status::Running(next) => next.vm.frames == m.vm.frames && next.vm.current.state == ExecutionState::Running,
            Status::Done(vm, result) => vm.frames == m.vm.frames && result is Err,
            _ => false,
        },
{
    if field < m.dex.fields@.len() {
        assert forall|name: Seq<char>, ty: Option<Seq<char>>|
            {
                match #[trigger] semantics::finish_static_get(m, dst, name, ty, field, choice.second) {
                    Status::Running(next) => next.vm.frames == m.vm.frames && next.vm.current.state == ExecutionState::Running,
                    Status::Done(vm, result) => vm.frames == m.vm.frames && result is Err,
                    _ => false,
                }
            } by {
            let given = semantics::with_ambient(m.vm, name, ty, choice.second);
            lemma_read_static(given.in_state(ExecutionState::Running), dst, name, field);
        }
    }
}

/// A method is not called while too many frames wait.
pub proof fn law_depth_is_limited(m: MachineView, method: u16, count: Option<u8>, registers: Seq<u8>)
    requires
        m.vm.frames.len() <= MAX_DEPTH + 1,
    ensures
        match semantics::invoke(m, method, count, registers) {
            Status::Running(next) => next.vm.frames.len() <= MAX_DEPTH + 1,
            Status::Call(vm, _) => vm.frames.len() <= MAX_DEPTH + 1,
            Status::Done(vm, _) => vm.frames.len() <= MAX_DEPTH + 1,
            Status::Stuck => true,
        },
{
    let site = if count is Some {
        m.method
    } else {
        m.vm.current.method
    };
    lemma_pass_arguments(m.vm, Seq::empty(), registers, 0, method, site, count is None);
}

// ---------------------------------------------------------------------------
// How a run finishes
// ---------------------------------------------------------------------------

/// Neither the method that runs nor one that waits is finished.
pub open spec fn is_live(m: MachineView) -> bool {
    &&& m.vm.current.state != ExecutionState::Finished
    &&& are_live(m.vm.frames)
}

/// None of these frames is finished.
pub open spec fn are_live(frames: Seq<FrameView>) -> bool {
    forall|i: int| 0 <= i < frames.len() ==> (#[trigger] frames[i]).state != ExecutionState::Finished
}

/// A run that goes on is not finished; one that ended without an exception is,
/// and nothing waits any more.
pub open spec fn finishes(after: Status) -> bool {
    match after {
        Status::Running(next) => is_live(next),
        Status::Done(vm, Ok(_)) => vm.current.state == ExecutionState::Finished && vm.frames.len() == 0,
        _ => true,
    }
}

/// A run that goes on is not finished, and one that ended did so by an exception.
spec fn lives_on(after: Status) -> bool {
    match after {
        Status::Running(next) => is_live(next),
        Status::Done(_, result) => result is Err,
        _ => true,
    }
}

proof fn lemma_proceed_lives(m: MachineView)
    ensures
        forall|effect: Effect|
            (effect matches Effect::Next(vm) ==> is_live(m.with_vm(vm))) ==> lives_on(#[trigger] semantics::proceed(m, effect)),
{
}

proof fn lemma_branches_live(m: MachineView, operation: Operation, choice: Choice)
    requires
        is_live(m),
        operation is Test || operation is TestZero || operation is Goto || operation is Switch,
    ensures
        lives_on(semantics::perform(m, operation, choice)),
{
    reveal(semantics::perform);
    lemma_proceed_lives(m);
}

proof fn lemma_push_lives(frames: Seq<FrameView>, frame: FrameView)
    requires
        are_live(frames),
        frame.state != ExecutionState::Finished,
    ensures
        are_live(frames.push(frame)),
{
    assert forall|i: int| 0 <= i < frames.push(frame).len() implies (#[trigger] frames.push(frame)[i]).state
        != ExecutionState::Finished by {
        if i < frames.len() {
            assert(frames.push(frame)[i] == frames[i]);
        }
    }
}

proof fn lemma_invoke_lives(m: MachineView, method: u16, count: Option<u8>, registers: Seq<u8>)
    requires
        is_live(m),
    ensures
        lives_on(semantics::invoke(m, method, count, registers)),
{
    let site = if count is Some {
        m.method
    } else {
        m.vm.current.method
    };
    lemma_pass_arguments(m.vm, Seq::empty(), registers, 0, method, site, count is None);
    lemma_pass_stays(m.vm, Seq::empty(), registers, 0, method, site, count is None);
    lemma_push_lives(m.vm.frames, FrameView { break_register: 0, ..m.vm.current });
}

proof fn lemma_return_finishes(m: MachineView, register: u8)
    requires
        is_live(m),
    ensures
        finishes(semantics::return_value(m, register)),
        finishes(semantics::return_void(m)),
{
    if m.vm.frames.len() > 0 {
        assert(m.vm.frames[m.vm.frames.len() - 1].state != ExecutionState::Finished);
        assert(are_live(m.vm.frames.drop_last())) by {
            assert forall|i: int| 0 <= i < m.vm.frames.drop_last().len() implies (#[trigger] m.vm.frames.drop_last()[i]).state
                != ExecutionState::Finished by {
                assert(m.vm.frames[i].state != ExecutionState::Finished);
            }
        }
    }
}

proof fn lemma_static_get_lives(m: MachineView, dst: usize, field: u16, choice: Choice)
    requires
        is_live(m),
    ensures
        lives_on(semantics::static_get(m, dst, field, choice)),
{
    assert forall|vm: VMView, name: Seq<char>, ty: Option<Seq<char>>|
        vm.current == m.vm.current && vm.frames == m.vm.frames implies lives_on(
        #[trigger] semantics::finish_static_get(m.with_vm(vm), dst, name, ty, field, choice.second),
    ) by {
        let given = semantics::with_ambient(vm, name, ty, choice.second);
        let running = if given.current.state == ExecutionState::RunningStaticInitializer {
            given.in_state(ExecutionState::Running)
        } else {
            given
        };
        lemma_read_static(running, dst, name, field);
        lemma_proceed_lives(m.with_vm(vm));
    }
    assert forall|vm: VMView, method: MethodData| vm.current == m.vm.current && vm.frames == m.vm.frames implies lives_on(
        #[trigger] semantics::initialize(m.with_vm(vm), method),
    ) by {
        lemma_push_lives(vm.frames, FrameView { state: ExecutionState::RunningStaticInitializer, ..vm.current });
    }
    assert(m.with_vm(m.vm) == m);
}

/// An instruction ends a run without an exception only where it returns from the
/// last method; the machine is then finished, and nothing waits any more.
pub proof fn law_step_finishes(m: MachineView, choice: Choice)
    requires
        is_live(m),
    ensures
        finishes(semantics::step(m, choice)),
        semantics::step(m, choice) matches Status::Done(_, Ok(_)) ==> m.entry().2.operation() is Return
            || m.entry().2.operation() is ReturnVoid,
{
    if m.steps < MAX_STEPS {
        let begun = semantics::begun(m);
        let operation = m.entry().2.operation();
        reveal(semantics::perform);
        match operation {
            Operation::Invoke { method, arguments } => lemma_invoke_lives(begun, method, None, arguments@),
            Operation::InvokeStatic { count, method, arguments } => lemma_invoke_lives(begun, method, Some(count), arguments@),
            Operation::ReturnVoid => lemma_return_finishes(begun, 0),
            Operation::Return { register } => lemma_return_finishes(begun, register),
            Operation::StaticGetObject { dst, field } => lemma_static_get_lives(begun, dst, field, choice),
            Operation::Test { .. } | Operation::TestZero { .. } | Operation::Goto { .. } | Operation::Switch { .. } => {
                lemma_branches_live(begun, operation, choice);
            },
            _ => {
                lemma_applied(begun.vm, begun.code, begun.dex, operation, choice);
                lemma_proceed_lives(begun);
            },
        }
    }
}

/// A run that ends without an exception has finished, and nothing waits any more.
pub proof fn law_run_finishes(m: MachineView, choices: Seq<Choice>)
    requires
        is_live(m),
    ensures
        finishes(semantics::run(Status::Running(m), choices)),
    decreases choices.len(),
{
    if choices.len() > 0 {
        law_run_finishes(m, choices.drop_last());
        if let Status::Running(last) = semantics::run(Status::Running(m), choices.drop_last()) {
            law_step_finishes(last, choices.last());
        }
    }
}

/// A method that is run from its first instruction is not finished, and nothing
/// waits for it; it has not ended without an exception.
pub proof fn law_start_is_live(vm: VMView, method: u32, identifier: Seq<char>, code: Arc<CodeItem>, arguments: Seq<RegisterView>)
    ensures
        match semantics::opening(vm, method, identifier, code, arguments) {
            Status::Running(m) => is_live(m),
            Status::Done(_, result) => result is Err,
            _ => false,
        },
{
}

} // verus!
