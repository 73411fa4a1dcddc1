//! What holds of the places where the machine stops.

use vstd::prelude::*;
use std::sync::Arc;
use crate::instruction::CodeItem;
use crate::models::{DexFile, MethodData};
use crate::vm::exception::{Breakpoint, BreakpointContext, ExceptionView, ExecutionState};
use crate::vm::laws;
use crate::vm::machine;
use crate::vm::operation::Operation;
use crate::vm::register::RegisterView;
use crate::vm::semantics;
use crate::vm::semantics::{Choice, Effect, MachineView, Passing, Status, MAX_DEPTH, MAX_STEPS};
use crate::vm::state::{FrameView, VMView};

verus! {

/// The machine watches for exactly what it was asked to stop at.
pub open spec fn watches(vm: VMView) -> bool {
    &&& vm.stop_on_array_use == vm.break_points.contains(Breakpoint::ArrayUse)
    &&& vm.stop_on_string_use == vm.break_points.contains(Breakpoint::StringUse)
    &&& vm.stop_on_array_return == vm.break_points.contains(Breakpoint::ArrayReturn)
    &&& vm.stop_on_string_return == vm.break_points.contains(Breakpoint::StringReturn)
}

/// Adding and removing places to stop keeps the machine watching for exactly
/// those that it has.
pub proof fn law_breakpoints_are_watched(vm: VMView, break_point: Breakpoint)
    ensures
        watches(vm) ==> watches(machine::with_breakpoint(vm, break_point)),
        watches(machine::without_breakpoints(vm)),
{
    let after = vm.break_points.push(break_point);
    assert forall|b: Breakpoint| after.contains(b) <==> vm.break_points.contains(b) || b == break_point by {
        if vm.break_points.contains(b) {
            let i = choose|i: int| 0 <= i < vm.break_points.len() && vm.break_points[i] == b;
            assert(after[i] == b);
        }
        assert(after[after.len() - 1] == break_point);
    }
}

/// What the machine watches for is not changed by a run.
pub proof fn law_run_watches(m: MachineView, choices: Seq<Choice>)
    requires
        watches(m.vm),
    ensures
        match semantics::run(Status::Running(m), choices) {
            Status::Running(next) => watches(next.vm),
            Status::Done(vm, _) => watches(vm),
            Status::Call(vm, _) => watches(vm),
            Status::Stuck => true,
        },
{
    laws::law_run_keeps(m, choices);
}

/// Removing all places to stop undoes every addition.
pub proof fn law_clear_undoes_set(vm: VMView, break_point: Breakpoint)
    ensures
        machine::without_breakpoints(machine::with_breakpoint(vm, break_point)) == machine::without_breakpoints(vm),
{
}

/// The machine was asked to stop somewhere.
pub open spec fn is_asked(vm: VMView) -> bool {
    ||| vm.stop_on_array_use
    ||| vm.stop_on_string_use
    ||| vm.stop_on_array_return
    ||| vm.stop_on_string_return
    ||| exists|field: u16| semantics::stops_at_field(vm.break_points, field)
}

/// The frames are at the same place with the same contents; they may differ in
/// what the machine is doing there.
pub open spec fn same_contents(before: FrameView, after: FrameView) -> bool {
    after == FrameView { state: after.state, break_register: after.break_register, ..before }
}

/// Where the run stopped it was asked to, and the instruction has had no effect.
pub open spec fn stops_cleanly(m: MachineView, after: Status) -> bool {
    after matches Status::Done(vm, Err(ExceptionView::Breakpoint(pc, _, _))) ==> {
        &&& is_asked(m.vm)
        &&& pc == m.vm.current.pc
        &&& vm.heap == m.vm.heap
        &&& vm.instances == m.vm.instances
        &&& vm.frames == m.vm.frames
        &&& same_contents(m.vm.current, vm.current)
        &&& !vm.skip_next_breakpoint
    }
}

/// The effect is no stop.
spec fn goes_on(effect: Effect) -> bool {
    effect matches Effect::Fault(_, exception) ==> !(exception is Breakpoint)
}

proof fn lemma_makes(vm: VMView, code: Arc<CodeItem>, dex: Arc<DexFile>, operation: Operation, choice: Choice)
    requires
        operation is ConstString || operation is NewInstance || operation is NewArray || operation is FilledNewArray,
    ensures
        goes_on(semantics::applied(vm, *code, *dex, operation, choice)),
{
    reveal(semantics::applied);
}

proof fn lemma_changes(vm: VMView, code: Arc<CodeItem>, dex: Arc<DexFile>, operation: Operation, choice: Choice)
    requires
        operation is ArrayPut || operation is FillArrayData || operation is InstancePut || operation is InstancePutObject,
    ensures
        goes_on(semantics::applied(vm, *code, *dex, operation, choice)),
{
    reveal(semantics::applied);
}

proof fn lemma_reads(vm: VMView, code: Arc<CodeItem>, dex: Arc<DexFile>, operation: Operation, choice: Choice)
    requires
        operation is ArrayLength || operation is ArrayGet || operation is InstanceGet || operation is InstanceGetObject,
    ensures
        goes_on(semantics::applied(vm, *code, *dex, operation, choice)),
{
    reveal(semantics::applied);
}

proof fn lemma_computes(vm: VMView, code: Arc<CodeItem>, dex: Arc<DexFile>, operation: Operation, choice: Choice)
    requires
        operation is Nothing || operation is Move || operation is MoveResult || operation is Arithmetic
            || operation is ArithmeticLiteral || operation is Truncate || operation is Literal,
    ensures
        goes_on(semantics::applied(vm, *code, *dex, operation, choice)),
{
    reveal(semantics::applied);
}

proof fn lemma_applied_goes_on(vm: VMView, code: Arc<CodeItem>, dex: Arc<DexFile>, operation: Operation, choice: Choice)
    requires
        !laws::branches(operation),
        !(operation is StaticPutObject),
    ensures
        goes_on(semantics::applied(vm, *code, *dex, operation, choice)),
{
    match operation {
        Operation::ConstString { .. } | Operation::NewInstance { .. } | Operation::NewArray { .. } | Operation::FilledNewArray {
            ..
        } => lemma_makes(vm, code, dex, operation, choice),
        Operation::ArrayPut { .. } | Operation::FillArrayData { .. } | Operation::InstancePut { .. } | Operation::InstancePutObject {
            ..
        } => lemma_changes(vm, code, dex, operation, choice),
        Operation::ArrayLength { .. } | Operation::ArrayGet { .. } | Operation::InstanceGet { .. } | Operation::InstanceGetObject {
            ..
        } => lemma_reads(vm, code, dex, operation, choice),
        _ => lemma_computes(vm, code, dex, operation, choice),
    }
}

proof fn lemma_proceed_goes_on(m: MachineView)
    ensures
        forall|effect: Effect| goes_on(effect) ==> stops_cleanly(m, #[trigger] semantics::proceed(m, effect)),
{
}

proof fn lemma_branches(m: MachineView, operation: Operation, choice: Choice)
    requires
        operation is Test || operation is TestZero || operation is Goto || operation is Switch,
    ensures
        stops_cleanly(m, semantics::perform(m, operation, choice)),
{
    reveal(semantics::perform);
    lemma_proceed_goes_on(m);
}

proof fn lemma_static_put(m: MachineView, operation: Operation, choice: Choice)
    requires
        operation is StaticPutObject,
    ensures
        stops_cleanly(m, semantics::perform(m, operation, choice)),
        m.vm.skip_next_breakpoint ==> goes_on(semantics::applied(m.vm, *m.code, *m.dex, operation, choice)),
{
    reveal(semantics::perform);
    reveal(semantics::applied);
    lemma_proceed_goes_on(m);
}

/// Where the arguments of a call make the machine stop: at one of them, not
/// before the one at which it stopped last.
proof fn lemma_stop_at_argument(vm: VMView, passed: Seq<RegisterView>, registers: Seq<u8>, i: int, method: u16, site: u32, lenient: bool)
    requires
        0 <= i,
    ensures
        semantics::pass_arguments(vm, passed, registers, i, method, site, lenient) matches Passing::Fault(
            after,
            ExceptionView::Breakpoint(pc, _, _),
        ) ==> {
            &&& vm.stop_on_array_use || vm.stop_on_string_use
            &&& vm.current.state == ExecutionState::Running
            &&& pc == vm.current.pc
            &&& !after.skip_next_breakpoint
            &&& vm.current.break_register <= after.current.break_register
            &&& registers.len() <= u32::MAX ==> i <= after.current.break_register < registers.len()
        },
    decreases registers.len() - i,
{
    if i < registers.len() {
        if let Some(argument) = vm.register(registers[i] as int) {
            lemma_stop_at_argument(
                VMView { skip_next_breakpoint: false, ..vm },
                passed.push(argument),
                registers,
                i + 1,
                method,
                site,
                lenient,
            );
            lemma_stop_at_argument(vm, passed.push(argument), registers, i + 1, method, site, lenient);
        }
    }
}

/// A machine that is to pass over a stop passes over the argument at which it
/// stopped last.
proof fn lemma_pass_over(vm: VMView, passed: Seq<RegisterView>, registers: Seq<u8>, i: int, method: u16, site: u32, lenient: bool)
    requires
        0 <= i <= vm.current.break_register,
        registers.len() <= u32::MAX,
        vm.skip_next_breakpoint,
    ensures
        semantics::pass_arguments(vm, passed, registers, i, method, site, lenient) matches Passing::Fault(
            after,
            ExceptionView::Breakpoint(_, _, _),
        ) ==> vm.current.break_register < after.current.break_register,
    decreases registers.len() - i,
{
    if i < registers.len() {
        if let Some(argument) = vm.register(registers[i] as int) {
            if i < vm.current.break_register {
                lemma_pass_over(vm, passed.push(argument), registers, i + 1, method, site, lenient);
            } else {
                lemma_stop_at_argument(
                    VMView { skip_next_breakpoint: false, ..vm },
                    passed.push(argument),
                    registers,
                    i + 1,
                    method,
                    site,
                    lenient,
                );
                lemma_stop_at_argument(vm, passed.push(argument), registers, i + 1, method, site, lenient);
            }
        }
    }
}

proof fn lemma_invoke(m: MachineView, method: u16, count: Option<u8>, registers: Seq<u8>)
    ensures
        stops_cleanly(m, semantics::invoke(m, method, count, registers)),
        m.vm.skip_next_breakpoint && registers.len() <= u32::MAX ==> (semantics::invoke(m, method, count, registers) matches Status::Done(
            after,
            Err(ExceptionView::Breakpoint(_, _, _)),
        ) ==> m.vm.current.break_register < after.current.break_register),
{
    let site = if count is Some {
        m.method
    } else {
        m.vm.current.method
    };
    laws::lemma_pass_arguments(m.vm, Seq::empty(), registers, 0, method, site, count is None);
    laws::lemma_pass_stays(m.vm, Seq::empty(), registers, 0, method, site, count is None);
    lemma_stop_at_argument(m.vm, Seq::empty(), registers, 0, method, site, count is None);
    if m.vm.skip_next_breakpoint && registers.len() <= u32::MAX {
        lemma_pass_over(m.vm, Seq::empty(), registers, 0, method, site, count is None);
    }
}

proof fn lemma_return(m: MachineView, register: u8)
    ensures
        stops_cleanly(m, semantics::return_value(m, register)),
        stops_cleanly(m, semantics::return_void(m)),
        m.vm.skip_next_breakpoint ==> !(semantics::return_value(m, register) matches Status::Done(
            _,
            Err(ExceptionView::Breakpoint(_, _, _)),
        )),
{
}

proof fn lemma_static_get(m: MachineView, dst: usize, field: u16, choice: Choice)
    ensures
        stops_cleanly(m, semantics::static_get(m, dst, field, choice)),
        !(semantics::static_get(m, dst, field, choice) matches Status::Done(_, Err(ExceptionView::Breakpoint(_, _, _)))),
{
    assert forall|vm: VMView, name: Seq<char>, ty: Option<Seq<char>>|
        !((#[trigger] semantics::finish_static_get(m.with_vm(vm), dst, name, ty, field, choice.second)) matches Status::Done(
            _,
            Err(ExceptionView::Breakpoint(_, _, _)),
        )) by {
        assert(forall|given: VMView| goes_on(#[trigger] semantics::read_static(given, dst, name, field)));
    }
    assert forall|vm: VMView, method: MethodData|
        !((#[trigger] semantics::initialize(m.with_vm(vm), method)) matches Status::Done(
            _,
            Err(ExceptionView::Breakpoint(_, _, _)),
        )) by {}
    assert(m.with_vm(m.vm) == m);
}

/// The machine stops only where it was asked to stop somewhere, and it stops
/// before the instruction has had any effect.
pub proof fn law_stops_cleanly(m: MachineView, choice: Choice)
    ensures
        stops_cleanly(semantics::begun(m), semantics::step(m, choice)),
{
    if m.steps < MAX_STEPS {
        let begun = semantics::begun(m);
        let operation = m.entry().2.operation();
        reveal(semantics::perform);
        match operation {
            Operation::Invoke { method, arguments } => lemma_invoke(begun, method, None, arguments@),
            Operation::InvokeStatic { count, method, arguments } => lemma_invoke(begun, method, Some(count), arguments@),
            Operation::ReturnVoid => lemma_return(begun, 0),
            Operation::Return { register } => lemma_return(begun, register),
            Operation::StaticGetObject { dst, field } => lemma_static_get(begun, dst, field, choice),
            Operation::StaticPutObject { .. } => lemma_static_put(begun, operation, choice),
            Operation::Test { .. } | Operation::TestZero { .. } | Operation::Goto { .. } | Operation::Switch { .. } => {
                lemma_branches(begun, operation, choice);
            },
            _ => {
                lemma_applied_goes_on(begun.vm, begun.code, begun.dex, operation, choice);
                lemma_proceed_goes_on(begun);
            },
        }
    }
}

/// A machine that was not asked to stop anywhere does not stop.
pub proof fn law_unasked_goes_on(m: MachineView, choice: Choice)
    requires
        !is_asked(m.vm),
    ensures
        !(semantics::step(m, choice) matches Status::Done(_, Err(ExceptionView::Breakpoint(_, _, _)))),
{
    law_stops_cleanly(m, choice);
}

/// A run of a machine that was not asked to stop anywhere does not stop.
pub proof fn law_unasked_run_goes_on(m: MachineView, choices: Seq<Choice>)
    requires
        !is_asked(m.vm),
    ensures
        !(semantics::run(Status::Running(m), choices) matches Status::Done(_, Err(ExceptionView::Breakpoint(_, _, _)))),
    decreases choices.len(),
{
    if choices.len() > 0 {
        law_unasked_run_goes_on(m, choices.drop_last());
        laws::law_run_keeps(m, choices.drop_last());
        if let Status::Running(last) = semantics::run(Status::Running(m), choices.drop_last()) {
            law_unasked_goes_on(last, choices.last());
        }
    }
}

/// Calls that a static initializer makes do not stop at their arguments.
pub proof fn law_initializer_calls_go_on(m: MachineView, method: u16, count: Option<u8>, registers: Seq<u8>)
    requires
        m.vm.current.state == ExecutionState::StaticInitializer,
    ensures
        !(semantics::invoke(m, method, count, registers) matches Status::Done(_, Err(ExceptionView::Breakpoint(_, _, _)))),
        semantics::invoke(m, method, count, registers) matches Status::Running(next) ==> next.vm.current.state
            == ExecutionState::StaticInitializer,
{
    let site = if count is Some {
        m.method
    } else {
        m.vm.current.method
    };
    laws::lemma_pass_stays(m.vm, Seq::empty(), registers, 0, method, site, count is None);
    lemma_stop_at_argument(m.vm, Seq::empty(), registers, 0, method, site, count is None);
}

/// A machine that stopped can be continued at the address that the stop reports:
/// it is then at the same instruction, with the same registers and objects.
pub proof fn law_continue_resumes(m: MachineView, choice: Choice, vm: VMView, stop: ExceptionView)
    requires
        laws::anchored(m),
        semantics::step(m, choice) == Status::Done(vm, Err::<(), ExceptionView>(stop)),
        stop is Breakpoint,
    ensures
        semantics::continuing(vm, stop->Breakpoint_0) matches Status::Running(next) && {
            &&& next.code == m.code
            &&& next.index == m.index
            &&& next.dex == m.dex
            &&& next.steps == 0
            &&& next.vm.heap == m.vm.heap
            &&& next.vm.instances == m.vm.instances
            &&& next.vm.frames == m.vm.frames
            &&& next.vm.current.registers == m.vm.current.registers
            &&& next.vm.current.pc == m.vm.current.pc
            &&& next.vm.current.state == ExecutionState::Running
            &&& next.vm.skip_next_breakpoint
        },
{
    law_stops_cleanly(m, choice);
}

/// The arguments of a call can be counted by the machine.
pub open spec fn is_countable(operation: Operation) -> bool {
    match operation {
        Operation::Invoke { arguments, .. } => arguments@.len() <= u32::MAX,
        Operation::InvokeStatic { arguments, .. } => arguments@.len() <= u32::MAX,
        _ => true,
    }
}

/// A machine that is continued passes over the stop: the instruction is executed,
/// or it is a call that stops at a later one of its arguments.
pub proof fn law_continue_passes_stop(m: MachineView, choice: Choice, vm: VMView, stop: ExceptionView, next: MachineView, chosen: Choice)
    requires
        is_countable(m.entry().2.operation()),
        laws::anchored(m),
        semantics::step(m, choice) == Status::Done(vm, Err::<(), ExceptionView>(stop)),
        stop is Breakpoint,
        semantics::continuing(vm, stop->Breakpoint_0) == Status::Running(next),
    ensures
        semantics::step(next, chosen) matches Status::Done(after, Err(ExceptionView::Breakpoint(_, _, _)))
            ==> vm.current.break_register < after.current.break_register,
{
    law_continue_resumes(m, choice, vm, stop);
    let begun = semantics::begun(next);
    let operation = next.entry().2.operation();
    reveal(semantics::perform);
    match operation {
        Operation::Invoke { method, arguments } => lemma_invoke(begun, method, None, arguments@),
        Operation::InvokeStatic { count, method, arguments } => lemma_invoke(begun, method, Some(count), arguments@),
        Operation::ReturnVoid => lemma_return(begun, 0),
        Operation::Return { register } => lemma_return(begun, register),
        Operation::StaticGetObject { dst, field } => lemma_static_get(begun, dst, field, chosen),
        Operation::StaticPutObject { .. } => lemma_static_put(begun, operation, chosen),
        Operation::Test { .. } | Operation::TestZero { .. } | Operation::Goto { .. } | Operation::Switch { .. } => {},
        _ => {
            lemma_applied_goes_on(begun.vm, begun.code, begun.dex, operation, chosen);
            lemma_proceed_goes_on(begun);
        },
    }
}

/// The method that an operation calls, the number of arguments that it announces,
/// and the registers with the arguments.
pub open spec fn call_of(operation: Operation) -> Option<(u16, Option<u8>, Seq<u8>)> {
    match operation {
        Operation::Invoke { method, arguments } => Some((method, None, arguments@)),
        Operation::InvokeStatic { count, method, arguments } => Some((method, Some(count), arguments@)),
        _ => None,
    }
}

/// What the registers with the arguments of a call hold.
pub open spec fn arguments_of(vm: VMView, registers: Seq<u8>) -> Seq<RegisterView> {
    Seq::new(registers.len(), |k: int| vm.register(registers[k] as int)->0)
}

/// What the machine reports where it stops at argument `k` of a call; nothing for
/// an argument that it does not watch for.
pub open spec fn watched_argument(vm: VMView, registers: Seq<u8>, k: int, method: u16, lenient: bool) -> Option<BreakpointContext> {
    match vm.register(registers[k] as int) {
        Some(argument) => semantics::stop_at_argument(vm, argument, registers[k], method, lenient),
        None => None,
    }
}

/// The arguments from number `from` to before `to` exist.
pub open spec fn are_there(vm: VMView, registers: Seq<u8>, from: int, to: int) -> bool {
    forall|k: int| from <= k < to ==> vm.register(#[trigger] registers[k] as int) is Some
}

/// The machine does not watch for any of the arguments from number `from` to
/// before `to`.
pub open spec fn are_unwatched(vm: VMView, registers: Seq<u8>, from: int, to: int, method: u16, lenient: bool) -> bool {
    forall|k: int| #![trigger registers[k]] from <= k < to ==> watched_argument(vm, registers, k, method, lenient) is None
}

/// The machine looks at the arguments of calls.
pub open spec fn looks_at_arguments(vm: VMView) -> bool {
    (vm.stop_on_array_use || vm.stop_on_string_use) && vm.current.state == ExecutionState::Running
}

proof fn lemma_stops_at(
    vm: VMView,
    passed: Seq<RegisterView>,
    registers: Seq<u8>,
    i: int,
    j: int,
    method: u16,
    site: u32,
    lenient: bool,
)
    requires
        vm.current.break_register <= i <= j < registers.len() <= u32::MAX,
        looks_at_arguments(vm),
        !vm.skip_next_breakpoint,
        are_there(vm, registers, i, j),
        are_unwatched(vm, registers, i, j, method, lenient),
        watched_argument(vm, registers, j, method, lenient) is Some,
    ensures
        semantics::pass_arguments(vm, passed, registers, i, method, site, lenient) == Passing::Fault(
            vm.with_frame(FrameView { state: ExecutionState::Paused, break_register: j as u32, ..vm.current }),
            ExceptionView::Breakpoint(vm.current.pc, site, watched_argument(vm, registers, j, method, lenient)->0),
        ),
    decreases j - i,
{
    if i < j {
        assert(vm.register(registers[i] as int) is Some);
        assert(watched_argument(vm, registers, i, method, lenient) is None);
        let argument = vm.register(registers[i] as int)->0;
        lemma_stops_at(vm, passed.push(argument), registers, i + 1, j, method, site, lenient);
    }
}

proof fn lemma_stops_nowhere(
    vm: VMView,
    passed: Seq<RegisterView>,
    registers: Seq<u8>,
    i: int,
    method: u16,
    site: u32,
    lenient: bool,
)
    requires
        0 <= i <= registers.len() <= u32::MAX,
        !vm.skip_next_breakpoint,
        are_there(vm, registers, i, registers.len() as int),
        are_unwatched(vm, registers, i, registers.len() as int, method, lenient),
    ensures
        semantics::pass_arguments(vm, passed, registers, i, method, site, lenient) matches Passing::Passed(after, _)
            && after == vm,
    decreases registers.len() - i,
{
    if i < registers.len() {
        assert(vm.register(registers[i] as int) is Some);
        assert(watched_argument(vm, registers, i, method, lenient) is None);
        let argument = vm.register(registers[i] as int)->0;
        lemma_stops_nowhere(vm, passed.push(argument), registers, i + 1, method, site, lenient);
    }
}

/// A machine that is to pass over a stop goes on behind the argument at which it
/// stopped last.
proof fn lemma_goes_on_behind(
    vm: VMView,
    passed: Seq<RegisterView>,
    registers: Seq<u8>,
    i: int,
    method: u16,
    site: u32,
    lenient: bool,
) -> (read: Seq<RegisterView>)
    requires
        0 <= i <= vm.current.break_register < registers.len() <= u32::MAX,
        looks_at_arguments(vm),
        vm.skip_next_breakpoint,
        are_there(vm, registers, i, vm.current.break_register + 1),
    ensures
        semantics::pass_arguments(vm, passed, registers, i, method, site, lenient) == semantics::pass_arguments(
            VMView { skip_next_breakpoint: false, ..vm },
            read,
            registers,
            vm.current.break_register + 1,
            method,
            site,
            lenient,
        ),
    decreases vm.current.break_register - i,
{
    assert(vm.register(registers[i] as int) is Some);
    let argument = vm.register(registers[i] as int)->0;
    if i < vm.current.break_register {
        lemma_goes_on_behind(vm, passed.push(argument), registers, i + 1, method, site, lenient)
    } else {
        passed.push(argument)
    }
}

proof fn lemma_read_before_stop(
    vm: VMView,
    passed: Seq<RegisterView>,
    registers: Seq<u8>,
    i: int,
    method: u16,
    site: u32,
    lenient: bool,
)
    requires
        0 <= i,
        registers.len() <= u32::MAX,
    ensures
        semantics::pass_arguments(vm, passed, registers, i, method, site, lenient) matches Passing::Fault(
            after,
            ExceptionView::Breakpoint(_, _, _),
        ) ==> are_there(vm, registers, i, after.current.break_register + 1),
    decreases registers.len() - i,
{
    if i < registers.len() {
        if let Some(argument) = vm.register(registers[i] as int) {
            let passing = VMView { skip_next_breakpoint: false, ..vm };
            lemma_read_before_stop(passing, passed.push(argument), registers, i + 1, method, site, lenient);
            lemma_read_before_stop(vm, passed.push(argument), registers, i + 1, method, site, lenient);
            if let Passing::Fault(after, ExceptionView::Breakpoint(_, _, _)) = semantics::pass_arguments(
                vm,
                passed,
                registers,
                i,
                method,
                site,
                lenient,
            ) {
                assert forall|k: int| i <= k < after.current.break_register + 1 implies vm.register(
                    #[trigger] registers[k] as int,
                ) is Some by {
                    if k > i {
                        assert(passing.register(registers[k] as int) == vm.register(registers[k] as int));
                    }
                }
            }
        }
    }
}

/// In a running method a call stops at the first argument that the machine watches
/// for, and reports it.
pub proof fn law_call_stops_at_first_argument(m: MachineView, method: u16, count: Option<u8>, registers: Seq<u8>, j: int)
    requires
        m.vm.frames.len() <= MAX_DEPTH,
        looks_at_arguments(m.vm),
        !m.vm.skip_next_breakpoint,
        m.vm.current.break_register == 0,
        0 <= j < registers.len() <= u32::MAX,
        are_there(m.vm, registers, 0, j),
        are_unwatched(m.vm, registers, 0, j, method, count is None),
        watched_argument(m.vm, registers, j, method, count is None) is Some,
    ensures
        semantics::invoke(m, method, count, registers) == Status::Done(
            m.vm.with_frame(
                FrameView { state: ExecutionState::Paused, break_register: j as u32, ..m.vm.current },
            ),
            Err(
                ExceptionView::Breakpoint(
                    m.vm.current.pc,
                    if count is Some {
                        m.method
                    } else {
                        m.vm.current.method
                    },
                    watched_argument(m.vm, registers, j, method, count is None)->0,
                ),
            ),
        ),
{
    let site = if count is Some {
        m.method
    } else {
        m.vm.current.method
    };
    lemma_stops_at(m.vm, Seq::empty(), registers, 0, j, method, site, count is None);
}

/// What a stop at an argument tells of the call: the arguments up to that one
/// exist, and few enough frames wait.
proof fn lemma_stopped_call(m: MachineView, choice: Choice, vm: VMView, stop: ExceptionView, method: u16, count: Option<u8>, registers: Seq<u8>)
    requires
        call_of(m.entry().2.operation()) == Some((method, count, registers)),
        registers.len() <= u32::MAX,
        semantics::step(m, choice) == Status::Done(vm, Err::<(), ExceptionView>(stop)),
        stop is Breakpoint,
    ensures
        m.vm.frames.len() <= MAX_DEPTH,
        vm.stop_on_array_use || vm.stop_on_string_use,
        vm.current.break_register < registers.len(),
        are_there(vm, registers, 0, vm.current.break_register + 1),
{
    law_stops_cleanly(m, choice);
    let begun = semantics::begun(m);
    let site = if count is Some {
        begun.method
    } else {
        begun.vm.current.method
    };
    reveal(semantics::perform);
    assert(semantics::step(m, choice) == semantics::invoke(begun, method, count, registers));
    laws::lemma_pass_arguments(begun.vm, Seq::empty(), registers, 0, method, site, count is None);
    lemma_stop_at_argument(begun.vm, Seq::empty(), registers, 0, method, site, count is None);
    lemma_read_before_stop(begun.vm, Seq::empty(), registers, 0, method, site, count is None);
    assert forall|k: int| 0 <= k < vm.current.break_register + 1 implies vm.register(#[trigger] registers[k] as int) is Some by {
        assert(begun.vm.register(registers[k] as int) is Some);
    }
}

/// A call that stopped at one of its arguments and is continued stops at the next
/// one that the machine watches for, and reports it. The method that is reported
/// is then the one whose instruction it is.
pub proof fn law_continue_stops_at_next_argument(
    m: MachineView,
    choice: Choice,
    vm: VMView,
    stop: ExceptionView,
    next: MachineView,
    chosen: Choice,
    method: u16,
    count: Option<u8>,
    registers: Seq<u8>,
    j: int,
)
    requires
        call_of(m.entry().2.operation()) == Some((method, count, registers)),
        registers.len() <= u32::MAX,
        laws::anchored(m),
        semantics::step(m, choice) == Status::Done(vm, Err::<(), ExceptionView>(stop)),
        stop is Breakpoint,
        semantics::continuing(vm, stop->Breakpoint_0) == Status::Running(next),
        vm.current.break_register < j < registers.len(),
        are_there(vm, registers, vm.current.break_register + 1, j),
        are_unwatched(vm, registers, vm.current.break_register + 1, j, method, count is None),
        watched_argument(vm, registers, j, method, count is None) is Some,
    ensures
        semantics::step(next, chosen) matches Status::Done(after, Err(reported)) && {
            &&& reported == ExceptionView::Breakpoint(
                stop->Breakpoint_0,
                vm.current.method,
                watched_argument(vm, registers, j, method, count is None)->0,
            )
            &&& after.current.break_register == j
            &&& after.current.state == ExecutionState::Paused
            &&& after.current.registers == vm.current.registers
            &&& after.current.pc == vm.current.pc
            &&& after.heap == vm.heap
            &&& after.instances == vm.instances
            &&& after.frames == vm.frames
            &&& !after.skip_next_breakpoint
        },
{
    law_stops_cleanly(m, choice);
    law_continue_resumes(m, choice, vm, stop);
    lemma_stopped_call(m, choice, vm, stop, method, count, registers);
    let begun = semantics::begun(next);
    lemma_same_watched(begun.vm, vm, registers, method, count is None);
    reveal(semantics::perform);
    assert(semantics::step(next, chosen) == semantics::invoke(begun, method, count, registers));
    let read = lemma_goes_on_behind(begun.vm, Seq::empty(), registers, 0, method, vm.current.method, count is None);
    let passing = VMView { skip_next_breakpoint: false, ..begun.vm };
    lemma_same_watched(passing, vm, registers, method, count is None);
    lemma_stops_at(
        passing,
        read,
        registers,
        vm.current.break_register + 1,
        j,
        method,
        vm.current.method,
        count is None,
    );
}

/// A call that stopped at the last of its arguments that the machine watches for
/// is made when it is continued.
pub proof fn law_continue_makes_call(
    m: MachineView,
    choice: Choice,
    vm: VMView,
    stop: ExceptionView,
    next: MachineView,
    chosen: Choice,
    method: u16,
    count: Option<u8>,
    registers: Seq<u8>,
)
    requires
        call_of(m.entry().2.operation()) == Some((method, count, registers)),
        registers.len() <= u32::MAX,
        laws::anchored(m),
        semantics::step(m, choice) == Status::Done(vm, Err::<(), ExceptionView>(stop)),
        stop is Breakpoint,
        semantics::continuing(vm, stop->Breakpoint_0) == Status::Running(next),
        are_there(vm, registers, vm.current.break_register + 1, registers.len() as int),
        are_unwatched(vm, registers, vm.current.break_register + 1, registers.len() as int, method, count is None),
    ensures
        semantics::step(next, chosen) == semantics::call(
            semantics::begun(next),
            VMView { skip_next_breakpoint: false, ..semantics::begun(next).vm },
            method,
            count,
            arguments_of(vm, registers),
        ),
{
    law_stops_cleanly(m, choice);
    law_continue_resumes(m, choice, vm, stop);
    lemma_stopped_call(m, choice, vm, stop, method, count, registers);
    let begun = semantics::begun(next);
    lemma_same_watched(begun.vm, vm, registers, method, count is None);
    reveal(semantics::perform);
    assert(semantics::step(next, chosen) == semantics::invoke(begun, method, count, registers));
    let read = lemma_goes_on_behind(begun.vm, Seq::empty(), registers, 0, method, vm.current.method, count is None);
    let passing = VMView { skip_next_breakpoint: false, ..begun.vm };
    lemma_same_watched(passing, vm, registers, method, count is None);
    lemma_stops_nowhere(
        passing,
        read,
        registers,
        vm.current.break_register + 1,
        method,
        vm.current.method,
        count is None,
    );
    lemma_passes_registers(begun.vm, Seq::empty(), registers, 0, method, vm.current.method, count is None);
    assert(Seq::<RegisterView>::empty() + Seq::new(
        registers.len(),
        |k: int| begun.vm.register(registers[0 + k] as int)->0,
    ) =~= arguments_of(vm, registers));
}

/// The arguments of a call are what its registers hold.
proof fn lemma_passes_registers(
    vm: VMView,
    passed: Seq<RegisterView>,
    registers: Seq<u8>,
    i: int,
    method: u16,
    site: u32,
    lenient: bool,
)
    requires
        0 <= i <= registers.len(),
    ensures
        semantics::pass_arguments(vm, passed, registers, i, method, site, lenient) matches Passing::Passed(_, arguments)
            ==> arguments == passed + Seq::new(
            (registers.len() - i) as nat,
            |k: int| vm.register(registers[i + k] as int)->0,
        ),
    decreases registers.len() - i,
{
    let rest = Seq::new((registers.len() - i) as nat, |k: int| vm.register(registers[i + k] as int)->0);
    if i < registers.len() {
        if let Some(argument) = vm.register(registers[i] as int) {
            let passing = VMView { skip_next_breakpoint: false, ..vm };
            lemma_passes_registers(passing, passed.push(argument), registers, i + 1, method, site, lenient);
            lemma_passes_registers(vm, passed.push(argument), registers, i + 1, method, site, lenient);
            let shorter = Seq::new(
                (registers.len() - (i + 1)) as nat,
                |k: int| vm.register(registers[i + 1 + k] as int)->0,
            );
            assert(passed.push(argument) + shorter =~= passed + rest);
            assert(shorter =~= Seq::new(
                (registers.len() - (i + 1)) as nat,
                |k: int| passing.register(registers[i + 1 + k] as int)->0,
            ));
        }
    } else {
        assert(passed + rest =~= passed);
    }
}

/// What is watched for depends on the registers, the heap and the stops alone.
proof fn lemma_same_watched(a: VMView, b: VMView, registers: Seq<u8>, method: u16, lenient: bool)
    requires
        a.current.registers == b.current.registers,
        a.heap == b.heap,
        a.stop_on_array_use == b.stop_on_array_use,
        a.stop_on_string_use == b.stop_on_string_use,
    ensures
        forall|k: int| #![trigger registers[k]] a.register(registers[k] as int) == b.register(registers[k] as int),
        forall|k: int|
            #![trigger registers[k]]
            watched_argument(a, registers, k, method, lenient) == watched_argument(b, registers, k, method, lenient),
{
}

} // verus!
