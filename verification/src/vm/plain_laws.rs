//! What holds of code that makes and reads no object.

use vstd::prelude::*;
use std::sync::Arc;
use crate::instruction::CodeItem;
use crate::models::DexFile;
use crate::vm::laws;
use crate::vm::machine;
use crate::vm::operation::Operation;
use crate::vm::register::RegisterView;
use crate::vm::semantics;
use crate::vm::semantics::{Choice, Effect, MachineView, Status, MAX_STEPS};
use crate::vm::state::{FrameView, VMView};

verus! {

/// An operation on registers alone: it makes and reads no object, and calls
/// nothing.
pub open spec fn is_plain(operation: Operation) -> bool {
    is_plain_effect(operation) || is_plain_branch(operation)
}

/// A plain operation that goes on with the instruction behind it.
pub open spec fn is_plain_effect(operation: Operation) -> bool {
    operation is Nothing || operation is Move || operation is MoveResult || operation is Arithmetic
        || operation is ArithmeticLiteral || operation is Truncate || operation is Literal
}

/// A plain operation that decides itself what comes next.
pub open spec fn is_plain_branch(operation: Operation) -> bool {
    operation is Test || operation is TestZero || operation is Goto || operation is Switch || operation is ReturnVoid
        || operation is Return
}

/// A method all of whose instructions are plain.
pub open spec fn is_plain_code(code: CodeItem) -> bool {
    forall|i: int| 0 <= i < code.insns@.len() ==> is_plain((#[trigger] code.insns@[i]).2.operation())
}

/// None of these registers refers to an object.
pub open spec fn are_plain(registers: Seq<RegisterView>) -> bool {
    forall|i: int| 0 <= i < registers.len() ==> !(#[trigger] registers[i] is Reference)
}

/// A frame that refers to no object.
pub open spec fn is_plain_frame(frame: FrameView) -> bool {
    are_plain(frame.registers) && !(frame.result is Reference)
}

/// The frames differ at most in the size of the last instruction and in where a
/// call stopped.
pub open spec fn alike(a: FrameView, b: FrameView) -> bool {
    a == FrameView { size: a.size, break_register: a.break_register, ..b }
}

/// Two runs of one plain method that stand at the same place. Their machines may
/// differ in all but the frame.
pub open spec fn run_alike(a: MachineView, b: MachineView) -> bool {
    &&& a.code == b.code
    &&& a.index == b.index
    &&& a.steps == b.steps
    &&& 0 <= a.index < a.code.insns@.len()
    &&& is_plain_code(*a.code)
    &&& alike(a.vm.current, b.vm.current)
    &&& is_plain_frame(a.vm.current)
    &&& a.vm.frames.len() == 0
    &&& b.vm.frames.len() == 0
}

/// Two runs that go on alike, or have ended alike.
pub open spec fn come_alike(a: Status, b: Status) -> bool {
    match (a, b) {
        (Status::Running(m), Status::Running(n)) => run_alike(m, n),
        (Status::Done(v, r), Status::Done(w, s)) => {
            &&& r == s
            &&& alike(v.current, w.current)
            &&& is_plain_frame(v.current)
            &&& v.frames.len() == 0
            &&& w.frames.len() == 0
        },
        (Status::Stuck, Status::Stuck) => true,
        _ => false,
    }
}

/// The objects and the static fields are those of the machine.
pub open spec fn leaves_objects(vm: VMView, after: Status) -> bool {
    match after {
        Status::Running(m) => m.vm.heap == vm.heap && m.vm.instances == vm.instances,
        Status::Done(v, _) => v.heap == vm.heap && v.instances == vm.instances,
        Status::Call(v, _) => v.heap == vm.heap && v.instances == vm.instances,
        Status::Stuck => true,
    }
}

/// Two effects that leave the frames alike, and leave objects alone.
spec fn effects_alike(vm: VMView, a: Effect, b: Effect) -> bool {
    match (a, b) {
        (Effect::Next(v), Effect::Next(w)) => {
            &&& alike(v.current, w.current)
            &&& is_plain_frame(v.current)
            &&& v.frames.len() == 0 && w.frames.len() == 0
            &&& v.heap == vm.heap && v.instances == vm.instances
        },
        (Effect::Fault(v, e), Effect::Fault(w, f)) => {
            &&& e == f
            &&& alike(v.current, w.current)
            &&& is_plain_frame(v.current)
            &&& v.frames.len() == 0 && w.frames.len() == 0
            &&& v.heap == vm.heap && v.instances == vm.instances
        },
        (Effect::Stuck, Effect::Stuck) => true,
        _ => false,
    }
}

proof fn lemma_effects_alike(a: VMView, b: VMView, code: Arc<CodeItem>, d: Arc<DexFile>, e: Arc<DexFile>, operation: Operation, c: Choice, k: Choice)
    requires
        is_plain_effect(operation),
        alike(a.current, b.current),
        is_plain_frame(a.current),
        a.frames.len() == 0,
        b.frames.len() == 0,
    ensures
        effects_alike(
            a,
            semantics::applied(a, *code, *d, operation, c),
            semantics::applied(b, *code, *e, operation, k),
        ),
{
    reveal(semantics::applied);
    assert(a.current.registers == b.current.registers);
}

proof fn lemma_proceed_alike(a: MachineView, b: MachineView)
    requires
        run_alike(a, b),
    ensures
        forall|x: Effect, y: Effect|
            effects_alike(a.vm, x, y) ==> come_alike(#[trigger] semantics::proceed(a, x), #[trigger] semantics::proceed(b, y))
                && leaves_objects(a.vm, semantics::proceed(a, x)),
{
}

proof fn lemma_branch_alike(a: MachineView, b: MachineView, operation: Operation, c: Choice, k: Choice)
    requires
        run_alike(a, b),
        is_plain_branch(operation),
    ensures
        come_alike(semantics::perform(a, operation, c), semantics::perform(b, operation, k)),
        leaves_objects(a.vm, semantics::perform(a, operation, c)),
{
    reveal(semantics::perform);
    assert(a.vm.current.registers == b.vm.current.registers);
    lemma_proceed_alike(a, b);
    assert(effects_alike(a.vm, Effect::Next(a.vm), Effect::Next(b.vm)));
}

/// An instruction of a plain method does the same on two machines that agree in
/// the frame, whatever else they hold and whatever addresses allocation would
/// give; and it leaves objects and static fields alone.
pub proof fn law_plain_step_is_alike(a: MachineView, b: MachineView, c: Choice, k: Choice)
    requires
        run_alike(a, b),
    ensures
        come_alike(semantics::step(a, c), semantics::step(b, k)),
        leaves_objects(a.vm, semantics::step(a, c)),
{
    if a.steps < MAX_STEPS {
        let x = semantics::begun(a);
        let y = semantics::begun(b);
        let operation = a.entry().2.operation();
        assert(is_plain(a.code.insns@[a.index].2.operation()));
        assert(run_alike(x, y));
        if is_plain_branch(operation) {
            lemma_branch_alike(x, y, operation, c, k);
        } else {
            reveal(semantics::perform);
            lemma_effects_alike(x.vm, y.vm, x.code, x.dex, y.dex, operation, c, k);
            lemma_proceed_alike(x, y);
        }
    }
}

proof fn lemma_plain_runs(a: MachineView, b: MachineView, c: Seq<Choice>, k: Seq<Choice>)
    requires
        run_alike(a, b),
        c.len() == k.len(),
    ensures
        come_alike(semantics::run(Status::Running(a), c), semantics::run(Status::Running(b), k)),
        leaves_objects(a.vm, semantics::run(Status::Running(a), c)),
    decreases c.len(),
{
    if c.len() > 0 {
        lemma_plain_runs(a, b, c.drop_last(), k.drop_last());
        let x = semantics::run(Status::Running(a), c.drop_last());
        let y = semantics::run(Status::Running(b), k.drop_last());
        if let (Status::Running(m), Status::Running(n)) = (x, y) {
            law_plain_step_is_alike(m, n, c.last(), k.last());
        }
    }
}

proof fn lemma_longer(start: Status, choices: Seq<Choice>, n: nat) -> (longer: Seq<Choice>)
    requires
        !(semantics::run(start, choices) is Running),
        n >= choices.len(),
    ensures
        longer.len() == n,
        semantics::run(start, longer) == semantics::run(start, choices),
{
    let more = Seq::new((n - choices.len()) as nat, |i: int| Choice { first: None, second: None });
    laws::law_run_composes(start, choices, more);
    laws::law_ended_run_stays(semantics::run(start, choices), more);
    choices + more
}

/// Two ends that a caller cannot tell apart by the result, the registers, the
/// program counter, the stack or the object that was returned.
pub open spec fn same_outcome(a: Status, b: Status) -> bool {
    match (a, b) {
        (Status::Done(v, r), Status::Done(w, s)) => {
            &&& r == s
            &&& v.current.registers == w.current.registers
            &&& v.current.result == w.current.result
            &&& v.current.pc == w.current.pc
            &&& v.frames.len() == w.frames.len()
            &&& machine::returned(v) == machine::returned(w)
        },
        (Status::Stuck, Status::Stuck) => true,
        _ => false,
    }
}

/// A plain method that is run from its first instruction on integers shows
/// nothing of what ran before: on any two machines for the same files it ends the
/// same, whatever their frames, heaps, static fields and stops are. It leaves
/// objects, static fields and what the machine was set up with as they were.
pub proof fn law_plain_start_forgets(
    v: VMView,
    w: VMView,
    method: u32,
    identifier: Seq<char>,
    code: Arc<CodeItem>,
    arguments: Seq<RegisterView>,
    c: Seq<Choice>,
    k: Seq<Choice>,
)
    requires
        v.dex_file == w.dex_file,
        v.runtime == w.runtime,
        is_plain_code(*code),
        code.ins_size <= code.register_size,
        forall|i: int| 0 <= i < arguments.len() ==> #[trigger] arguments[i] is Literal,
        !(semantics::run(semantics::opening(v, method, identifier, code, arguments), c) is Running),
        !(semantics::run(semantics::opening(w, method, identifier, code, arguments), k) is Running),
    ensures
        same_outcome(
            semantics::run(semantics::opening(v, method, identifier, code, arguments), c),
            semantics::run(semantics::opening(w, method, identifier, code, arguments), k),
        ),
        leaves_objects(v, semantics::run(semantics::opening(v, method, identifier, code, arguments), c)),
        semantics::run(semantics::opening(v, method, identifier, code, arguments), c) matches Status::Done(after, _)
            ==> laws::same_setup(v, after),
{
    let x = semantics::opening(v, method, identifier, code, arguments);
    let y = semantics::opening(w, method, identifier, code, arguments);
    if let (Status::Running(a), Status::Running(b)) = (x, y) {
        let registers = a.vm.current.registers;
        assert(are_plain(registers)) by {
            let empty = semantics::empty_registers(code.register_size - code.ins_size);
            assert forall|i: int| 0 <= i < registers.len() implies !(#[trigger] registers[i] is Reference) by {
                if i >= empty.len() {
                    assert(registers[i] == arguments[i - empty.len()]);
                }
            }
        }
        assert(run_alike(a, b));
        let n = if c.len() > k.len() {
            c.len()
        } else {
            k.len()
        };
        let longer_c = lemma_longer(x, c, n);
        let longer_k = lemma_longer(y, k, n);
        lemma_plain_runs(a, b, longer_c, longer_k);
        laws::law_run_keeps(a, c);
    } else {
        laws::law_ended_run_stays(x, c);
        laws::law_ended_run_stays(y, k);
    }
}

} // verus!
