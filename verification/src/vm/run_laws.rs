//! What starting, continuing and going through a run are for, and which
//! instructions take heap addresses.

use vstd::prelude::*;
use std::sync::Arc;
use crate::instruction::{CodeItem, Instruction};
use crate::vm::allocation;
use crate::vm::exception::{ExceptionView, ExecutionState, VMException};
use crate::vm::field_laws;
use crate::vm::heap_laws;
use crate::vm::lookup_laws;
use crate::vm::machine;
use crate::vm::operation::Operation;
use crate::vm::register::RegisterView;
use crate::vm::run;
use crate::vm::run::Progress;
use crate::vm::semantics;
use crate::vm::semantics::{Choice, MachineView, Status};
use crate::vm::state::{FrameView, VMView};
use crate::vm::step_laws;
use crate::vm::value::{InstanceView, ValueView};

verus! {

// ---------------------------------------------------------------------------
// Starting
// ---------------------------------------------------------------------------

/// A run begins at the instruction at an address of the running method, with no
/// instruction executed, and the machine running. Where there is no instruction
/// that is reported, and nothing changes.
pub proof fn law_run_begins(vm: VMView, address: u32, k: int)
    ensures
        step_laws::stands_at(*vm.current.code, k, address) ==> semantics::begin(vm, address) == Status::Running(
            MachineView {
                vm: VMView {
                    current: FrameView { state: ExecutionState::Running, last_size: 0, ..vm.current },
                    ..vm
                },
                code: vm.current.code,
                index: k,
                dex: vm.current.dex,
                method: vm.current.method,
                steps: 0,
            },
        ),
        step_laws::nothing_at(*vm.current.code, address) ==> semantics::begin(vm, address) == Status::Done(
            vm,
            Err::<(), ExceptionView>(ExceptionView::NoInstructionAtAddress(vm.current.method, address as usize)),
        ),
{
    step_laws::lemma_stands();
}

/// A run that continues begins with the request to pass over the next stop.
pub proof fn law_run_continues(vm: VMView, address: u32)
    ensures
        semantics::continuing(vm, address) == semantics::begin(VMView { skip_next_breakpoint: true, ..vm }, address),
{
}

/// The machine that is about to run a method: with nothing saved and nothing left
/// of an earlier run.
pub open spec fn about_to_run(vm: VMView, method: u32, code: Arc<CodeItem>) -> VMView {
    VMView {
        frames: Seq::empty(),
        current: FrameView {
            pc: 0,
            registers: Seq::empty(),
            result: RegisterView::Empty,
            num_params: code.ins_size as usize,
            num_registers: code.register_size as usize,
            method,
            ..vm.current
        },
        ..vm
    }
}

/// A method starts in the file with the identifier that was asked for, at its
/// first instruction. The arguments are its last registers, in their order, and
/// the registers before them are empty. The heap and the static fields are as they
/// were. A file that is not there and a wrong number of arguments are reported.
pub proof fn law_method_starts(vm: VMView, method: u32, identifier: Seq<char>, code: Arc<CodeItem>, arguments: Seq<RegisterView>, registers: Seq<RegisterView>)
    requires
        arguments.len() == code.ins_size ==> {
            &&& code.register_size >= code.ins_size
            &&& registers.len() == code.register_size
            &&& forall|j: int| 0 <= j < code.register_size - code.ins_size ==> #[trigger] registers[j] == RegisterView::Empty
            &&& forall|k: int|
                0 <= k < arguments.len() ==> registers[code.register_size - code.ins_size + k] == #[trigger] arguments[k]
        },
    ensures
        ({
            let after = semantics::opening(vm, method, identifier, code, arguments);
            let empty = about_to_run(vm, method, code);
            match semantics::find_file(vm, identifier) {
                None => after == Status::Done(empty, Err::<(), ExceptionView>(ExceptionView::LinkerError)),
                Some(file) => if arguments.len() != code.ins_size {
                    after == Status::Done(
                        VMView { current: FrameView { dex: file, ..empty.current }, ..empty },
                        Err::<(), ExceptionView>(ExceptionView::WrongNumberOfArguments),
                    )
                } else {
                    after == semantics::begin(
                        VMView { current: FrameView { dex: file, registers, code, ..empty.current }, ..empty },
                        0,
                    )
                },
            }
        }),
{
    if arguments.len() == code.ins_size {
        let first = code.register_size - code.ins_size;
        assert forall|j: int| 0 <= j < registers.len() implies semantics::static_registers(*code, arguments)[j]
            == registers[j] by {
            if first <= j {
                assert(registers[first + (j - first)] == arguments[j - first]);
            }
        }
        assert(semantics::static_registers(*code, arguments) =~= registers);
    }
}

// ---------------------------------------------------------------------------
// Going through a run
// ---------------------------------------------------------------------------

/// A run goes on by one instruction for each choice, as long as it has not ended.
pub proof fn law_run_goes_by_steps(start: Status, choices: Seq<Choice>, choice: Choice)
    ensures
        semantics::run(start, Seq::empty()) == start,
        semantics::run(start, choices.push(choice)) == (match semantics::run(start, choices) {
            Status::Running(m) => semantics::step(m, choice),
            ended => ended,
        }),
{
    assert(choices.push(choice).drop_last() =~= choices);
}

/// The choices of a run are drawn exactly where each is drawn for the instruction
/// that the run has come to.
pub proof fn law_choices_are_drawn(start: Status, choices: Seq<Choice>)
    ensures
        semantics::are_drawn(start, choices) <==> forall|k: int|
            0 <= k < choices.len() ==> match #[trigger] semantics::run(start, choices.take(k)) {
                Status::Running(m) => semantics::is_drawn(m, choices[k]),
                _ => true,
            },
    decreases choices.len(),
{
    if choices.len() > 0 {
        let before = choices.drop_last();
        let n = before.len() as int;
        law_choices_are_drawn(start, before);
        assert(choices.take(n) =~= before);
        assert forall|k: int| 0 <= k < n implies choices.take(k) =~= before.take(k) && choices[k] == before[k] by {}
        if semantics::are_drawn(start, choices) {
            assert forall|k: int| 0 <= k < choices.len() implies match #[trigger] semantics::run(start, choices.take(k)) {
                Status::Running(m) => semantics::is_drawn(m, choices[k]),
                _ => true,
            } by {
                if k < n {
                    assert(choices.take(k) =~= before.take(k));
                    assert(semantics::run(start, before.take(k)) == semantics::run(start, choices.take(k)));
                }
            }
        }
        if forall|k: int|
            0 <= k < choices.len() ==> match #[trigger] semantics::run(start, choices.take(k)) {
                Status::Running(m) => semantics::is_drawn(m, choices[k]),
                _ => true,
            } {
            assert forall|k: int| 0 <= k < before.len() implies match #[trigger] semantics::run(start, before.take(k)) {
                Status::Running(m) => semantics::is_drawn(m, before[k]),
                _ => true,
            } by {
                assert(choices.take(k) =~= before.take(k));
                assert(semantics::run(start, choices.take(k)) == semantics::run(start, before.take(k)));
            }
            assert(semantics::run(start, choices.take(n)) == semantics::run(start, before));
        }
    }
}

/// A run that ended has executed a thousand instructions at most, or was cut off
/// at the next one; what it reports is where those instructions lead, with heap
/// addresses that allocation gave.
pub proof fn law_run_reports(start: Status, vm: VMView, result: Result<Progress, VMException>)
    ensures
        run::ran(start, vm, result) <==> exists|choices: Seq<Choice>|
            semantics::are_drawn(start, choices) && choices.len() <= 1001 && #[trigger] semantics::run(start, choices) == (
            match result {
                Ok(Progress::Finished) => Status::Done(vm, Ok::<(), ExceptionView>(())),
                Ok(Progress::Runtime(call)) => Status::Call(vm, call@),
                Ok(Progress::Stuck) => Status::Stuck,
                Err(exception) => Status::Done(vm, Err::<(), ExceptionView>(exception@)),
            }),
{
    if run::ran(start, vm, result) {
        let choices = choose|choices: Seq<Choice>|
            semantics::are_drawn(start, choices) && choices.len() <= semantics::MAX_STEPS + 1 && run::report(vm, result)
                == #[trigger] semantics::run(start, choices);
        assert(semantics::run(start, choices) == run::report(vm, result));
    }
}

// ---------------------------------------------------------------------------
// Heap addresses
// ---------------------------------------------------------------------------

/// The address is the first of the numbers that is not in use; there is none where
/// eleven were in use or no number came.
pub open spec fn comes_of(heap: Map<u32, ValueView>, words: Seq<Option<u32>>, address: Option<u32>) -> bool {
    let last = words[words.len() - 1];
    &&& 1 <= words.len() <= 11
    &&& forall|i: int| 0 <= i < words.len() - 1 ==> (#[trigger] words[i]) is Some && heap.contains_key(words[i]->0)
    &&& if last is None {
        address is None
    } else if heap.contains_key(last->0) {
        words.len() == 11 && address is None
    } else {
        address == last
    }
}

/// Where an address is needed it comes of numbers of the machine's generator;
/// elsewhere none is taken.
pub proof fn law_addresses_are_drawn(vm: VMView, address: Option<u32>)
    ensures
        machine::drawn(vm, false, address) <==> address is None,
        machine::drawn(vm, true, address) <==> exists|words: Seq<Option<u32>>|
            (forall|i: int| 0 <= i < words.len() ==> allocation::gave(vm.generator, #[trigger] words[i])) && #[trigger] comes_of(
                vm.heap,
                words,
                address,
            ),
{
    if machine::drawn(vm, true, address) {
        let words = choose|words: Seq<Option<u32>>|
            machine::all_given(vm.generator, words) && #[trigger] machine::allocated(vm.heap, words, address);
        assert(comes_of(vm.heap, words, address));
    }
    if exists|words: Seq<Option<u32>>|
        (forall|i: int| 0 <= i < words.len() ==> allocation::gave(vm.generator, #[trigger] words[i])) && #[trigger] comes_of(
            vm.heap,
            words,
            address,
        ) {
        let words = choose|words: Seq<Option<u32>>|
            (forall|i: int| 0 <= i < words.len() ==> allocation::gave(vm.generator, #[trigger] words[i])) && #[trigger] comes_of(
                vm.heap,
                words,
                address,
            );
        assert(machine::allocated(vm.heap, words, address));
        assert(machine::all_given(vm.generator, words));
    }
}

/// Whether the current instruction takes a heap address.
pub open spec fn takes_first(m: MachineView) -> bool {
    semantics::needs_first(m.vm, *m.dex, step_laws::insn(m).operation())
}

/// Whether the current instruction takes a heap address besides `first`.
pub open spec fn takes_second(m: MachineView, first: Option<u32>) -> bool {
    semantics::needs_second(m.vm, *m.dex, step_laws::insn(m).operation(), first)
}

/// A choice is drawn where each address is that the instruction takes, and no
/// other. The instruction that is refused after a thousand takes none.
pub proof fn law_choice_is_drawn(m: MachineView, choice: Choice)
    ensures
        semantics::is_drawn(m, choice) <==> {
            &&& machine::drawn(m.vm, m.steps < 1000 && takes_first(m), choice.first)
            &&& machine::drawn(m.vm, m.steps < 1000 && takes_second(m, choice.first), choice.second)
        },
{
}

/// The instructions that make nothing take no heap address.
pub open spec fn makes_nothing(insn: Instruction) -> bool {
    &&& !(insn is ConstString)
    &&& !(insn is NewInstance)
    &&& !(insn is NewArray)
    &&& !(insn is FilledNewArray)
    &&& !(insn is InstancePut)
    &&& !(insn is StaticGetObject)
}

/// An instruction that makes a string, an object or an array takes a heap address
/// where it can make it. Others take none, but for those that set a field for the
/// first time or read a static field.
pub proof fn law_addresses_for_objects(m: MachineView, first: Option<u32>, n: i32)
    ensures
        ({
            let insn = step_laws::insn(m);
            &&& makes_nothing(insn) ==> !takes_first(m)
            &&& !(insn is StaticGetObject) ==> !takes_second(m, first)
            &&& insn is FilledNewArray ==> takes_first(m)
            &&& insn is ConstString ==> (takes_first(m) <==> insn->ConstString_1 < m.vm.current.dex.strings@.len())
            &&& insn is NewInstance ==> (takes_first(m) <==> semantics::find_class(
                m.vm,
                *m.dex,
                insn->NewInstance_1 as u32,
            ) is Ok)
            &&& insn is NewArray && heap_laws::holds_none(m.vm, insn->NewArray_1) ==> !takes_first(m)
            &&& insn is NewArray && heap_laws::holds(m.vm, insn->NewArray_1, n) ==> (takes_first(m) <==> 0 <= n <= 100_000)
        }),
{
}

/// Setting an integer field takes a heap address where the field was never set.
pub proof fn law_addresses_for_fields(m: MachineView, src: u8, object: u8, field: u16, i: int, name: Seq<char>, owner: u32, instance: InstanceView, n: i32)
    requires
        step_laws::insn(m) == Instruction::InstancePut(src, object, field),
    ensures
        field >= m.dex.fields@.len() ==> !takes_first(m),
        field < m.dex.fields@.len() && lookup_laws::no_class_of_type(*m.dex, m.dex.fields@[field as int].class_idx as u32)
            ==> !takes_first(m),
        heap_laws::holds_none(m.vm, src) || heap_laws::refers_nowhere(m.vm, object) ==> !takes_first(m),
        heap_laws::refers(m.vm, object, owner) && heap_laws::no_object_at(m.vm, owner) ==> !takes_first(m),
        lookup_laws::stored_as(*m.dex, field, i, name) && heap_laws::holds(m.vm, src, n) && heap_laws::refers(
            m.vm,
            object,
            owner,
        ) && heap_laws::is_object_at(m.vm, owner, instance) ==> (takes_first(m) <==> !instance.instances.contains_key(name)),
{
    lookup_laws::lemma_classes();
    lookup_laws::lemma_field_names();
    assert(step_laws::insn(m).operation() == (Operation::InstancePut { src: src as usize, object: object as usize, field }));
}

/// Reading a static field takes a heap address for the text that the field starts
/// with, where nothing was stored in it and no initializer has just run. It takes
/// one for what the platform hands out where there is nothing else to read: no
/// object, no text and no initializer that is about to run.
pub proof fn law_addresses_for_static_fields(m: MachineView, dst: u8, field: u16, name: Seq<char>, i: int, first: Option<u32>)
    requires
        step_laws::insn(m) == Instruction::StaticGetObject(dst, field),
    ensures
        field >= m.dex.fields@.len() || m.dex.fields@[field as int].class_idx >= m.dex.type_names@.len() ==> !takes_first(m)
            && !takes_second(m, first),
        field_laws::read_as(*m.dex, field, name) ==> ({
            let class_idx = m.dex.fields@[field as int].class_idx as u32;
            let waits = m.vm.current.state == ExecutionState::RunningStaticInitializer;
            let stored = m.vm.instances.contains_key(name);
            let class = *m.vm.dex_file.classes@[i];
            &&& stored ==> !takes_first(m) && !takes_second(m, first)
            &&& waits ==> !takes_first(m)
            &&& waits && !stored ==> (takes_second(m, first) <==> field_laws::is_handed_out(*m.dex, field))
            &&& lookup_laws::no_class_of_type(*m.vm.dex_file, class_idx) && !stored ==> {
                &&& !takes_first(m)
                &&& takes_second(m, first) <==> field_laws::is_handed_out(*m.dex, field)
            }
            &&& lookup_laws::is_class_of_type(*m.vm.dex_file, class_idx, i) && !stored && !waits ==> {
                &&& takes_first(m) <==> semantics::initial_text(*m.vm.dex_file, class, field) is Some
                &&& takes_second(m, first) <==> field_laws::is_handed_out(*m.dex, field) && first is None
                    && semantics::initializer(class) is None
            }
        }),
{
    lookup_laws::lemma_classes();
    assert(step_laws::insn(m).operation() == (Operation::StaticGetObject { dst: dst as usize, field }));
}

} // verus!
