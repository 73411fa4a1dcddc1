//! What calls and returns are for: what the method that is entered finds in its
//! registers, what is saved meanwhile, where a run stops on the way, and what a
//! return brings back.

use vstd::prelude::*;
use std::sync::Arc;
use crate::instruction::{CodeItem, Instruction};
use crate::models::{DexFile, MethodData};
use crate::vm::exception::{BreakpointContext, ExceptionView, ExecutionState};
use crate::vm::heap_laws;
use crate::vm::register::RegisterView;
use crate::vm::semantics;
use crate::vm::semantics::{CallView, Choice, MachineView, Status};
use crate::vm::state::{FrameView, VMView};
use crate::vm::step_laws;

verus! {

// ---------------------------------------------------------------------------
// Arguments
// ---------------------------------------------------------------------------

/// The machine watches what is passed to calls.
pub open spec fn is_watching(vm: VMView) -> bool {
    (vm.stop_on_array_use || vm.stop_on_string_use) && vm.current.state == ExecutionState::Running
}

/// The machine looks at argument `k` before it is passed: it does not at those
/// before the one at which it stopped last, and passes over the first one that it
/// would look at where that was asked for.
pub open spec fn is_looked_at(vm: VMView, k: int) -> bool {
    &&& is_watching(vm)
    &&& k >= vm.current.break_register
    &&& !(vm.skip_next_breakpoint && k == vm.current.break_register)
}

/// The register refers to an array that the machine watches for.
pub open spec fn is_watched_array(vm: VMView, register: u8) -> bool {
    exists|address: u32, data: Seq<u8>|
        vm.stop_on_array_use && heap_laws::refers(vm, register, address) && #[trigger] heap_laws::is_array_at(vm, address, data)
}

/// The register refers to a string that the machine watches for. A call on an
/// object stops at strings wherever it watches at all.
pub open spec fn is_watched_string(vm: VMView, register: u8, on_object: bool) -> bool {
    &&& vm.stop_on_string_use || on_object
    &&& exists|address: u32|
        #[trigger] heap_laws::refers(vm, register, address) && vm.heap.contains_key(address) && vm.heap[address] is Object
            && vm.heap[address]->Object_0.class.class_name@ == "Ljava/lang/String;"@
}

/// What makes the machine stop at a register that is about to be passed.
pub open spec fn stop_of(vm: VMView, register: u8, method: u16, on_object: bool, context: BreakpointContext) -> bool {
    ||| is_watched_array(vm, register) && context == BreakpointContext::ArrayReg(register as u16, method)
    ||| is_watched_string(vm, register, on_object) && context == BreakpointContext::StringReg(register as u16, method)
}

/// Nothing makes the machine stop at a register that is about to be passed.
pub open spec fn no_stop(vm: VMView, register: u8, on_object: bool) -> bool {
    !is_watched_array(vm, register) && !is_watched_string(vm, register, on_object)
}

/// The first `k` arguments are passed: their registers are there, and the machine
/// stops at none of them.
pub open spec fn passes(vm: VMView, registers: Seq<u8>, k: int, on_object: bool) -> bool {
    forall|l: int|
        0 <= l < k ==> (#[trigger] registers[l]) < vm.current.registers.len() && (is_looked_at(vm, l) ==> no_stop(
            vm,
            registers[l],
            on_object,
        ))
}

/// Whether a stop is still to be passed over when `k` arguments were passed.
pub open spec fn still_skips(vm: VMView, k: int) -> bool {
    vm.skip_next_breakpoint && !(is_watching(vm) && k > vm.current.break_register)
}

/// What the first `k` argument registers hold.
pub open spec fn passed(vm: VMView, registers: Seq<u8>, k: int) -> Seq<RegisterView> {
    Seq::new(k as nat, |l: int| vm.current.registers[registers[l] as int])
}

proof fn lemma_stop(vm: VMView, register: u8, method: u16, on_object: bool, context: BreakpointContext)
    requires
        register < vm.current.registers.len(),
        vm.stop_on_array_use || vm.stop_on_string_use,
    ensures
        no_stop(vm, register, on_object) ==> semantics::stop_at_argument(
            vm,
            vm.current.registers[register as int],
            register,
            method,
            on_object,
        ) is None,
        stop_of(vm, register, method, on_object, context) ==> semantics::stop_at_argument(
            vm,
            vm.current.registers[register as int],
            register,
            method,
            on_object,
        ) == Some(context),
{
    match vm.current.registers[register as int] {
        RegisterView::Reference(_, address) => {
            assert(heap_laws::refers(vm, register, address));
            if vm.heap.contains_key(address) && vm.heap[address] is Array {
                assert(heap_laws::is_array_at(vm, address, vm.heap[address]->Array_0));
            }
        },
        _ => {},
    }
}

proof fn lemma_passes(vm: VMView, registers: Seq<u8>, k: int, method: u16, site: u32, on_object: bool)
    requires
        0 <= k <= registers.len(),
        k <= u32::MAX,
        passes(vm, registers, k, on_object),
    ensures
        semantics::pass_arguments(vm, Seq::empty(), registers, 0, method, site, on_object) == semantics::pass_arguments(
            VMView { skip_next_breakpoint: still_skips(vm, k), ..vm },
            passed(vm, registers, k),
            registers,
            k,
            method,
            site,
            on_object,
        ),
    decreases k,
{
    if k == 0 {
        assert(passed(vm, registers, 0) =~= Seq::empty());
        assert(VMView { skip_next_breakpoint: still_skips(vm, 0), ..vm } == vm);
    } else {
        let l = k - 1;
        assert(passes(vm, registers, l, on_object));
        lemma_passes(vm, registers, l, method, site, on_object);
        let here = VMView { skip_next_breakpoint: still_skips(vm, l), ..vm };
        let argument = vm.current.registers[registers[l] as int];
        assert(passed(vm, registers, l).push(argument) =~= passed(vm, registers, k));
        assert((l as u32) as int == l);
        if is_watching(vm) {
            lemma_same_stop(vm, here, registers[l], on_object);
            lemma_stop(here, registers[l], method, on_object, BreakpointContext::Nothing);
        }
        reveal_with_fuel(semantics::pass_arguments, 1);
    }
}

proof fn lemma_same_stop(vm: VMView, other: VMView, register: u8, on_object: bool)
    requires
        other == (VMView { skip_next_breakpoint: other.skip_next_breakpoint, ..vm }),
    ensures
        no_stop(vm, register, on_object) ==> no_stop(other, register, on_object),
        forall|method: u16, context: BreakpointContext| #[trigger]
            stop_of(vm, register, method, on_object, context) ==> stop_of(other, register, method, on_object, context),
{
    assert forall|address: u32, data: Seq<u8>| #[trigger] heap_laws::is_array_at(other, address, data) implies heap_laws::is_array_at(
        vm,
        address,
        data,
    ) by {}
    assert forall|address: u32, data: Seq<u8>| #[trigger] heap_laws::is_array_at(vm, address, data) implies heap_laws::is_array_at(
        other,
        address,
        data,
    ) by {}
    assert forall|address: u32| #[trigger] heap_laws::refers(other, register, address) implies heap_laws::refers(
        vm,
        register,
        address,
    ) by {}
    assert forall|address: u32| #[trigger] heap_laws::refers(vm, register, address) implies heap_laws::refers(
        other,
        register,
        address,
    ) by {}
}

/// A call on an object or a static call, of this method with these registers.
pub open spec fn is_call(insn: Instruction, method: u16, registers: Seq<u8>, on_object: bool) -> bool {
    match insn {
        Instruction::InvokeVirtual(_, called, arguments) => on_object && called == method && arguments@ == registers,
        Instruction::InvokeDirect(_, called, arguments) => on_object && called == method && arguments@ == registers,
        Instruction::InvokeStatic(_, called, arguments) => !on_object && called == method && arguments@ == registers,
        _ => false,
    }
}

proof fn lemma_invoked(m: MachineView, choice: Choice, method: u16, registers: Seq<u8>, on_object: bool)
    requires
        step_laws::is_ready(m),
        is_call(step_laws::insn(m), method, registers, on_object),
    ensures
        semantics::step(m, choice) == semantics::invoke(
            semantics::begun(m),
            method,
            if on_object {
                None
            } else {
                Some(step_laws::insn(m)->InvokeStatic_0)
            },
            registers,
        ),
{
    reveal(semantics::perform);
}

/// With more than twenty calls open no other one is made.
pub proof fn law_too_many_calls(m: MachineView, choice: Choice, method: u16, registers: Seq<u8>, on_object: bool)
    requires
        step_laws::is_ready(m),
        is_call(step_laws::insn(m), method, registers, on_object),
        m.vm.frames.len() > 20,
    ensures
        step_laws::fails(m, semantics::step(m, choice), ExceptionView::StackOverflow),
{
    lemma_invoked(m, choice, method, registers, on_object);
}

/// The machine after `k` arguments of a call were passed.
pub open spec fn on_the_way(m: MachineView, k: int) -> VMView {
    VMView {
        current: FrameView { size: step_laws::units(m), ..m.vm.current },
        skip_next_breakpoint: still_skips(m.vm, k),
        ..m.vm
    }
}

proof fn lemma_begun(m: MachineView, registers: Seq<u8>, k: int, on_object: bool)
    ensures
        passes(m.vm, registers, k, on_object) == passes(semantics::begun(m).vm, registers, k, on_object),
        passed(m.vm, registers, k) == passed(semantics::begun(m).vm, registers, k),
        forall|register: u8|
            #[trigger] no_stop(m.vm, register, on_object) == no_stop(semantics::begun(m).vm, register, on_object),
        forall|register: u8, method: u16, context: BreakpointContext| #[trigger]
            stop_of(m.vm, register, method, on_object, context) == stop_of(
                semantics::begun(m).vm,
                register,
                method,
                on_object,
                context,
            ),
{
    let vm = m.vm;
    let other = semantics::begun(m).vm;
    assert forall|address: u32, data: Seq<u8>|
        #[trigger] heap_laws::is_array_at(other, address, data) == heap_laws::is_array_at(vm, address, data) by {}
    assert forall|register: u8, address: u32|
        #[trigger] heap_laws::refers(other, register, address) == heap_laws::refers(vm, register, address) by {}
    assert forall|register: u8| is_watched_array(vm, register) == #[trigger] is_watched_array(other, register) by {
        if is_watched_array(vm, register) {
            let (address, data) = choose|address: u32, data: Seq<u8>|
                vm.stop_on_array_use && heap_laws::refers(vm, register, address) && #[trigger] heap_laws::is_array_at(
                    vm,
                    address,
                    data,
                );
            assert(heap_laws::is_array_at(other, address, data));
        }
        if is_watched_array(other, register) {
            let (address, data) = choose|address: u32, data: Seq<u8>|
                other.stop_on_array_use && heap_laws::refers(other, register, address) && #[trigger] heap_laws::is_array_at(
                    other,
                    address,
                    data,
                );
            assert(heap_laws::is_array_at(vm, address, data));
        }
    }
    assert forall|register: u8| is_watched_string(vm, register, on_object) == #[trigger] is_watched_string(
        other,
        register,
        on_object,
    ) by {
        assert forall|address: u32| heap_laws::refers(vm, register, address) == #[trigger] heap_laws::refers(
            other,
            register,
            address,
        ) by {}
        if is_watched_string(vm, register, on_object) {
            let address = choose|address: u32|
                #[trigger] heap_laws::refers(vm, register, address) && vm.heap.contains_key(address) && vm.heap[address] is Object
                    && vm.heap[address]->Object_0.class.class_name@ == "Ljava/lang/String;"@;
            assert(heap_laws::refers(other, register, address));
        }
    }
    assert(passed(vm, registers, k) =~= passed(other, registers, k));
    assert forall|l: int| is_looked_at(vm, l) == #[trigger] is_looked_at(other, l) by {}
    assert forall|register: u8| #[trigger] no_stop(vm, register, on_object) == no_stop(other, register, on_object) by {
        assert(is_watched_array(vm, register) == is_watched_array(other, register));
        assert(is_watched_string(vm, register, on_object) == is_watched_string(other, register, on_object));
    }
    assert forall|register: u8, method: u16, context: BreakpointContext| #[trigger]
        stop_of(vm, register, method, on_object, context) == stop_of(other, register, method, on_object, context) by {
        assert(is_watched_array(vm, register) == is_watched_array(other, register));
        assert(is_watched_string(vm, register, on_object) == is_watched_string(other, register, on_object));
    }
}

/// An argument whose register is missing ends the run.
pub proof fn law_missing_argument(m: MachineView, choice: Choice, method: u16, registers: Seq<u8>, on_object: bool, k: int)
    requires
        step_laws::is_ready(m),
        is_call(step_laws::insn(m), method, registers, on_object),
        m.vm.frames.len() <= 20,
        0 <= k < registers.len(),
        k <= u32::MAX,
        passes(m.vm, registers, k, on_object),
        registers[k] >= m.vm.current.registers.len(),
    ensures
        semantics::step(m, choice) == Status::Done(
            on_the_way(m, k),
            Err::<(), ExceptionView>(ExceptionView::RegisterNotFound(registers[k] as usize)),
        ),
{
    lemma_invoked(m, choice, method, registers, on_object);
    lemma_begun(m, registers, k, on_object);
    let site = if on_object {
        m.vm.current.method
    } else {
        m.method
    };
    lemma_passes(semantics::begun(m).vm, registers, k, method, site, on_object);
    reveal_with_fuel(semantics::pass_arguments, 1);
}

/// The machine stops at the first argument that it watches for: before the call,
/// with the register and the method that was to get it. It notes which argument
/// that was. A static call reports the method that was called last, a call on an
/// object the running one.
pub proof fn law_stop_at_argument(m: MachineView, choice: Choice, method: u16, registers: Seq<u8>, on_object: bool, k: int, context: BreakpointContext)
    requires
        step_laws::is_ready(m),
        is_call(step_laws::insn(m), method, registers, on_object),
        m.vm.frames.len() <= 20,
        0 <= k < registers.len(),
        k <= u32::MAX,
        passes(m.vm, registers, k, on_object),
        registers[k] < m.vm.current.registers.len(),
        is_looked_at(m.vm, k),
        stop_of(m.vm, registers[k], method, on_object, context),
    ensures
        ({
            let vm = on_the_way(m, k);
            semantics::step(m, choice) == Status::Done(
                VMView {
                    current: FrameView { state: ExecutionState::Paused, break_register: k as u32, ..vm.current },
                    skip_next_breakpoint: false,
                    ..vm
                },
                Err::<(), ExceptionView>(
                    ExceptionView::Breakpoint(
                        m.vm.current.pc,
                        if on_object {
                            m.vm.current.method
                        } else {
                            m.method
                        },
                        context,
                    ),
                ),
            )
        }),
{
    lemma_invoked(m, choice, method, registers, on_object);
    lemma_begun(m, registers, k, on_object);
    let begun = semantics::begun(m).vm;
    let site = if on_object {
        m.vm.current.method
    } else {
        m.method
    };
    lemma_passes(begun, registers, k, method, site, on_object);
    let here = VMView { skip_next_breakpoint: still_skips(begun, k), ..begun };
    assert(!still_skips(begun, k));
    lemma_same_stop(begun, here, registers[k], on_object);
    lemma_stop(here, registers[k], method, on_object, context);
    reveal_with_fuel(semantics::pass_arguments, 1);
}

// ---------------------------------------------------------------------------
// Entering a method
// ---------------------------------------------------------------------------

/// The machine when a call has been made: the running frame is saved, without a
/// note of the argument at which it stopped last.
pub open spec fn calling(m: MachineView, method: u16, count: int) -> VMView {
    let frame = FrameView { size: step_laws::units(m), break_register: 0, ..m.vm.current };
    VMView {
        frames: m.vm.frames.push(frame),
        current: FrameView { method: method as u32, ..frame },
        skip_next_breakpoint: still_skips(m.vm, count),
        ..m.vm
    }
}

/// All arguments of the call are passed.
pub open spec fn is_passed(m: MachineView, method: u16, registers: Seq<u8>, on_object: bool) -> bool {
    &&& is_call(step_laws::insn(m), method, registers, on_object)
    &&& m.vm.frames.len() <= 20
    &&& registers.len() <= u32::MAX
    &&& passes(m.vm, registers, registers.len() as int, on_object)
}

proof fn lemma_called(m: MachineView, choice: Choice, method: u16, registers: Seq<u8>, on_object: bool)
    requires
        step_laws::is_ready(m),
        is_passed(m, method, registers, on_object),
    ensures
        semantics::step(m, choice) == semantics::call(
            semantics::begun(m),
            on_the_way(m, registers.len() as int),
            method,
            if on_object {
                None
            } else {
                Some(step_laws::insn(m)->InvokeStatic_0)
            },
            passed(m.vm, registers, registers.len() as int),
        ),
        semantics::saved(on_the_way(m, registers.len() as int), method) == calling(m, method, registers.len() as int),
{
    let k = registers.len() as int;
    lemma_invoked(m, choice, method, registers, on_object);
    lemma_begun(m, registers, k, on_object);
    let site = if on_object {
        m.vm.current.method
    } else {
        m.method
    };
    lemma_passes(semantics::begun(m).vm, registers, k, method, site, on_object);
    reveal_with_fuel(semantics::pass_arguments, 1);
}

/// The run has entered the body of a method, which `file` defines: in a new frame
/// with these registers, at its first instruction.
pub open spec fn has_entered(m: MachineView, after: Status, vm: VMView, file: Arc<DexFile>, code: Arc<CodeItem>, registers: Seq<RegisterView>) -> bool {
    let entered = VMView {
        current: FrameView {
            pc: 0,
            registers,
            result: RegisterView::Empty,
            num_params: code.ins_size as usize,
            num_registers: code.register_size as usize,
            code,
            dex: file,
            ..vm.current
        },
        ..vm
    };
    match after {
        Status::Running(n) => {
            &&& n.vm == entered
            &&& n.code == code
            &&& n.dex == file
            &&& n.method == vm.current.method
            &&& n.steps == m.steps + 1
            &&& step_laws::stands_at(*code, n.index, 0)
        },
        Status::Done(left, result) => {
            &&& left == entered
            &&& step_laws::nothing_at(*code, 0)
            &&& result == Err::<(), ExceptionView>(ExceptionView::NoInstructionAtAddress(vm.current.method, 0))
        },
        _ => false,
    }
}

/// The registers of a method that is called on an object: of `r` registers the
/// last `n` are its parameters, and hold the arguments in their order as far as
/// there are any. All other registers are empty.
pub open spec fn holds_arguments(registers: Seq<RegisterView>, r: int, n: int, arguments: Seq<RegisterView>) -> bool {
    &&& registers.len() == r
    &&& forall|j: int| 0 <= j < r - n ==> #[trigger] registers[j] == RegisterView::Empty
    &&& forall|k: int| 0 <= k < n && k < arguments.len() ==> registers[r - n + k] == #[trigger] arguments[k]
    &&& forall|j: int| r - n + arguments.len() <= j < r && 0 <= j ==> #[trigger] registers[j] == RegisterView::Empty
}

/// A call on an object enters the method that was found. Its last registers hold
/// the arguments, in their order; the registers before them are empty.
pub proof fn law_call_on_object_enters(m: MachineView, choice: Choice, method: u16, registers: Seq<u8>, file: Arc<DexFile>, found: MethodData, code: Arc<CodeItem>, inside: Seq<RegisterView>)
    requires
        step_laws::is_ready(m),
        is_passed(m, method, registers, true),
        semantics::find_method(m.vm.runtime, m.dex, method as u32) == Ok::<(Arc<DexFile>, MethodData), ExceptionView>((file, found)),
        found.code == Some(code),
        code.register_size >= code.ins_size,
        holds_arguments(
            inside,
            code.register_size as int,
            code.ins_size as int,
            passed(m.vm, registers, registers.len() as int),
        ),
    ensures
        has_entered(
            m,
            semantics::step(m, choice),
            calling(m, method, registers.len() as int),
            file,
            code,
            inside,
        ),
{
    lemma_called(m, choice, method, registers, true);
    let arguments = passed(m.vm, registers, registers.len() as int);
    lemma_padded(code, arguments, inside);
    step_laws::lemma_fetches();
}

proof fn lemma_padded(code: Arc<CodeItem>, arguments: Seq<RegisterView>, inside: Seq<RegisterView>)
    requires
        code.register_size >= code.ins_size,
        holds_arguments(inside, code.register_size as int, code.ins_size as int, arguments),
    ensures
        semantics::padded_registers(*code, arguments) == inside,
{
    let r = code.register_size as int;
    let n = code.ins_size as int;
    assert forall|j: int| 0 <= j < r implies semantics::padded_registers(*code, arguments)[j] == inside[j] by {
        if r - n <= j < r - n + arguments.len() {
            assert(inside[r - n + (j - (r - n))] == arguments[j - (r - n)]);
        }
    }
    assert(semantics::padded_registers(*code, arguments) =~= inside);
}

/// After a call on an object that enters a method with `n` parameters in `r`
/// registers, register `r - n + k` holds what the `k`-th argument register of the
/// caller held, for every `k` below `n` and below the number of arguments. The
/// registers before `r - n` are empty, and the caller's frame is saved as it was.
pub proof fn law_arguments_keep_their_order(m: MachineView, choice: Choice, method: u16, registers: Seq<u8>, file: Arc<DexFile>, found: MethodData, code: Arc<CodeItem>)
    requires
        step_laws::is_ready(m),
        is_passed(m, method, registers, true),
        semantics::find_method(m.vm.runtime, m.dex, method as u32) == Ok::<(Arc<DexFile>, MethodData), ExceptionView>((file, found)),
        found.code == Some(code),
        code.register_size >= code.ins_size,
    ensures
        ({
            let vm = heap_laws::machine_after(semantics::step(m, choice));
            let first = code.register_size - code.ins_size;
            &&& vm.current.registers.len() == code.register_size
            &&& forall|k: int|
                0 <= k < code.ins_size && k < registers.len() ==> vm.current.registers[first + k] == m.vm.current.registers[(
                #[trigger] registers[k]) as int]
            &&& forall|j: int| 0 <= j < first ==> #[trigger] vm.current.registers[j] == RegisterView::Empty
            &&& vm.frames.len() == m.vm.frames.len() + 1
            &&& vm.frames.last().registers == m.vm.current.registers
            &&& vm.frames.last().pc == m.vm.current.pc
            &&& vm.heap == m.vm.heap
        }),
{
    let arguments = passed(m.vm, registers, registers.len() as int);
    let r = code.register_size as int;
    let n = code.ins_size as int;
    let inside = Seq::new(
        r as nat,
        |j: int|
            if r - n <= j < r - n + arguments.len() {
                arguments[j - (r - n)]
            } else {
                RegisterView::Empty
            },
    );
    law_call_on_object_enters(m, choice, method, registers, file, found, code, inside);
    let vm = heap_laws::machine_after(semantics::step(m, choice));
    assert(vm.current.registers == inside);
    assert forall|k: int| 0 <= k < code.ins_size && k < registers.len() implies vm.current.registers[r - n + k]
        == m.vm.current.registers[(#[trigger] registers[k]) as int] by {
        assert(inside[r - n + k] == arguments[k]);
    }
}

/// A static call enters the method that was found where it announces as many
/// arguments as the method has parameters. The arguments are its last registers,
/// in their order; those before them are empty.
pub proof fn law_static_call_enters(m: MachineView, choice: Choice, method: u16, registers: Seq<u8>, file: Arc<DexFile>, found: MethodData, code: Arc<CodeItem>, inside: Seq<RegisterView>)
    requires
        step_laws::is_ready(m),
        is_passed(m, method, registers, false),
        semantics::find_method(m.vm.runtime, m.dex, method as u32) == Ok::<(Arc<DexFile>, MethodData), ExceptionView>((file, found)),
        found.code == Some(code),
        code.register_size >= code.ins_size,
        inside.len() == code.register_size - code.ins_size + registers.len(),
        forall|j: int| 0 <= j < code.register_size - code.ins_size ==> #[trigger] inside[j] == RegisterView::Empty,
        forall|k: int|
            0 <= k < registers.len() ==> inside[code.register_size - code.ins_size + k] == m.vm.current.registers[(
            #[trigger] registers[k]) as int],
    ensures
        ({
            let after = semantics::step(m, choice);
            let vm = calling(m, method, registers.len() as int);
            if step_laws::insn(m)->InvokeStatic_0 == code.ins_size {
                has_entered(m, after, vm, file, code, inside)
            } else {
                after == Status::Done(vm, Err::<(), ExceptionView>(ExceptionView::WrongNumberOfArguments))
            }
        }),
{
    lemma_called(m, choice, method, registers, false);
    let arguments = passed(m.vm, registers, registers.len() as int);
    let first = code.register_size - code.ins_size;
    assert forall|j: int| 0 <= j < inside.len() implies semantics::static_registers(*code, arguments)[j] == inside[j] by {
        if first <= j {
            assert(inside[first + (j - first)] == m.vm.current.registers[registers[j - first] as int]);
        }
    }
    assert(semantics::static_registers(*code, arguments) =~= inside);
    step_laws::lemma_fetches();
}

/// A method without a body cannot be entered, nor one that has another number of
/// parameters than a static call announces. One with more parameters than
/// registers has no defined result. A method that is not found is left to a
/// builtin, with the arguments in their order; a call on an object requires its
/// answer.
pub proof fn law_call_not_entered(m: MachineView, choice: Choice, method: u16, registers: Seq<u8>, on_object: bool)
    requires
        step_laws::is_ready(m),
        is_passed(m, method, registers, on_object),
    ensures
        ({
            let after = semantics::step(m, choice);
            let vm = calling(m, method, registers.len() as int);
            match semantics::find_method(m.vm.runtime, m.dex, method as u32) {
                Ok((file, found)) => match found.code {
                    None => after == Status::Done(vm, Err::<(), ExceptionView>(ExceptionView::MethodNotFound(found.name@))),
                    Some(code) => {
                        let fits = on_object || step_laws::insn(m)->InvokeStatic_0 == code.ins_size;
                        &&& !fits ==> after == Status::Done(
                            vm,
                            Err::<(), ExceptionView>(ExceptionView::WrongNumberOfArguments),
                        )
                        &&& fits && code.register_size < code.ins_size ==> after is Stuck
                    },
                },
                Err(_) => match after {
                    Status::Call(left, call) => {
                        &&& left == vm
                        &&& call.dex == m.dex
                        &&& call.method == method
                        &&& call.arguments.len() == registers.len()
                        &&& forall|k: int|
                            0 <= k < registers.len() ==> call.arguments[k] == m.vm.current.registers[(
                            #[trigger] registers[k]) as int]
                        &&& call.required == on_object
                        &&& call.code == m.code
                        &&& call.size == m.code.insns@[m.index].0.0
                        &&& call.steps == m.steps + 1
                    },
                    _ => false,
                },
            }
        }),
{
    lemma_called(m, choice, method, registers, on_object);
}

// ---------------------------------------------------------------------------
// Returning
// ---------------------------------------------------------------------------

/// The run goes on in the frame that runs in `vm`, behind the instruction at its
/// address, which is entry `k` of its method. A frame that waits for an
/// initializer executes that instruction again, and a finished one ends the run.
pub open spec fn resumes(after: Status, vm: VMView, k: int, method: u32, steps: int) -> bool {
    let frame = vm.current;
    let size = frame.code.insns@[k].0.0 / 2;
    let behind = VMView {
        current: FrameView { pc: frame.pc.wrapping_add(size), last_size: size, ..frame },
        ..vm
    };
    if frame.state == ExecutionState::Finished {
        after == Status::Done(vm, Ok::<(), ExceptionView>(()))
    } else if frame.state == ExecutionState::RunningStaticInitializer {
        after == Status::Running(MachineView { vm, code: frame.code, index: k, dex: frame.dex, method, steps })
    } else {
        match after {
            Status::Running(n) => {
                &&& n.vm == behind
                &&& n.code == frame.code
                &&& n.dex == frame.dex
                &&& n.method == method
                &&& n.steps == steps
                &&& step_laws::stands_at(*frame.code, n.index, behind.current.pc)
            },
            Status::Done(left, result) => {
                &&& left == behind
                &&& step_laws::nothing_at(*frame.code, behind.current.pc)
                &&& result == Err::<(), ExceptionView>(
                    ExceptionView::NoInstructionAtAddress(frame.method, behind.current.pc as usize),
                )
            },
            _ => false,
        }
    }
}

/// A return without a value goes back to the frame that was saved last, which is
/// as it was, behind the call. With no frame saved the run has finished.
pub proof fn law_return_void(m: MachineView, choice: Choice, k: int)
    requires
        step_laws::is_ready(m),
        step_laws::insn(m) is ReturnVoid,
    ensures
        ({
            let after = semantics::step(m, choice);
            let caller = m.vm.frames[m.vm.frames.len() - 1];
            let back = VMView { current: caller, frames: m.vm.frames.take(m.vm.frames.len() - 1), ..m.vm };
            &&& m.vm.frames.len() == 0 ==> after == Status::Done(
                VMView {
                    current: FrameView { size: step_laws::units(m), state: ExecutionState::Finished, ..m.vm.current },
                    ..m.vm
                },
                Ok::<(), ExceptionView>(()),
            )
            &&& m.vm.frames.len() > 0 && step_laws::stands_at(*caller.code, k, caller.pc) ==> resumes(
                after,
                back,
                k,
                m.method,
                m.steps + 1,
            )
            &&& m.vm.frames.len() > 0 && step_laws::nothing_at(*caller.code, caller.pc) ==> after == Status::Done(
                back,
                Err::<(), ExceptionView>(ExceptionView::NoInstructionAtAddress(caller.method, caller.pc as usize)),
            )
        }),
{
    step_laws::lemma_stands();
    step_laws::lemma_fetches();
    reveal(semantics::perform);
    assert(m.vm.frames.len() > 0 ==> m.vm.frames.drop_last() =~= m.vm.frames.take(m.vm.frames.len() - 1));
}

/// The register refers to something of the type of byte arrays, character arrays
/// or strings.
pub open spec fn is_watched_return(vm: VMView, register: u8) -> bool {
    &&& vm.stop_on_array_return || vm.stop_on_string_return
    &&& register < vm.current.registers.len()
    &&& match vm.current.registers[register as int] {
        RegisterView::Reference(ty, _) => ty == "[B"@ || ty == "[C"@ || ty == "Ljava/lang/String;"@,
        _ => false,
    }
}

/// The machine stops before the return of an array or a string that it watches
/// for, unless a stop is to be passed over.
pub proof fn law_stop_at_return(m: MachineView, choice: Choice, register: u8)
    requires
        step_laws::is_ready(m),
        step_laws::insn(m) == Instruction::Return(register),
        is_watched_return(m.vm, register),
        !m.vm.skip_next_breakpoint,
    ensures
        step_laws::fails(
            m,
            semantics::step(m, choice),
            ExceptionView::Breakpoint(
                m.vm.current.pc,
                m.vm.current.method,
                BreakpointContext::ResultObjectRegister(register as u16),
            ),
        ),
{
    reveal(semantics::perform);
}

/// A return brings what the register holds back as the result of the call; a
/// register that is missing leaves the last result. The frame that was saved last
/// is otherwise as it was. The request to pass over a stop is used up.
pub proof fn law_return(m: MachineView, choice: Choice, register: u8, k: int)
    requires
        step_laws::is_ready(m),
        step_laws::insn(m) == Instruction::Return(register),
        !is_watched_return(m.vm, register) || m.vm.skip_next_breakpoint,
    ensures
        ({
            let after = semantics::step(m, choice);
            let result = if register < m.vm.current.registers.len() {
                m.vm.current.registers[register as int]
            } else {
                m.vm.current.result
            };
            let caller = m.vm.frames[m.vm.frames.len() - 1];
            let back = VMView {
                current: FrameView { result, ..caller },
                frames: m.vm.frames.take(m.vm.frames.len() - 1),
                skip_next_breakpoint: false,
                ..m.vm
            };
            &&& m.vm.frames.len() == 0 ==> after == Status::Done(
                VMView {
                    current: FrameView {
                        size: step_laws::units(m),
                        result,
                        state: ExecutionState::Finished,
                        ..m.vm.current
                    },
                    skip_next_breakpoint: false,
                    ..m.vm
                },
                Ok::<(), ExceptionView>(()),
            )
            &&& m.vm.frames.len() > 0 && step_laws::stands_at(*caller.code, k, caller.pc) ==> resumes(
                after,
                back,
                k,
                m.method,
                m.steps + 1,
            )
            &&& m.vm.frames.len() > 0 && step_laws::nothing_at(*caller.code, caller.pc) ==> after is Stuck
        }),
{
    step_laws::lemma_stands();
    step_laws::lemma_fetches();
    reveal(semantics::perform);
    assert(m.vm.frames.len() > 0 ==> m.vm.frames.drop_last() =~= m.vm.frames.take(m.vm.frames.len() - 1));
}

// ---------------------------------------------------------------------------
// Builtins
// ---------------------------------------------------------------------------

/// The run goes on behind the call that a builtin has answered.
pub open spec fn goes_on_behind(after: Status, vm: VMView, call: CallView, method: u32) -> bool {
    let behind = VMView {
        current: FrameView {
            pc: vm.current.pc.wrapping_add(call.size / 2),
            last_size: call.size / 2,
            ..vm.current
        },
        ..vm
    };
    let there = if vm.current.state == ExecutionState::RunningStaticInitializer {
        vm
    } else {
        behind
    };
    if vm.current.state == ExecutionState::Finished {
        after == Status::Done(vm, Ok::<(), ExceptionView>(()))
    } else {
        match after {
            Status::Running(n) => {
                &&& n.vm == there
                &&& n.code == call.code
                &&& n.dex == call.dex
                &&& n.method == method
                &&& n.steps == call.steps
                &&& step_laws::stands_at(*call.code, n.index, there.current.pc)
            },
            Status::Done(left, result) => {
                &&& left == there
                &&& step_laws::nothing_at(*call.code, there.current.pc)
                &&& result == Err::<(), ExceptionView>(
                    ExceptionView::NoInstructionAtAddress(there.current.method, there.current.pc as usize),
                )
            },
            _ => false,
        }
    }
}

/// A builtin that fails ends the run where its answer is required. Else the run
/// goes on behind the call, in the method that made it: the frame that was saved
/// for the call is dropped, and what the builtin left in the machine stays.
pub proof fn law_builtin_answered(vm: VMView, call: CallView, answer: Result<(), ExceptionView>)
    ensures
        ({
            let after = semantics::answered(vm, call, answer);
            let caller = vm.frames[vm.frames.len() - 1];
            &&& call.required && answer is Err ==> after == Status::Done(vm, answer)
            &&& !(call.required && answer is Err) && vm.frames.len() > 0 ==> goes_on_behind(
                after,
                VMView {
                    frames: vm.frames.take(vm.frames.len() - 1),
                    current: FrameView { method: caller.method, ..vm.current },
                    ..vm
                },
                call,
                caller.method,
            )
            &&& !(call.required && answer is Err) && vm.frames.len() == 0 ==> goes_on_behind(after, vm, call, call.method)
        }),
{
    step_laws::lemma_fetches();
    assert(vm.frames.len() > 0 ==> vm.frames.drop_last() =~= vm.frames.take(vm.frames.len() - 1));
}

} // verus!
