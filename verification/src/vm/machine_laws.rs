//! What setting a machine up, starting it and looking at it are for, in terms of
//! the fields of the machine.

use vstd::prelude::*;
use crate::models::Class;
use crate::vm::control;
use crate::vm::control::{Cursor, RuntimeCall, Turn};
use crate::vm::effects;
use crate::vm::effects::Motion;
use crate::vm::exception;
use crate::vm::exception::{Breakpoint, ExceptionView, VMException};
use crate::vm::laws;
use crate::vm::machine;
use crate::vm::machine::Draw;
use crate::vm::register;
use crate::vm::register::{Register, RegisterView};
use crate::vm::run;
use crate::vm::run::Progress;
use crate::vm::runtime;
use crate::vm::runtime::StringClass;
use crate::vm::semantics;
use crate::vm::semantics::{Effect, MachineView, Status};
use crate::vm::state::{FrameView, VMState, VMView, VM};
use crate::vm::stop_laws;
use crate::vm::value::{InstanceView, InternalObject, InternalView, Value, ValueView};

verus! {

// ---------------------------------------------------------------------------
// Views
// ---------------------------------------------------------------------------

/// A register is seen as what it holds.
pub proof fn law_register_is_seen(r: Register)
    ensures
        match r {
            Register::Literal(n) => r@ == RegisterView::Literal(n),
            Register::LiteralWide(n) => r@ == RegisterView::LiteralWide(n),
            Register::Paired(n) => r@ == RegisterView::Paired(n),
            Register::Reference(ty, address) => r@ == RegisterView::Reference(ty@, address),
            Register::Empty => r@ == RegisterView::Empty,
            Register::Null => r@ == RegisterView::Null,
        },
{
}

/// A list of registers is seen as each of them, in their order.
pub proof fn law_registers_are_seen(registers: Seq<Register>)
    ensures
        register::register_views(registers).len() == registers.len(),
        forall|i: int|
            0 <= i < registers.len() ==> #[trigger] register::register_views(registers)[i] == registers[i]@,
{
}

/// A value is seen as what it holds; an object by its class, its state and where
/// its fields stand.
pub proof fn law_value_is_seen(value: Value)
    ensures
        match value {
            Value::Array(data) => value@ == ValueView::Array(data@),
            Value::Object(instance) => {
                &&& value@ is Object
                &&& value@->Object_0.class == *instance.class
                &&& value@->Object_0.internal_state == instance.internal_state@
                &&& value@->Object_0.instances == instance.instances@
            },
            Value::Int(n) => value@ == ValueView::Int(n),
            Value::Short(n) => value@ == ValueView::Short(n),
            Value::Byte(n) => value@ == ValueView::Byte(n),
        },
{
}

/// Internal state is seen as what it holds.
pub proof fn law_internal_state_is_seen(state: InternalObject)
    ensures
        match state {
            InternalObject::String(text) => state@ == InternalView::String(text@),
            InternalObject::Class(class) => state@ == InternalView::Class(*class),
            InternalObject::Vec(data) => state@ == InternalView::Vec(data@),
            InternalObject::I32(n) => state@ == InternalView::I32(n),
            InternalObject::U32(n) => state@ == InternalView::U32(n),
            InternalObject::I64(n) => state@ == InternalView::I64(n),
        },
{
}

/// A frame is seen with all that it holds.
pub proof fn law_frame_is_seen(frame: VMState)
    ensures
        frame@ == (FrameView {
            pc: frame.pc.0,
            last_size: frame.last_instruction_size.0,
            size: frame.current_instruction_size.0,
            registers: Seq::new(frame.current_stackframe@.len(), |i: int| frame.current_stackframe@[i]@),
            result: frame.return_reg@,
            num_params: frame.num_params,
            num_registers: frame.num_registers,
            code: frame.current_instructions,
            dex: frame.current_dex_file,
            method: frame.current_method_index,
            state: frame.vm_state,
            break_register: frame.last_break_point_reg,
        }),
{
}

/// A machine is seen with all that it holds.
pub proof fn law_machine_is_seen(vm: VM)
    ensures
        vm@.current == vm.current_state@,
        vm@.frames.len() == vm.stack_frames@.len(),
        forall|i: int| 0 <= i < vm.stack_frames@.len() ==> #[trigger] vm@.frames[i] == vm.stack_frames@[i]@,
        forall|address: u32| #[trigger] vm@.heap.contains_key(address) <==> vm.heap@.contains_key(address),
        forall|address: u32| #[trigger] vm.heap@.contains_key(address) ==> vm@.heap[address] == vm.heap@[address]@,
        vm@.instances == vm.instances@,
        vm@.dex_file == vm.dex_file,
        vm@.runtime == vm.runtime@,
        vm@.resources == vm.resources@,
        vm@.builtins == vm.builtins@,
        vm@.generator == vm.rng,
        vm@.break_points == vm.break_points@,
        vm@.stop_on_array_use == vm.stop_on_array_use,
        vm@.stop_on_string_use == vm.stop_on_string_use,
        vm@.stop_on_array_return == vm.stop_on_array_return,
        vm@.stop_on_string_return == vm.stop_on_string_return,
        vm@.skip_next_breakpoint == vm.skip_next_breakpoint,
{
}

/// An exception is seen as what it reports.
pub proof fn law_exception_is_seen(exception: VMException)
    ensures
        match exception {
            VMException::RegisterNotFound(r) => exception@ == ExceptionView::RegisterNotFound(r),
            VMException::StackFrameMissing => exception@ == ExceptionView::StackFrameMissing,
            VMException::NoInstructionAtAddress(m, a) => exception@ == ExceptionView::NoInstructionAtAddress(m, a),
            VMException::ClassNotFound(c) => exception@ == ExceptionView::ClassNotFound(c),
            VMException::OutOfMemory => exception@ == ExceptionView::OutOfMemory,
            VMException::InstanceNotFound(a) => exception@ == ExceptionView::InstanceNotFound(a),
            VMException::IndexOutOfBounds => exception@ == ExceptionView::IndexOutOfBounds,
            VMException::WrongNumberOfArguments => exception@ == ExceptionView::WrongNumberOfArguments,
            VMException::InvalidRegisterType => exception@ == ExceptionView::InvalidRegisterType,
            VMException::StackOverflow => exception@ == ExceptionView::StackOverflow,
            VMException::MethodNotFound(t) => exception@ == ExceptionView::MethodNotFound(t@),
            VMException::InvalidMemoryAddress(a) => exception@ == ExceptionView::InvalidMemoryAddress(a),
            VMException::LinkerError => exception@ == ExceptionView::LinkerError,
            VMException::StaticDataNotFound(f) => exception@ == ExceptionView::StaticDataNotFound(f),
            VMException::Breakpoint(a, m, c) => exception@ == ExceptionView::Breakpoint(a.0, m, c),
        },
{
}

/// What an instruction or a run reports is told apart: going on, the end of the
/// method, no defined result, a call that waits for its answer, an exception.
pub proof fn law_outcomes_are_told_apart(vm: VMView, cursor: Cursor, turn: Result<Turn, VMException>, result: Result<Progress, VMException>, motion: Result<Motion, VMException>, done: Result<(), VMException>, made: Result<Register, VMException>)
    ensures
        match made {
            Ok(r) => machine::made_view(made) == Ok::<RegisterView, ExceptionView>(r@),
            Err(e) => machine::made_view(made) == Err::<RegisterView, ExceptionView>(e@),
        },
        match turn {
            Ok(Turn::Running) => control::status(vm, cursor, turn) == Status::Running(
                MachineView {
                    vm,
                    code: cursor.code,
                    index: cursor.index as int,
                    dex: cursor.dex,
                    method: cursor.method,
                    steps: cursor.steps as int,
                },
            ),
            Ok(Turn::Finished) => control::status(vm, cursor, turn) == Status::Done(vm, Ok::<(), ExceptionView>(())),
            Ok(Turn::Stuck) => control::status(vm, cursor, turn) is Stuck,
            Ok(Turn::Call(call)) => control::status(vm, cursor, turn) == Status::Call(vm, call@),
            Err(e) => control::status(vm, cursor, turn) == Status::Done(vm, Err::<(), ExceptionView>(e@)),
        },
        forall|expected: Status| #[trigger]
            control::turned(vm, cursor, turn, expected) ==> control::status(vm, cursor, turn) == expected && (turn
                == Ok::<Turn, VMException>(Turn::Running) ==> cursor.index < cursor.code.insns@.len()),
        match result {
            Ok(Progress::Finished) => run::report(vm, result) == Status::Done(vm, Ok::<(), ExceptionView>(())),
            Ok(Progress::Runtime(call)) => run::report(vm, result) == Status::Call(vm, call@),
            Ok(Progress::Stuck) => run::report(vm, result) is Stuck,
            Err(e) => run::report(vm, result) == Status::Done(vm, Err::<(), ExceptionView>(e@)),
        },
        match motion {
            Ok(Motion::Next) => effects::motion(vm, motion) == Effect::Next(vm),
            Ok(Motion::Stuck) => effects::motion(vm, motion) is Stuck,
            Err(e) => effects::motion(vm, motion) == Effect::Fault(vm, e@),
        },
        match done {
            Ok(_) => machine::effect(vm, done) == Effect::Next(vm) && exception::outcome(done) == Ok::<(), ExceptionView>(()),
            Err(e) => machine::effect(vm, done) == Effect::Fault(vm, e@) && exception::outcome(done) == Err::<
                (),
                ExceptionView,
            >(e@),
        },
{
}

/// A call that waits for its answer is seen with its arguments in their order.
pub proof fn law_call_is_seen(call: RuntimeCall)
    ensures
        call@.dex == call.dex_file,
        call@.method == call.method_idx,
        call@.arguments.len() == call.arguments@.len(),
        forall|i: int| 0 <= i < call.arguments@.len() ==> #[trigger] call@.arguments[i] == call.arguments@[i]@,
        call@.required == call.required,
        call@.code == call.code,
        call@.size == call.size.0,
        call@.steps == call.steps,
{
}

// ---------------------------------------------------------------------------
// Setting up
// ---------------------------------------------------------------------------

/// A place to stop is added behind the others. The machine watches for arrays and
/// strings that are passed or returned where it did before or is told to now.
/// Nothing else changes.
pub proof fn law_breakpoint_is_added(vm: VMView, b: Breakpoint)
    ensures
        ({
            let after = machine::with_breakpoint(vm, b);
            &&& after.break_points.len() == vm.break_points.len() + 1
            &&& after.break_points[vm.break_points.len() as int] == b
            &&& forall|i: int| 0 <= i < vm.break_points.len() ==> #[trigger] after.break_points[i] == vm.break_points[i]
            &&& after.stop_on_array_use <==> vm.stop_on_array_use || b is ArrayUse
            &&& after.stop_on_string_use <==> vm.stop_on_string_use || b is StringUse
            &&& after.stop_on_array_return <==> vm.stop_on_array_return || b is ArrayReturn
            &&& after.stop_on_string_return <==> vm.stop_on_string_return || b is StringReturn
            &&& after == (VMView {
                break_points: after.break_points,
                stop_on_array_use: after.stop_on_array_use,
                stop_on_string_use: after.stop_on_string_use,
                stop_on_array_return: after.stop_on_array_return,
                stop_on_string_return: after.stop_on_string_return,
                ..vm
            })
        }),
{
}

/// Without places to stop, the machine watches for nothing, and is otherwise as
/// it was.
pub proof fn law_breakpoints_are_removed(vm: VMView)
    ensures
        machine::without_breakpoints(vm) == (VMView {
            break_points: Seq::empty(),
            stop_on_array_use: false,
            stop_on_string_use: false,
            stop_on_array_return: false,
            stop_on_string_return: false,
            ..vm
        }),
{
}

/// In an empty machine nothing runs, nothing is saved, nothing is on the heap and
/// in static fields, and no stop is to be passed over.
pub proof fn law_empty_machine(vm: VMView)
    ensures
        machine::is_empty(vm) <==> {
            &&& vm.current.pc == 0
            &&& vm.current.registers.len() == 0
            &&& vm.current.result is Empty
            &&& vm.current.num_params == 0
            &&& vm.current.num_registers == 0
            &&& vm.current.code.register_size == 0
            &&& vm.current.code.ins_size == 0
            &&& vm.current.code.insns@.len() == 0
            &&& vm.current.dex == vm.dex_file
            &&& vm.current.method == 0
            &&& vm.current.state is Stopped
            &&& vm.frames.len() == 0
            &&& (forall|address: u32| !#[trigger] vm.heap.contains_key(address))
            &&& (forall|name: Seq<char>| !#[trigger] vm.instances.contains_key(name))
            &&& !vm.skip_next_breakpoint
        },
{
    if vm.current.registers.len() == 0 {
        assert(vm.current.registers =~= Seq::<RegisterView>::empty());
    }
    if vm.frames.len() == 0 {
        assert(vm.frames =~= Seq::<FrameView>::empty());
    }
    if forall|address: u32| !#[trigger] vm.heap.contains_key(address) {
        assert(vm.heap =~= Map::<u32, ValueView>::empty());
    }
    if forall|name: Seq<char>| !#[trigger] vm.instances.contains_key(name) {
        assert(vm.instances =~= Map::empty());
    }
}

/// Two machines with the same setup differ in their frames, their heap, their
/// static fields and the request to pass over a stop alone.
pub proof fn law_same_setup(a: VMView, b: VMView)
    ensures
        laws::same_setup(a, b) <==> a == (VMView {
            current: a.current,
            frames: a.frames,
            heap: a.heap,
            instances: a.instances,
            skip_next_breakpoint: a.skip_next_breakpoint,
            ..b
        }),
        stop_laws::watches(a) ==> {
            &&& a.stop_on_array_use == a.break_points.contains(Breakpoint::ArrayUse)
            &&& a.stop_on_string_use == a.break_points.contains(Breakpoint::StringUse)
            &&& a.stop_on_array_return == a.break_points.contains(Breakpoint::ArrayReturn)
            &&& a.stop_on_string_return == a.break_points.contains(Breakpoint::StringReturn)
        },
{
}

/// The limits of the machine.
pub proof fn law_limits()
    ensures
        semantics::MAX_STEPS == 1000,
        semantics::MAX_DEPTH == 20,
        semantics::MAX_SIZE == 100_000,
        machine::MAX_REDRAWS == 10,
        machine::SEED == 0xffff_ffff,
{
}

/// The names of the classes that the machine itself knows.
pub proof fn law_known_classes(name: Seq<char>)
    ensures
        StringClass::name() == "Ljava/lang/String;"@,
        runtime::is_ambient(name) <==> name == "Landroid/content/Context;"@ || name == "Landroid/app/Application;"@ || name
            == "Ljava/nio/charset/Charset;"@,
{
}

/// In every table of builtins each class stands under its own name, and those that
/// the machine itself knows are there.
pub proof fn law_builtins(classes: Map<Seq<char>, Class>, name: Seq<char>)
    requires
        runtime::builtins_complete(classes),
    ensures
        classes.contains_key(name) ==> classes[name].class_name@ == name,
        classes.contains_key("Ljava/lang/String;"@),
        classes.contains_key("Landroid/content/Context;"@),
        classes.contains_key("Landroid/app/Application;"@),
        classes.contains_key("Ljava/nio/charset/Charset;"@),
{
    assert(runtime::is_ambient("Landroid/content/Context;"@));
    assert(runtime::is_ambient("Landroid/app/Application;"@));
    assert(runtime::is_ambient("Ljava/nio/charset/Charset;"@));
}

/// A class of which nothing but the name is known has no methods and no static
/// fields.
pub proof fn law_bare_class(class: Class, name: Seq<char>)
    requires
        runtime::is_bare_class(class, name),
    ensures
        class.class_name@ == name,
        class.class_idx == 0,
        class.codes@.len() == 0,
        class.static_fields@.len() == 0,
{
}

/// The text of an instance: none but of the string class, then the one in its
/// state, and a fixed one where it has none.
pub proof fn law_text_of_instance(instance: InstanceView, class: Class, state: Map<Seq<char>, InternalView>)
    ensures
        instance.class.class_name@ != "Ljava/lang/String;"@ ==> instance.text() is None,
        instance.class.class_name@ == "Ljava/lang/String;"@ ==> instance.text() == Some(
            if instance.internal_state.contains_key("tmp_string"@) && instance.internal_state["tmp_string"@] is String {
                instance.internal_state["tmp_string"@]->String_0
            } else {
                "NEW INSTANCE"@
            },
        ),
        instance.is_string() <==> instance.class.class_name@ == "Ljava/lang/String;"@,
        ValueView::Object(instance).text() == instance.text(),
        InstanceView::plain(class, state) == (InstanceView { internal_state: state, instances: Map::empty(), class }),
{
}

/// A value that is no object has no text.
pub proof fn law_no_text(value: ValueView)
    ensures
        !(value is Object) ==> value.text() is None,
{
}

/// The value of a register is its integer, or what it refers to; a register with
/// neither counts as zero, and as a result it is none.
pub proof fn law_value_of_register(vm: VMView, register: RegisterView)
    ensures
        match register {
            RegisterView::Literal(n) => machine::instance_of(vm, register) == ValueView::Int(n),
            RegisterView::Reference(_, address) => machine::instance_of(vm, register) == vm.heap[address],
            _ => machine::instance_of(vm, register) == ValueView::Int(0),
        },
        match vm.current.result {
            RegisterView::Literal(n) => machine::returned(vm) == Some(ValueView::Int(n)),
            RegisterView::Reference(_, address) => if vm.heap.contains_key(address) {
                machine::returned(vm) == Some(vm.heap[address])
            } else {
                machine::returned(vm) is None
            },
            _ => machine::returned(vm) is None,
        },
{
}

// ---------------------------------------------------------------------------
// Allocation
// ---------------------------------------------------------------------------

/// An object is put at the address that allocation gave, and nowhere else. Without
/// an address nothing changes.
pub proof fn law_object_is_placed(vm: VMView, address: Option<u32>, ty: Seq<char>, value: ValueView)
    ensures
        match address {
            Some(a) => semantics::place(vm, address, ty, value) == (
                VMView { heap: vm.heap.insert(a, value), ..vm },
                Ok::<RegisterView, ExceptionView>(RegisterView::Reference(ty, a)),
            ),
            None => semantics::place(vm, address, ty, value) == (
                vm,
                Err::<RegisterView, ExceptionView>(ExceptionView::OutOfMemory),
            ),
        },
{
}

/// Numbers that are in use are drawn again, ten times. The first one that is not
/// in use is the address. After eleven numbers that are in use, or where no number
/// comes, there is none.
pub proof fn law_numbers_drawn(heap: Map<u32, ValueView>, words: Seq<Option<u32>>, address: Option<u32>, tries: u32, word: Option<u32>)
    ensures
        machine::allocated(heap, words, address) ==> {
            &&& 1 <= words.len() <= 11
            &&& forall|i: int| 0 <= i < words.len() - 1 ==> (#[trigger] words[i]) is Some && heap.contains_key(words[i]->0)
            &&& words[words.len() - 1] is None ==> address is None
            &&& words[words.len() - 1] is Some && !heap.contains_key(words[words.len() - 1]->0) ==> address == words[words.len()
                - 1]
            &&& words[words.len() - 1] is Some && heap.contains_key(words[words.len() - 1]->0) ==> words.len() == 11
                && address is None
        },
        machine::judged(heap, tries, word) == (if word is None {
            Draw::Failed
        } else if !heap.contains_key(word->0) {
            Draw::Found(word->0)
        } else if tries >= 10 {
            Draw::Failed
        } else {
            Draw::Again
        }),
{
}

} // verus!
