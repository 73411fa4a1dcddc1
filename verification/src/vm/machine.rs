//! The machine: setting it up, looking at it, and its registers and heap.

use vstd::prelude::*;
use std::collections::HashMap;
use std::sync::Arc;
use crate::instruction::{CodeItem, InstructionOffset, InstructionSize};
use crate::models::{BinaryObject, DexFile};
use crate::name_map::NameMap;
use crate::vm::allocation;
use crate::vm::allocation::{next_word, shared_generator, Generator};
use crate::vm::exception::{Breakpoint, ExceptionView, ExecutionState, VMException};
use crate::vm::graph::StaticSlot;
use crate::vm::laws;
use crate::vm::register;
use crate::vm::register::{copy_registers, Register, RegisterView};
use crate::vm::runtime::Builtins;
use crate::vm::semantics;
use crate::vm::semantics::Effect;
use crate::vm::state;
use crate::vm::state::{FrameView, VMState, VMView, VM};
use crate::vm::stop_laws;
use crate::vm::value::{Value, ValueView};

verus! {

/// The seed of the generator that a machine gets.
pub const SEED: u64 = 0xffff_ffff;

/// How often an address that is in use is drawn again.
pub const MAX_REDRAWS: u32 = 10;

/// What allocation gives for the words that were drawn: the first one that is
/// not in use as an address; nothing where all are in use or none came.
pub open spec fn allocated(heap: Map<u32, ValueView>, words: Seq<Option<u32>>, address: Option<u32>) -> bool {
    &&& 1 <= words.len() <= MAX_REDRAWS + 1
    &&& forall|i: int| 0 <= i < words.len() - 1 ==> (#[trigger] words[i] matches Some(w) && heap.contains_key(w))
    &&& match words.last() {
        Some(w) => if heap.contains_key(w) {
            words.len() == MAX_REDRAWS + 1 && address is None
        } else {
            address == Some(w)
        },
        None => address is None,
    }
}

/// What is made of an answer of the generator.
#[derive(Clone, Copy, Debug, PartialEq, Eq, Structural)]
pub enum Draw {
    /// An address that is not in use.
    Found(u32),
    /// An address that is in use; another one is to be drawn.
    Again,
    /// No address comes, or too many were in use.
    Failed,
}

/// What is made of an answer after `tries` addresses that were in use.
pub open spec fn judged(heap: Map<u32, ValueView>, tries: u32, word: Option<u32>) -> Draw {
    match word {
        None => Draw::Failed,
        Some(w) => if !heap.contains_key(w) {
            Draw::Found(w)
        } else if tries >= MAX_REDRAWS {
            Draw::Failed
        } else {
            Draw::Again
        },
    }
}

/// Each of these answers is one of the generator.
pub open spec fn all_given(generator: Generator, words: Seq<Option<u32>>) -> bool {
    forall|i: int| 0 <= i < words.len() ==> allocation::gave(generator, #[trigger] words[i])
}

/// What allocation gives for some answers of the machine's generator, where an
/// address is needed. Elsewhere nothing is drawn.
pub open spec fn drawn(vm: VMView, needed: bool, address: Option<u32>) -> bool {
    if needed {
        exists|words: Seq<Option<u32>>| all_given(vm.generator, words) && #[trigger] allocated(vm.heap, words, address)
    } else {
        address is None
    }
}

/// What came of putting an object on the heap.
pub open spec fn made_view(made: Result<Register, VMException>) -> Result<RegisterView, ExceptionView> {
    match made {
        Ok(register) => Ok(register@),
        Err(exception) => Err(exception@),
    }
}

/// The effect of an operation that always has a defined result.
pub open spec fn effect(vm: VMView, result: Result<(), VMException>) -> Effect {
    match result {
        Ok(_) => Effect::Next(vm),
        Err(exception) => Effect::Fault(vm, exception@),
    }
}

/// The body of no method.
pub open spec fn is_no_code(code: CodeItem) -> bool {
    code.register_size == 0 && code.ins_size == 0 && code.insns@.len() == 0
}

/// The frame of a machine in which nothing runs.
pub open spec fn is_idle(frame: FrameView, dex_file: Arc<DexFile>) -> bool {
    &&& frame.pc == 0
    &&& frame.registers == Seq::<RegisterView>::empty()
    &&& frame.result == RegisterView::Empty
    &&& frame.num_params == 0
    &&& frame.num_registers == 0
    &&& is_no_code(*frame.code)
    &&& frame.dex == dex_file
    &&& frame.method == 0
    &&& frame.state == ExecutionState::Stopped
}

/// A machine with nothing on its stack, on its heap or in static fields, that
/// is not about to pass over a stop.
pub open spec fn is_empty(vm: VMView) -> bool {
    &&& is_idle(vm.current, vm.dex_file)
    &&& vm.frames == Seq::<FrameView>::empty()
    &&& vm.heap == Map::<u32, ValueView>::empty()
    &&& vm.instances == Map::<Seq<char>, StaticSlot>::empty()
    &&& !vm.skip_next_breakpoint
}

/// The machine with one more place to stop.
pub open spec fn with_breakpoint(vm: VMView, break_point: Breakpoint) -> VMView {
    VMView {
        break_points: vm.break_points.push(break_point),
        stop_on_array_use: vm.stop_on_array_use || break_point == Breakpoint::ArrayUse,
        stop_on_string_use: vm.stop_on_string_use || break_point == Breakpoint::StringUse,
        stop_on_array_return: vm.stop_on_array_return || break_point == Breakpoint::ArrayReturn,
        stop_on_string_return: vm.stop_on_string_return || break_point == Breakpoint::StringReturn,
        ..vm
    }
}

/// The machine with no place to stop.
pub open spec fn without_breakpoints(vm: VMView) -> VMView {
    VMView {
        break_points: Seq::empty(),
        stop_on_array_use: false,
        stop_on_string_use: false,
        stop_on_array_return: false,
        stop_on_string_return: false,
        ..vm
    }
}

/// The value of a register: what it refers to, or its integer; 0 for a register
/// that holds neither.
pub open spec fn instance_of(vm: VMView, register: RegisterView) -> ValueView {
    match register {
        RegisterView::Literal(n) => ValueView::Int(n),
        RegisterView::Reference(_, address) => vm.heap[address],
        _ => ValueView::Int(0),
    }
}

/// What the running method returned, or what it was left by its last call.
pub open spec fn returned(vm: VMView) -> Option<ValueView> {
    match vm.current.result {
        RegisterView::Literal(n) => Some(ValueView::Int(n)),
        RegisterView::Reference(_, address) => vm.value(address),
        _ => None,
    }
}

fn no_code() -> (code: Arc<CodeItem>)
    ensures
        is_no_code(*code),
{
    Arc::new(CodeItem { register_size: 0, ins_size: 0, insns: Vec::new() })
}

impl VM {
    /// A machine for `dex_file`, which finds what that file does not define in
    /// the `runtime` and among the `builtins`.
    pub fn new(dex_file: Arc<DexFile>, runtime: Vec<Arc<DexFile>>, resources: Arc<NameMap<Arc<BinaryObject>>>, builtins: Arc<Builtins>) -> (vm: VM)
        ensures
            is_empty(vm@),
            vm@.current.last_size == 0,
            vm@.current.size == 0,
            vm@.current.break_register == 0,
            vm@.dex_file == dex_file,
            vm@.runtime == runtime@,
            vm@.resources == resources@,
            vm@.builtins == builtins@,
            vm@.break_points == Seq::<Breakpoint>::empty(),
            !vm@.stop_on_array_use,
            !vm@.stop_on_string_use,
            !vm@.stop_on_array_return,
            !vm@.stop_on_string_return,
            stop_laws::watches(vm@),
            allocation::seed_of(vm@.generator) == SEED,
    {
        let rng = shared_generator(SEED);
        let vm = VM {
            current_state: VMState {
                pc: InstructionOffset(0),
                last_instruction_size: InstructionSize(0),
                current_instruction_size: InstructionSize(0),
                current_stackframe: Vec::new(),
                return_reg: Register::Empty,
                num_params: 0,
                num_registers: 0,
                current_instructions: no_code(),
                current_dex_file: dex_file.clone(),
                current_method_index: 0,
                vm_state: ExecutionState::Stopped,
                last_break_point_reg: 0,
            },
            stack_frames: Vec::new(),
            heap: HashMap::new(),
            instances: NameMap::new(),
            dex_file,
            runtime,
            resources,
            builtins,
            rng,
            break_points: Vec::new(),
            stop_on_array_use: false,
            stop_on_string_use: false,
            stop_on_array_return: false,
            stop_on_string_return: false,
            skip_next_breakpoint: false,
        };
        assert(vm@.current.registers =~= Seq::<RegisterView>::empty());
        assert(vm@.frames =~= Seq::<FrameView>::empty());
        assert(vm@.heap =~= Map::<u32, ValueView>::empty());
        vm
    }

    /// The heap.
    pub fn get_heap(&self) -> (heap: HashMap<u32, Value>)
        ensures
            state::heap_view(heap@) == self@.heap,
    {
        self.heap.clone()
    }

    /// What static fields refer to.
    pub fn get_instances(&self) -> (instances: NameMap<StaticSlot>)
        ensures
            instances@ == self@.instances,
    {
        self.instances.clone()
    }

    /// Adds a place to stop.
    pub fn set_breakpoint(&mut self, break_point: Breakpoint)
        ensures
            final(self)@ == with_breakpoint(old(self)@, break_point),
    {
        match break_point {
            Breakpoint::ArrayUse => {
                self.stop_on_array_use = true;
            },
            Breakpoint::StringUse => {
                self.stop_on_string_use = true;
            },
            Breakpoint::StringReturn => {
                self.stop_on_string_return = true;
            },
            Breakpoint::ArrayReturn => {
                self.stop_on_array_return = true;
            },
            _ => {},
        }
        self.break_points.push(break_point);
    }

    /// Removes all places to stop.
    pub fn clear_breakpoints(&mut self)
        ensures
            final(self)@ == without_breakpoints(old(self)@),
    {
        self.stop_on_array_use = false;
        self.stop_on_string_use = false;
        self.stop_on_string_return = false;
        self.stop_on_array_return = false;
        self.break_points.clear();
    }

    /// The places to stop, in the order in which they were added.
    pub fn get_breakpoints_clone(&self) -> (break_points: Vec<Breakpoint>)
        ensures
            break_points@ == self@.break_points,
    {
        let break_points = self.break_points.clone();
        assert(break_points@ =~= self@.break_points);
        break_points
    }

    /// Empties the machine. What it was set up with and where it stops are kept.
    /// An empty machine is left as it is.
    pub fn reset(&mut self)
        ensures
            is_empty(final(self)@),
            laws::same_setup(old(self)@, final(self)@),
            final(self)@.current.last_size == old(self)@.current.last_size,
            final(self)@.current.size == old(self)@.current.size,
            final(self)@.current.break_register == old(self)@.current.break_register,
            is_empty(old(self)@) ==> final(self)@ == old(self)@,
    {
        self.current_state.pc = InstructionOffset(0);
        self.current_state.current_stackframe = Vec::new();
        self.current_state.return_reg = Register::Empty;
        self.current_state.num_params = 0;
        self.current_state.num_registers = 0;
        let code = &self.current_state.current_instructions;
        if code.register_size != 0 || code.ins_size != 0 || code.insns.len() != 0 {
            self.current_state.current_instructions = no_code();
        }
        self.current_state.current_dex_file = self.dex_file.clone();
        self.current_state.vm_state = ExecutionState::Stopped;
        self.current_state.current_method_index = 0;
        self.stack_frames.clear();
        self.heap.clear();
        self.instances = NameMap::new();
        self.skip_next_breakpoint = false;
        assert(self@.current.registers =~= Seq::<RegisterView>::empty());
        assert(self@.frames =~= Seq::<FrameView>::empty());
        assert(self@.heap =~= Map::<u32, ValueView>::empty());
    }

    /// Puts an object on the heap. It fails where no address is found.
    pub fn new_instance(&mut self, ty: String, value: Value) -> (made: Result<Register, VMException>)
        ensures
            exists|address: Option<u32>|
                semantics::is_fresh(old(self)@.heap, address) && drawn(old(self)@, true, address) && (final(self)@, made_view(made))
                    == #[trigger] semantics::place(
                    old(self)@,
                    address,
                    ty@,
                    value@,
                ),
    {
        let address = self.malloc();
        let made = self.place(address, ty, value);
        assert((self@, made_view(made)) == semantics::place(old(self)@, address, ty@, value@));
        made
    }

    /// The registers of the running method.
    pub fn get_registers(&self) -> (registers: Vec<Register>)
        ensures
            register::register_views(registers@) == self@.current.registers,
    {
        copy_registers(&self.current_state.current_stackframe)
    }

    /// The frame of the running method.
    pub fn get_current_state(&self) -> (frame: &VMState)
        ensures
            *frame == self.current_state,
    {
        &self.current_state
    }

    /// The frames of the methods that wait for a return.
    pub fn get_stack_frames(&self) -> (frames: &[VMState])
        ensures
            frames@ == self.stack_frames@,
    {
        self.stack_frames.as_slice()
    }

    /// The value of a register.
    pub fn get_instance(&self, reg: Register) -> (value: Value)
        requires
            reg@ matches RegisterView::Reference(_, address) ==> self@.heap.contains_key(address),
        ensures
            value@ == instance_of(self@, reg@),
    {
        match reg {
            Register::Literal(n) => Value::Int(n),
            Register::Reference(_, address) => self.value(address).unwrap().clone(),
            _ => Value::Int(0),
        }
    }

    /// What the method returned.
    pub fn get_return_object(&self) -> (value: Option<Value>)
        ensures
            match value {
                Some(v) => returned(self@) == Some(v@),
                None => returned(self@) is None,
            },
    {
        match &self.current_state.return_reg {
            Register::Literal(n) => Some(Value::Int(*n)),
            Register::Reference(_, address) => match self.value(*address) {
                Some(value) => Some(value.clone()),
                None => None,
            },
            _ => None,
        }
    }

    /// Decides what to make of an answer of the generator, after `tries`
    /// addresses that were in use.
    pub fn judge_word(&self, tries: u32, word: Option<u32>) -> (draw: Draw)
        ensures
            draw == judged(self@.heap, tries, word),
    {
        match word {
            None => Draw::Failed,
            Some(candidate) => if !self.heap.contains_key(&candidate) {
                Draw::Found(candidate)
            } else if tries >= MAX_REDRAWS {
                Draw::Failed
            } else {
                Draw::Again
            },
        }
    }

    /// Looks for a heap address that is not in use, among the numbers of the
    /// machine's generator. The contract does not say that these numbers come one
    /// behind the other: machines that share the generator may take others in
    /// between, and it lets numbers be passed over.
    pub fn malloc(&self) -> (address: Option<u32>)
        ensures
            semantics::is_fresh(self@.heap, address),
            drawn(self@, true, address),
    {
        let mut tries: u32 = 0;
        let ghost mut words: Seq<Option<u32>> = Seq::empty();
        loop
            invariant
                tries <= MAX_REDRAWS,
                words.len() == tries,
                all_given(self@.generator, words),
                forall|i: int| 0 <= i < words.len() ==> (#[trigger] words[i] matches Some(w) && self@.heap.contains_key(w)),
            decreases MAX_REDRAWS - tries,
        {
            let word = next_word(&self.rng);
            let ghost before = words;
            proof {
                words = words.push(word);
                assert(words.last() == word);
                assert(forall|i: int| 0 <= i < before.len() ==> words[i] == before[i]);
                assert(all_given(self@.generator, words));
            }
            match self.judge_word(tries, word) {
                Draw::Found(candidate) => {
                    assert(allocated(self@.heap, words, Some(candidate)));
                    return Some(candidate);
                },
                Draw::Failed => {
                    assert(allocated(self@.heap, words, None));
                    return None;
                },
                Draw::Again => {
                    tries = tries + 1;
                },
            }
        }
    }

    /// Puts an object on the heap, at the address that allocation gave.
    pub fn place(&mut self, address: Option<u32>, ty: String, value: Value) -> (made: Result<Register, VMException>)
        ensures
            (final(self)@, made_view(made)) == semantics::place(old(self)@, address, ty@, value@),
    {
        match address {
            Some(a) => {
                self.heap.insert(a, value);
                assert(self@ =~= old(self)@.store(a, value@));
                Ok(Register::Reference(ty, a))
            },
            None => Err(VMException::OutOfMemory),
        }
    }

    /// Sets a register of the running method.
    pub fn update_register(&mut self, dst: usize, new_register: Register) -> (result: Result<(), VMException>)
        ensures
            effect(final(self)@, result) == semantics::put(old(self)@, dst, new_register@),
    {
        if dst < self.current_state.current_stackframe.len() {
            self.current_state.current_stackframe[dst] = new_register;
            assert(self@ =~= old(self)@.with_register(dst as int, new_register@));
            Ok(())
        } else {
            Err(VMException::RegisterNotFound(dst))
        }
    }
}

} // verus!
