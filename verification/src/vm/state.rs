//! The state of the machine.

use vstd::prelude::*;
use std::collections::HashMap;
use std::sync::Arc;
use crate::instruction::{CodeItem, InstructionOffset, InstructionSize};
use crate::models::{BinaryObject, Class, DexFile};
use crate::name_map::NameMap;
use crate::vm::allocation::Generator;
use crate::vm::exception::{Breakpoint, ExecutionState};
use crate::vm::graph::StaticSlot;
use crate::vm::register;
use crate::vm::register::{copy_registers, Register, RegisterView};
use crate::vm::runtime::Builtins;
use crate::vm::value::{Value, ValueView};

verus! {

/// The frame of a method.
pub struct VMState {
    pub pc: InstructionOffset,
    pub last_instruction_size: InstructionSize,
    pub current_instruction_size: InstructionSize,
    pub current_stackframe: Vec<Register>,
    pub return_reg: Register,
    pub num_params: usize,
    pub num_registers: usize,
    pub current_instructions: Arc<CodeItem>,
    pub current_dex_file: Arc<DexFile>,
    pub current_method_index: u32,
    pub vm_state: ExecutionState,
    /// Which argument of a call was met when the machine last paused.
    pub last_break_point_reg: u32,
}

/// The view of a frame.
#[verifier::ext_equal]
pub struct FrameView {
    pub pc: u32,
    pub last_size: u32,
    pub size: u32,
    pub registers: Seq<RegisterView>,
    pub result: RegisterView,
    pub num_params: usize,
    pub num_registers: usize,
    pub code: Arc<CodeItem>,
    pub dex: Arc<DexFile>,
    pub method: u32,
    pub state: ExecutionState,
    pub break_register: u32,
}

impl View for VMState {
    type V = FrameView;

    open spec fn view(&self) -> FrameView {
        FrameView {
            pc: self.pc.0,
            last_size: self.last_instruction_size.0,
            size: self.current_instruction_size.0,
            registers: register::register_views(self.current_stackframe@),
            result: self.return_reg@,
            num_params: self.num_params,
            num_registers: self.num_registers,
            code: self.current_instructions,
            dex: self.current_dex_file,
            method: self.current_method_index,
            state: self.vm_state,
            break_register: self.last_break_point_reg,
        }
    }
}

impl Clone for VMState {
    fn clone(&self) -> (copy: VMState)
        ensures
            copy@ == self@,
    {
        VMState {
            pc: self.pc,
            last_instruction_size: self.last_instruction_size,
            current_instruction_size: self.current_instruction_size,
            current_stackframe: copy_registers(&self.current_stackframe),
            return_reg: self.return_reg.clone(),
            num_params: self.num_params,
            num_registers: self.num_registers,
            current_instructions: self.current_instructions.clone(),
            current_dex_file: self.current_dex_file.clone(),
            current_method_index: self.current_method_index,
            vm_state: self.vm_state,
            last_break_point_reg: self.last_break_point_reg,
        }
    }
}

/// A virtual machine for Dalvik bytecode.
pub struct VM {
    pub current_state: VMState,
    pub stack_frames: Vec<VMState>,
    pub heap: HashMap<u32, Value>,
    /// What static fields refer to, by their qualified names.
    pub instances: NameMap<StaticSlot>,
    pub dex_file: Arc<DexFile>,
    pub runtime: Vec<Arc<DexFile>>,
    pub resources: Arc<NameMap<Arc<BinaryObject>>>,
    pub builtins: Arc<Builtins>,
    /// Where heap addresses come from; copies of a machine share it.
    pub rng: Generator,
    pub break_points: Vec<Breakpoint>,
    pub stop_on_array_use: bool,
    pub stop_on_string_use: bool,
    pub stop_on_array_return: bool,
    pub stop_on_string_return: bool,
    pub skip_next_breakpoint: bool,
}

/// The view of a machine.
#[verifier::ext_equal]
pub struct VMView {
    pub current: FrameView,
    pub frames: Seq<FrameView>,
    pub heap: Map<u32, ValueView>,
    pub instances: Map<Seq<char>, StaticSlot>,
    pub dex_file: Arc<DexFile>,
    pub runtime: Seq<Arc<DexFile>>,
    pub resources: Map<Seq<char>, BinaryObject>,
    pub builtins: Map<Seq<char>, Class>,
    /// Which generator it takes heap addresses from; not what will come from it.
    pub generator: Generator,
    pub break_points: Seq<Breakpoint>,
    pub stop_on_array_use: bool,
    pub stop_on_string_use: bool,
    pub stop_on_array_return: bool,
    pub stop_on_string_return: bool,
    pub skip_next_breakpoint: bool,
}

/// The heap, each value by its view.
pub open spec fn heap_view(heap: Map<u32, Value>) -> Map<u32, ValueView> {
    heap.map_values(|value: Value| value@)
}

/// A stack of frames, each by its view.
pub open spec fn frame_views(frames: Seq<VMState>) -> Seq<FrameView> {
    frames.map_values(|frame: VMState| frame@)
}

impl View for VM {
    type V = VMView;

    open spec fn view(&self) -> VMView {
        VMView {
            current: self.current_state@,
            frames: frame_views(self.stack_frames@),
            heap: heap_view(self.heap@),
            instances: self.instances@,
            dex_file: self.dex_file,
            runtime: self.runtime@,
            resources: self.resources@,
            builtins: self.builtins@,
            generator: self.rng,
            break_points: self.break_points@,
            stop_on_array_use: self.stop_on_array_use,
            stop_on_string_use: self.stop_on_string_use,
            stop_on_array_return: self.stop_on_array_return,
            stop_on_string_return: self.stop_on_string_return,
            skip_next_breakpoint: self.skip_next_breakpoint,
        }
    }
}

impl Clone for VM {
    fn clone(&self) -> (copy: VM)
        ensures
            copy@ == self@,
    {
        let mut stack_frames: Vec<VMState> = Vec::new();
        let mut i: usize = 0;
        while i < self.stack_frames.len()
            invariant
                i <= self.stack_frames@.len(),
                stack_frames@.len() == i,
                forall|j: int| 0 <= j < i ==> (#[trigger] stack_frames@[j])@ == self.stack_frames@[j]@,
            decreases self.stack_frames@.len() - i,
        {
            stack_frames.push(self.stack_frames[i].clone());
            i = i + 1;
        }
        let copy = VM {
            current_state: self.current_state.clone(),
            stack_frames,
            heap: self.heap.clone(),
            instances: self.instances.clone(),
            dex_file: self.dex_file.clone(),
            runtime: copy_files(&self.runtime),
            resources: self.resources.clone(),
            builtins: self.builtins.clone(),
            rng: self.rng.clone(),
            break_points: self.break_points.clone(),
            stop_on_array_use: self.stop_on_array_use,
            stop_on_string_use: self.stop_on_string_use,
            stop_on_array_return: self.stop_on_array_return,
            stop_on_string_return: self.stop_on_string_return,
            skip_next_breakpoint: self.skip_next_breakpoint,
        };
        assert(copy@.frames =~= self@.frames);
        assert(copy@.break_points =~= self@.break_points);
        copy
    }
}

fn copy_files(files: &Vec<Arc<DexFile>>) -> (copy: Vec<Arc<DexFile>>)
    ensures
        copy@ == files@,
{
    let mut copy: Vec<Arc<DexFile>> = Vec::new();
    let mut i: usize = 0;
    while i < files.len()
        invariant
            i <= files@.len(),
            copy@ == files@.take(i as int),
        decreases files@.len() - i,
    {
        copy.push(files[i].clone());
        assert(copy@ =~= files@.take(i + 1));
        i = i + 1;
    }
    assert(copy@ =~= files@);
    copy
}

} // verus!
