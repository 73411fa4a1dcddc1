use std::sync::Arc;

use coeus_emulation::instruction::{CodeItem, Instruction, InstructionOffset, InstructionSize};
use coeus_emulation::models::{Class, DexFile, Field, Method, MethodData, Proto};
use coeus_emulation::name_map::NameMap;
use coeus_emulation::vm::exception::{Breakpoint, BreakpointContext, ExecutionState, VMException};
use coeus_emulation::vm::run::Progress;
use coeus_emulation::vm::register::Register;
use coeus_emulation::vm::runtime::Builtins;
use coeus_emulation::vm::state::VM;
use coeus_emulation::vm::value::Value;

fn body(registers: u16, params: u16, list: Vec<(u32, Instruction)>) -> Arc<CodeItem> {
    let mut insns = Vec::new();
    let mut address = 0;
    for (units, instruction) in list {
        insns.push((InstructionSize(units * 2), InstructionOffset(address), instruction));
        address += units;
    }
    Arc::new(CodeItem { register_size: registers, ins_size: params, insns })
}

fn method(idx: u16) -> Method {
    Method {
        method_idx: idx,
        class_idx: 0,
        proto_idx: 0,
        method_name: "take".to_string(),
        proto_name: "()V".to_string(),
    }
}

/// Method 1 takes two arguments and gives back nothing.
fn machine() -> VM {
    machine_with(vec![])
}

fn machine_with(more: Vec<MethodData>) -> VM {
    let take = body(2, 2, vec![(1, Instruction::ReturnVoid)]);
    let mut codes = vec![MethodData {
        method_idx: 1,
        method: method(1),
        name: "take".to_string(),
        access_flags: 0,
        code: Some(take),
    }];
    codes.extend(more);
    let file = DexFile {
        identifier: "main".to_string(),
        strings: vec!["text".to_string()],
        type_names: vec!["LMain;".to_string(), "[B".to_string()],
        protos: vec![Proto { descriptor: "()V".to_string() }],
        fields: vec![
            Field { class_idx: 0, type_idx: 1, name: "a".to_string() },
            Field { class_idx: 0, type_idx: 1, name: "b".to_string() },
        ],
        methods: vec![method(0), method(1)],
        classes: vec![Arc::new(Class {
            class_name: "LMain;".to_string(),
            class_idx: 0,
            codes,
            static_fields: vec![],
        })],
    };
    VM::new(Arc::new(file), vec![], Arc::new(NameMap::new()), Arc::new(Builtins::standard()))
}

/// Passes a string and an array to method 1.
fn passing(call: Instruction) -> Arc<CodeItem> {
    body(
        3,
        0,
        vec![
            (2, Instruction::ConstString(0, 0)),
            (1, Instruction::ConstLit4(2, 4)),
            (2, Instruction::NewArray(1, 2, 1)),
            (3, call),
            (1, Instruction::ReturnVoid),
        ],
    )
}

fn stop(result: Result<Progress, VMException>) -> (InstructionOffset, u32, BreakpointContext) {
    match result {
        Err(VMException::Breakpoint(address, method, context)) => (address, method, context),
        other => panic!("no stop: {:?}", other),
    }
}

#[test]
fn a_machine_that_was_not_asked_does_not_stop() {
    let mut vm = machine();
    let code = passing(Instruction::InvokeStatic(2, 1, vec![0, 1]));
    assert!(matches!(vm.start(6, "main", &code, vec![]), Ok(Progress::Finished)));
}

#[test]
fn the_use_of_an_array_stops_the_machine() {
    let mut vm = machine();
    vm.set_breakpoint(Breakpoint::ArrayUse);
    let code = passing(Instruction::InvokeStatic(2, 1, vec![0, 1]));
    let (address, method, context) = stop(vm.start(6, "main", &code, vec![]));
    assert_eq!((address, method), (InstructionOffset(5), 6));
    assert_eq!(context, BreakpointContext::ArrayReg(1, 1));
    assert_eq!(vm.get_current_state().vm_state, ExecutionState::Paused);
    assert_eq!(vm.get_current_state().last_break_point_reg, 1);
    assert!(vm.get_stack_frames().is_empty());
    assert!(matches!(vm.continue_execution(address), Ok(Progress::Finished)));
}

#[test]
fn a_call_on_an_object_stops_at_strings_where_arrays_are_watched() {
    let mut vm = machine();
    vm.set_breakpoint(Breakpoint::ArrayUse);
    let code = passing(Instruction::InvokeVirtual(2, 1, vec![0, 1]));
    let (address, method, context) = stop(vm.start(6, "main", &code, vec![]));
    assert_eq!((address, method), (InstructionOffset(5), 6));
    assert_eq!(context, BreakpointContext::StringReg(0, 1));
}

#[test]
fn the_use_of_a_string_stops_the_machine() {
    for call in vec![
        Instruction::InvokeStatic(2, 1, vec![1, 0]),
        Instruction::InvokeDirect(2, 1, vec![1, 0]),
    ] {
        let mut vm = machine();
        vm.set_breakpoint(Breakpoint::StringUse);
        let (_, _, context) = stop(vm.start(6, "main", &passing(call), vec![]));
        assert_eq!(context, BreakpointContext::StringReg(0, 1));
        assert_eq!(vm.get_current_state().last_break_point_reg, 1);
    }
}

#[test]
fn continuing_passes_one_stop_and_meets_the_next() {
    let mut vm = machine();
    vm.set_breakpoint(Breakpoint::ArrayUse);
    vm.set_breakpoint(Breakpoint::StringUse);
    let code = passing(Instruction::InvokeStatic(2, 1, vec![0, 1]));
    let (address, _, first) = stop(vm.start(6, "main", &code, vec![]));
    assert_eq!(first, BreakpointContext::StringReg(0, 1));
    let registers = vm.get_registers();
    let heap = vm.get_heap().len();

    let (again, _, second) = stop(vm.continue_execution(address));
    assert_eq!(second, BreakpointContext::ArrayReg(1, 1));
    assert_eq!(again, address);
    // The instruction has had no effect so far.
    assert!(vm.get_registers() == registers);
    assert_eq!(vm.get_heap().len(), heap);
    assert!(matches!(vm.continue_execution(again), Ok(Progress::Finished)));
    assert_eq!(vm.get_current_state().last_break_point_reg, 0);
}

fn returning(instruction: Instruction) -> Arc<CodeItem> {
    body(
        2,
        0,
        vec![(1, Instruction::ConstLit4(1, 2)), (2, instruction), (1, Instruction::Return(0))],
    )
}

#[test]
fn the_return_of_arrays_and_strings_stops_the_machine() {
    for watched in vec![Breakpoint::ArrayReturn, Breakpoint::StringReturn] {
        for made in vec![Instruction::ConstString(0, 0), Instruction::NewArray(0, 1, 1)] {
            let mut vm = machine();
            vm.set_breakpoint(watched);
            let (address, method, context) = stop(vm.start(2, "main", &returning(made), vec![]));
            assert_eq!((address, method), (InstructionOffset(3), 2));
            assert_eq!(context, BreakpointContext::ResultObjectRegister(0));
            assert!(vm.get_return_object().is_none());
            assert!(matches!(vm.continue_execution(address), Ok(Progress::Finished)));
            assert!(vm.get_return_object().is_some());
            assert!(!vm.skip_next_breakpoint);
        }
    }
    let mut vm = machine();
    vm.set_breakpoint(Breakpoint::StringReturn);
    let code = returning(Instruction::ConstLit16(0, 4));
    assert!(matches!(vm.start(2, "main", &code, vec![]), Ok(Progress::Finished)));
}

fn storing(field: u16) -> Arc<CodeItem> {
    body(
        2,
        0,
        vec![
            (1, Instruction::ConstLit4(1, 2)),
            (2, Instruction::NewArray(0, 1, 1)),
            (2, Instruction::StaticPutObject(0, field)),
            (1, Instruction::ReturnVoid),
        ],
    )
}

#[test]
fn setting_a_field_stops_the_machine() {
    let mut vm = machine();
    vm.set_breakpoint(Breakpoint::FieldSet(1));
    assert!(matches!(vm.start(2, "main", &storing(0), vec![]), Ok(Progress::Finished)));
    let (address, _, context) = stop(vm.start(2, "main", &storing(1), vec![]));
    assert_eq!(address, InstructionOffset(3));
    assert_eq!(context, BreakpointContext::FieldSet(0, 1));
    assert!(!vm.get_instances().contains_key("LMain;->b"));
    assert!(matches!(vm.continue_execution(address), Ok(Progress::Finished)));
    assert!(vm.get_instances().contains_key("LMain;->b"));
}

#[test]
fn the_setting_of_other_objects_is_not_watched() {
    let mut vm = machine();
    vm.set_breakpoint(Breakpoint::FieldSet(1));
    let code = body(
        1,
        0,
        vec![
            (2, Instruction::NewInstance(0, 0)),
            (2, Instruction::StaticPutObject(0, 1)),
            (1, Instruction::ReturnVoid),
        ],
    );
    assert!(matches!(vm.start(2, "main", &code, vec![]), Ok(Progress::Finished)));
}

#[test]
fn a_place_to_stop_that_nothing_watches_for_changes_nothing() {
    let mut vm = machine();
    for place in vec![
        Breakpoint::RegisterAccess(0),
        Breakpoint::PrototypeResult(0),
        Breakpoint::FunctionResult(1),
        Breakpoint::Instruction(0),
        Breakpoint::FieldGet(1),
        Breakpoint::FunctionEntry,
        Breakpoint::FunctionExit,
    ] {
        vm.set_breakpoint(place);
    }
    assert!(matches!(vm.start(2, "main", &storing(1), vec![]), Ok(Progress::Finished)));
}

#[test]
fn places_to_stop_are_kept_until_they_are_cleared() {
    let mut vm = machine();
    vm.set_breakpoint(Breakpoint::ArrayUse);
    vm.set_breakpoint(Breakpoint::FieldSet(1));
    vm.set_breakpoint(Breakpoint::ArrayReturn);
    assert_eq!(
        vm.get_breakpoints_clone(),
        vec![Breakpoint::ArrayUse, Breakpoint::FieldSet(1), Breakpoint::ArrayReturn]
    );
    assert!(vm.stop_on_array_use && vm.stop_on_array_return);
    assert!(!vm.stop_on_string_use && !vm.stop_on_string_return);
    vm.reset();
    assert_eq!(vm.get_breakpoints_clone().len(), 3);
    vm.clear_breakpoints();
    assert!(vm.get_breakpoints_clone().is_empty());
    let code = passing(Instruction::InvokeStatic(2, 1, vec![0, 1]));
    assert!(matches!(vm.start(6, "main", &code, vec![]), Ok(Progress::Finished)));
    assert!(matches!(vm.start(2, "main", &storing(1), vec![]), Ok(Progress::Finished)));
}

#[test]
fn a_run_does_not_change_what_is_watched() {
    let mut vm = machine();
    vm.set_breakpoint(Breakpoint::StringUse);
    let code = passing(Instruction::InvokeStatic(2, 1, vec![1, 1]));
    assert!(matches!(vm.start(6, "main", &code, vec![]), Ok(Progress::Finished)));
    assert_eq!(vm.get_breakpoints_clone(), vec![Breakpoint::StringUse]);
    assert!(vm.stop_on_string_use && !vm.stop_on_array_use);
}

#[test]
fn continuing_where_nothing_stands_is_refused() {
    let mut vm = machine();
    let result = vm.continue_execution(InstructionOffset(8));
    assert!(matches!(result, Err(VMException::NoInstructionAtAddress(0, 8))));
    assert!(vm.skip_next_breakpoint);
}

#[test]
fn integers_pass_unwatched() {
    let mut vm = machine();
    vm.set_breakpoint(Breakpoint::ArrayUse);
    vm.set_breakpoint(Breakpoint::StringUse);
    let code = body(
        1,
        1,
        vec![(3, Instruction::InvokeStatic(2, 1, vec![0, 0])), (1, Instruction::Return(0))],
    );
    assert!(matches!(vm.start(6, "main", &code, vec![Register::Literal(3)]), Ok(Progress::Finished)));
    assert!(matches!(vm.get_return_object(), Some(Value::Int(3))));
}

#[test]
fn calls_of_an_initializer_do_not_stop() {
    let clinit = body(
        2,
        0,
        vec![
            (1, Instruction::ConstLit4(0, 2)),
            (2, Instruction::NewArray(1, 0, 1)),
            (3, Instruction::InvokeStatic(2, 1, vec![1, 1])),
            (2, Instruction::StaticPutObject(1, 0)),
            (1, Instruction::ReturnVoid),
        ],
    );
    let mut vm = machine_with(vec![MethodData {
        method_idx: 2,
        method: method(2),
        name: "<clinit>".to_string(),
        access_flags: 0,
        code: Some(clinit),
    }]);
    vm.set_breakpoint(Breakpoint::ArrayUse);
    let code = body(
        1,
        0,
        vec![
            (2, Instruction::StaticGetObject(0, 0)),
            (3, Instruction::InvokeStatic(2, 1, vec![0, 0])),
            (1, Instruction::ReturnVoid),
        ],
    );
    // The first stop is in the method itself.
    let (address, method, context) = stop(vm.start(6, "main", &code, vec![]));
    assert_eq!(address, InstructionOffset(2));
    assert_eq!(context, BreakpointContext::ArrayReg(0, 1));
    // A static call reports the method that was entered last.
    assert_eq!(method, 1);
    assert_eq!(vm.get_current_state().current_method_index, 6);
}

/// Makes an array, calls method 1 with integers where asked to, and then with the
/// array twice.
fn passing_twice(call_before: bool) -> Arc<CodeItem> {
    let before = if call_before {
        Instruction::InvokeStatic(2, 1, vec![0, 0])
    } else {
        Instruction::Nop
    };
    body(
        2,
        0,
        vec![
            (1, Instruction::ConstLit4(0, 4)),
            (2, Instruction::NewArray(1, 0, 1)),
            (3, before),
            (3, Instruction::InvokeStatic(2, 1, vec![1, 1])),
            (1, Instruction::ReturnVoid),
        ],
    )
}

#[test]
fn each_watched_argument_of_a_call_stops_the_machine_once() {
    for call_before in vec![false, true] {
        let mut vm = machine();
        vm.set_breakpoint(Breakpoint::ArrayUse);
        let (address, method, context) = stop(vm.start(6, "main", &passing_twice(call_before), vec![]));
        assert_eq!((address, context), (InstructionOffset(6), BreakpointContext::ArrayReg(1, 1)));
        assert_eq!(vm.get_current_state().last_break_point_reg, 0);
        // A static call reports the method that was entered last in this run.
        assert_eq!(method, if call_before { 1 } else { 6 });

        let (again, continued, context) = stop(vm.continue_execution(address));
        assert_eq!((again, context), (address, BreakpointContext::ArrayReg(1, 1)));
        assert_eq!(vm.get_current_state().last_break_point_reg, 1);
        assert_eq!(continued, 6);
        assert!(matches!(vm.continue_execution(again), Ok(Progress::Finished)));
    }
}
