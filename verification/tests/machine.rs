use std::sync::Arc;

use coeus_emulation::instruction::{CodeItem, Instruction, InstructionOffset, InstructionSize};
use coeus_emulation::models::{BinaryObject, Class, DexFile, Method, MethodData, Proto};
use coeus_emulation::name_map::NameMap;
use coeus_emulation::vm::exception::{Breakpoint, ExecutionState, VMException};
use coeus_emulation::vm::run::Progress;
use coeus_emulation::vm::machine::Draw;
use coeus_emulation::vm::register::Register;
use coeus_emulation::vm::runtime::Builtins;
use coeus_emulation::vm::state::VM;
use coeus_emulation::vm::value::Value;

fn dex(identifier: &str) -> Arc<DexFile> {
    Arc::new(DexFile {
        identifier: identifier.to_string(),
        strings: vec!["text".to_string()],
        type_names: vec!["LMain;".to_string()],
        protos: vec![],
        fields: vec![],
        methods: vec![],
        classes: vec![],
    })
}

fn machine() -> VM {
    let mut resources: NameMap<Arc<BinaryObject>> = NameMap::new();
    resources.insert("a.png".to_string(), Arc::new(BinaryObject { data: vec![1] }));
    VM::new(dex("main"), vec![dex("lib")], Arc::new(resources), Arc::new(Builtins::standard()))
}

fn ran() -> VM {
    let mut vm = machine();
    let code = Arc::new(CodeItem {
        register_size: 2,
        ins_size: 1,
        insns: vec![
            (InstructionSize(4), InstructionOffset(0), Instruction::ConstString(0, 0)),
            (InstructionSize(2), InstructionOffset(2), Instruction::Return(0)),
        ],
    });
    assert!(matches!(vm.start(3, "main", &code, vec![Register::Literal(1)]), Ok(Progress::Finished)));
    vm
}

#[test]
fn a_new_machine_is_empty() {
    let vm = machine();
    assert!(vm.get_heap().is_empty());
    assert!(vm.get_instances().names().is_empty());
    assert!(vm.get_breakpoints_clone().is_empty());
    assert!(vm.get_registers().is_empty());
    assert!(vm.get_stack_frames().is_empty());
    assert!(vm.get_return_object().is_none());
    let state = vm.get_current_state();
    assert_eq!(state.pc, InstructionOffset(0));
    assert_eq!(state.vm_state, ExecutionState::Stopped);
    assert_eq!(state.current_method_index, 0);
    assert_eq!(state.current_dex_file.identifier, "main");
}

#[test]
fn a_machine_that_was_reset_is_empty_again() {
    let mut vm = ran();
    vm.skip_next_breakpoint = true;
    vm.reset();
    assert!(vm.get_heap().is_empty());
    assert!(vm.get_instances().names().is_empty());
    assert!(vm.get_registers().is_empty());
    assert!(vm.get_stack_frames().is_empty());
    assert!(vm.get_return_object().is_none());
    assert!(!vm.skip_next_breakpoint);
    assert_eq!(vm.get_current_state().vm_state, ExecutionState::Stopped);
    assert_eq!(vm.get_current_state().current_method_index, 0);
    assert_eq!(vm.get_current_state().pc, InstructionOffset(0));
    // The sizes of the last instruction are not part of what is emptied.
    assert_eq!(vm.get_current_state().current_instruction_size, InstructionSize(1));
    assert!(matches!(
        vm.continue_execution(InstructionOffset(0)),
        Err(VMException::NoInstructionAtAddress(0, 0))
    ));
}

#[test]
fn a_run_leaves_the_last_sizes() {
    let vm = ran();
    assert_eq!(vm.get_current_state().last_instruction_size, InstructionSize(2));
    assert_eq!(vm.get_current_state().current_instruction_size, InstructionSize(1));
    assert_eq!(vm.get_current_state().pc, InstructionOffset(2));
}

#[test]
fn what_was_put_on_the_heap_is_found_there() {
    let mut vm = machine();
    let first = vm.new_instance("[B".to_string(), Value::Array(vec![1])).unwrap();
    let second = vm.new_instance("I".to_string(), Value::Short(-2)).unwrap();
    match (&first, &second) {
        (Register::Reference(ty, a), Register::Reference(_, b)) => {
            assert_eq!(ty, "[B");
            assert_ne!(a, b);
        }
        other => panic!("{:?}", other),
    }
    assert!(matches!(vm.get_instance(first), Value::Array(data) if data == vec![1]));
    assert!(matches!(vm.get_instance(second), Value::Short(-2)));
    assert_eq!(vm.get_heap().len(), 2);
}

#[test]
fn many_addresses_are_all_different() {
    let mut vm = machine();
    for i in 0..200 {
        vm.new_instance("I".to_string(), Value::Int(i)).unwrap();
    }
    assert_eq!(vm.get_heap().len(), 200);
}

#[test]
fn allocation_gives_an_address_that_is_not_in_use() {
    let mut vm = machine();
    for _ in 0..50 {
        let address = vm.malloc().unwrap();
        assert!(!vm.heap.contains_key(&address));
        vm.heap.insert(address, Value::Int(0));
    }
}

#[test]
fn the_value_of_a_register() {
    let vm = machine();
    assert!(matches!(vm.get_instance(Register::Literal(-3)), Value::Int(-3)));
    assert!(matches!(vm.get_instance(Register::Null), Value::Int(0)));
    assert!(matches!(vm.get_instance(Register::Empty), Value::Int(0)));
    assert!(matches!(vm.get_instance(Register::LiteralWide(9)), Value::Int(0)));
}

#[test]
fn the_value_that_was_returned() {
    let mut vm = ran();
    assert_eq!(vm.get_return_object().unwrap().as_string(), Some("text".to_string()));
    vm.current_state.return_reg = Register::Reference("LMain;".to_string(), 1);
    vm.heap.clear();
    assert!(vm.get_return_object().is_none());
    vm.current_state.return_reg = Register::Null;
    assert!(vm.get_return_object().is_none());
}

#[test]
fn a_copy_runs_on_its_own() {
    let vm = ran();
    let mut copy = vm.clone();
    assert_eq!(copy.get_heap().len(), vm.get_heap().len());
    copy.new_instance("I".to_string(), Value::Int(1)).unwrap();
    assert_eq!(copy.get_heap().len(), vm.get_heap().len() + 1);
    copy.reset();
    assert!(vm.get_return_object().is_some());
    assert_eq!(copy.runtime[0].identifier, "lib");
    assert!(copy.resources.contains_key("a.png"));
}

#[test]
fn copies_draw_their_addresses_from_one_generator() {
    let vm = machine();
    let copy = vm.clone();
    let mut drawn = vec![vm.malloc(), copy.malloc(), vm.malloc(), copy.malloc()];
    drawn.sort();
    drawn.dedup();
    assert_eq!(drawn.len(), 4);
}

#[test]
fn methods_that_cannot_be_linked_are_left_to_builtins() {
    let listed = |idx: u16, class_idx: u16, proto_idx: u16| Method {
        method_idx: idx,
        class_idx,
        proto_idx,
        method_name: "m".to_string(),
        proto_name: "()V".to_string(),
    };
    let mut file = (*dex("main")).clone();
    file.protos = vec![Proto { descriptor: "()V".to_string() }];
    file.methods = vec![listed(0, 0, 5), listed(1, 70, 0), listed(2, 0, 0)];
    let mut library = (*dex("lib")).clone();
    library.classes = vec![Arc::new(Class {
        class_name: "LMain;".to_string(),
        class_idx: 4,
        codes: vec![MethodData {
            method_idx: 8,
            method: listed(8, 4, 0),
            name: "m".to_string(),
            access_flags: 0,
            code: Some(Arc::new(CodeItem {
                register_size: 0,
                ins_size: 0,
                insns: vec![(InstructionSize(2), InstructionOffset(0), Instruction::ReturnVoid)],
            })),
        }],
        static_fields: vec![],
    })];
    let mut vm = VM::new(
        Arc::new(file),
        vec![Arc::new(library)],
        Arc::new(NameMap::new()),
        Arc::new(Builtins::standard()),
    );
    let main = vm.dex_file.clone();
    let message = |method: u32| match vm.get_method(&main, method) {
        Err(VMException::MethodNotFound(text)) => text,
        other => panic!("{:?}", other.is_ok()),
    };
    assert_eq!(message(900), "Method Index: 900");
    assert_eq!(message(0), "Method Index: 0, Proto Index: 5");
    assert!(matches!(vm.get_method(&main, 1), Err(VMException::ClassNotFound(70))));
    for (method, linked) in vec![(0u16, false), (1, false), (2, true), (900, false)] {
        let code = Arc::new(CodeItem {
            register_size: 0,
            ins_size: 0,
            insns: vec![
                (InstructionSize(6), InstructionOffset(0), Instruction::InvokeStatic(0, method, vec![])),
                (InstructionSize(2), InstructionOffset(3), Instruction::ReturnVoid),
            ],
        });
        match vm.start(0, "main", &code, vec![]) {
            Ok(Progress::Finished) => assert!(linked),
            Ok(Progress::Runtime(call)) => {
                assert!(!linked);
                assert_eq!(call.method_idx, method as u32);
            }
            other => panic!("{:?}", other),
        }
    }
}

#[test]
fn addresses_are_drawn_for_new_objects_alone() {
    let reference = machine();
    let mut vm = machine();
    let run = |vm: &mut VM, first: Instruction| {
        let code = Arc::new(CodeItem {
            register_size: 2,
            ins_size: 1,
            insns: vec![
                (InstructionSize(4), InstructionOffset(0), first),
                (InstructionSize(2), InstructionOffset(2), Instruction::ReturnVoid),
            ],
        });
        vm.start(0, "main", &code, vec![Register::Literal(-1)]).is_ok()
    };
    // None of these makes an object.
    assert!(run(&mut vm, Instruction::ConstLit16(0, 5)));
    assert!(!run(&mut vm, Instruction::ConstString(0, 99)));
    assert!(!run(&mut vm, Instruction::NewInstance(0, 99)));
    assert!(!run(&mut vm, Instruction::NewArray(0, 1, 0)));
    assert!(run(&mut vm, Instruction::NewArray(1, 0, 0)));
    assert!(vm.get_heap().is_empty());
    // These make one each.
    assert!(run(&mut vm, Instruction::ConstString(0, 0)));
    assert!(run(&mut vm, Instruction::FilledNewArray(1, 0, vec![1])));
    let mut made: Vec<u32> = vm.get_heap().keys().copied().collect();
    let mut expected = vec![reference.malloc().unwrap(), reference.malloc().unwrap()];
    made.sort();
    expected.sort();
    assert_eq!(made, expected);
}

#[test]
fn answers_of_the_generator_are_judged_by_the_heap() {
    let mut vm = machine();
    vm.heap.insert(7, Value::Int(0));
    assert_eq!(vm.judge_word(0, Some(8)), Draw::Found(8));
    assert_eq!(vm.judge_word(10, Some(8)), Draw::Found(8));
    assert_eq!(vm.judge_word(0, Some(7)), Draw::Again);
    assert_eq!(vm.judge_word(9, Some(7)), Draw::Again);
    assert_eq!(vm.judge_word(10, Some(7)), Draw::Failed);
    assert_eq!(vm.judge_word(0, None), Draw::Failed);
}

#[test]
fn the_first_free_number_is_taken() {
    let reference = machine();
    let numbers: Vec<u32> = (0..11).map(|_| reference.malloc().unwrap()).collect();
    let mut vm = machine();
    for number in &numbers[..10] {
        vm.heap.insert(*number, Value::Int(0));
    }
    assert_eq!(vm.malloc(), Some(numbers[10]));
    let mut full = machine();
    for number in &numbers {
        full.heap.insert(*number, Value::Int(0));
    }
    assert_eq!(full.malloc(), None);
    assert!(matches!(machine().new_instance("I".to_string(), Value::Int(1)), Ok(Register::Reference(_, a)) if a == numbers[0]));
}

#[test]
fn a_machine_without_a_free_number_is_out_of_memory() {
    let reference = machine();
    let mut vm = machine();
    for _ in 0..11 {
        vm.heap.insert(reference.malloc().unwrap(), Value::Int(0));
    }
    assert!(matches!(vm.new_instance("I".to_string(), Value::Int(1)), Err(VMException::OutOfMemory)));
    assert_eq!(vm.get_heap().len(), 11);
}

#[test]
fn nothing_is_drawn_for_an_instruction_that_is_cut_off() {
    let reference = machine();
    let mut vm = machine();
    let mut insns: Vec<(InstructionSize, InstructionOffset, Instruction)> =
        (0..1000).map(|i| (InstructionSize(2), InstructionOffset(i), Instruction::Nop)).collect();
    insns.push((InstructionSize(4), InstructionOffset(1000), Instruction::ConstString(0, 0)));
    let code = Arc::new(CodeItem { register_size: 1, ins_size: 0, insns });
    assert!(matches!(vm.start(0, "main", &code, vec![]), Err(VMException::StackOverflow)));
    assert_eq!(vm.malloc(), reference.malloc());
}

#[test]
fn a_second_reset_changes_nothing() {
    let mut vm = ran();
    vm.reset();
    let code = vm.get_current_state().current_instructions.clone();
    assert_eq!((code.register_size, code.ins_size, code.insns.len()), (0, 0, 0));
    vm.reset();
    assert!(Arc::ptr_eq(&code, &vm.get_current_state().current_instructions));
    assert_eq!(vm.get_current_state().vm_state, ExecutionState::Stopped);
}

#[test]
fn plain_code_shows_nothing_of_earlier_runs() {
    let code = Arc::new(CodeItem {
        register_size: 3,
        ins_size: 2,
        insns: vec![
            (InstructionSize(4), InstructionOffset(0), Instruction::MulIntDst(0, 1, 2)),
            (InstructionSize(2), InstructionOffset(2), Instruction::Return(0)),
        ],
    });
    let arguments = || vec![Register::Literal(6), Register::Literal(7)];
    let mut used = ran();
    used.set_breakpoint(Breakpoint::StringReturn);
    used.set_breakpoint(Breakpoint::ArrayUse);
    used.skip_next_breakpoint = true;
    let heap = used.get_heap().len();
    let mut fresh = machine();
    assert!(matches!(used.start(5, "main", &code, arguments()), Ok(Progress::Finished)));
    assert!(matches!(fresh.start(5, "main", &code, arguments()), Ok(Progress::Finished)));
    assert!(used.get_registers() == fresh.get_registers());
    assert_eq!(used.get_current_state().pc, fresh.get_current_state().pc);
    assert!(matches!(used.get_return_object(), Some(Value::Int(42))));
    assert!(matches!(fresh.get_return_object(), Some(Value::Int(42))));
    assert_eq!(used.get_heap().len(), heap);
    assert_eq!(used.get_breakpoints_clone().len(), 2);
}

#[test]
fn new_machines_hand_out_the_same_addresses() {
    let mut a = machine();
    let mut b = VM::new(dex("other"), vec![], Arc::new(NameMap::new()), Arc::new(Builtins::standard()));
    for i in 0..20 {
        let x = a.new_instance("I".to_string(), Value::Int(i)).unwrap();
        let y = b.new_instance("[B".to_string(), Value::Array(vec![1])).unwrap();
        assert!(x == y);
    }
}
