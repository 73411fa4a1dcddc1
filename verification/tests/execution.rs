use std::collections::HashMap;
use std::sync::Arc;

use coeus_emulation::instruction::{
    CodeItem, Instruction, InstructionOffset, InstructionSize, Switch, TestFunction,
};
use coeus_emulation::models::{Class, DexFile, Method, MethodData, Proto};
use coeus_emulation::name_map::NameMap;
use coeus_emulation::vm::exception::{ExecutionState, VMException};
use coeus_emulation::vm::control::{Cursor, Turn};
use coeus_emulation::vm::run::Progress;
use coeus_emulation::vm::register::Register;
use coeus_emulation::vm::runtime::Builtins;
use coeus_emulation::vm::semantics::Choice;
use coeus_emulation::vm::state::VM;
use coeus_emulation::vm::value::Value;

/// A method body; each instruction comes with its length in code units.
fn body(registers: u16, params: u16, list: Vec<(u32, Instruction)>) -> Arc<CodeItem> {
    let mut insns = Vec::new();
    let mut address = 0;
    for (units, instruction) in list {
        insns.push((InstructionSize(units * 2), InstructionOffset(address), instruction));
        address += units;
    }
    Arc::new(CodeItem { register_size: registers, ins_size: params, insns })
}

fn listed(idx: u16, class_idx: u16, name: &str) -> Method {
    Method {
        method_idx: idx,
        class_idx,
        proto_idx: 0,
        method_name: name.to_string(),
        proto_name: "()V".to_string(),
    }
}

fn defined(idx: u16, name: &str, code: Option<Arc<CodeItem>>) -> MethodData {
    MethodData {
        method_idx: idx as u32,
        method: listed(idx, 0, name),
        name: name.to_string(),
        access_flags: 0,
        code,
    }
}

fn dex(identifier: &str, class: &str, methods: Vec<Method>, codes: Vec<MethodData>) -> Arc<DexFile> {
    Arc::new(DexFile {
        identifier: identifier.to_string(),
        strings: vec![],
        type_names: vec!["LMain;".to_string(), "LLib;".to_string()],
        protos: vec![Proto { descriptor: "()V".to_string() }],
        fields: vec![],
        methods,
        classes: vec![Arc::new(Class {
            class_name: class.to_string(),
            class_idx: 0,
            codes,
            static_fields: vec![],
        })],
    })
}

fn machine(main: Arc<DexFile>, runtime: Vec<Arc<DexFile>>) -> VM {
    VM::new(main, runtime, Arc::new(NameMap::new()), Arc::new(Builtins::standard()))
}

fn plain() -> VM {
    machine(dex("main", "LMain;", vec![], vec![]), vec![])
}

/// Runs a body and gives its integer result.
fn result_of(registers: u16, params: u16, arguments: Vec<Register>, list: Vec<(u32, Instruction)>) -> i32 {
    let mut vm = plain();
    let code = body(registers, params, list);
    assert!(matches!(vm.start(0, "main", &code, arguments), Ok(Progress::Finished)));
    match vm.get_return_object() {
        Some(Value::Int(n)) => n,
        _ => panic!("no integer"),
    }
}

fn binary(a: i32, b: i32, instruction: Instruction) -> i32 {
    result_of(
        3,
        2,
        vec![Register::Literal(a), Register::Literal(b)],
        vec![(2, instruction), (1, Instruction::Return(0))],
    )
}

#[test]
fn arithmetic_is_modulo_two_to_the_32() {
    assert_eq!(binary(i32::MAX, 1, Instruction::AddIntDst(0, 1, 2)), i32::MIN);
    assert_eq!(binary(i32::MIN, 1, Instruction::SubIntDst(0, 1, 2)), i32::MAX);
    assert_eq!(binary(0x4000_0000, 4, Instruction::MulIntDst(0, 1, 2)), 0);
    assert_eq!(binary(0b1100, 0b1010, Instruction::XorIntDst(0, 1, 2)), 0b0110);
    assert_eq!(binary(0b1100, 0b1010, Instruction::AndIntDst(0, 1, 2)), 0b1000);
    assert_eq!(binary(0b1100, 0b1010, Instruction::OrIntDst(0, 1, 2)), 0b1110);
}

#[test]
fn remainder_has_the_sign_of_the_dividend() {
    assert_eq!(binary(7, 3, Instruction::RemIntDst(0, 1, 2)), 1);
    assert_eq!(binary(-7, 3, Instruction::RemIntDst(0, 1, 2)), -1);
    assert_eq!(binary(7, -3, Instruction::RemIntDst(0, 1, 2)), 1);
    assert_eq!(binary(i32::MIN, 7, Instruction::RemIntDst(0, 1, 2)), -2);
}

#[test]
fn arithmetic_with_two_registers_overwrites_the_first() {
    let run = |instruction: Instruction| {
        result_of(
            2,
            2,
            vec![Register::Literal(12), Register::Literal(10)],
            vec![(1, instruction), (1, Instruction::Return(0))],
        )
    };
    assert_eq!(run(Instruction::AddInt(0, 1)), 22);
    assert_eq!(run(Instruction::SubInt(0, 1)), 2);
    assert_eq!(run(Instruction::MulInt(0, 1)), 120);
    assert_eq!(run(Instruction::RemInt(0, 1)), 2);
    assert_eq!(run(Instruction::XorInt(0, 1)), 6);
    assert_eq!(run(Instruction::AndInt(0, 1)), 8);
    assert_eq!(run(Instruction::OrInt(0, 1)), 14);
}

#[test]
fn arithmetic_with_literals() {
    let run = |instruction: Instruction| {
        result_of(
            2,
            1,
            vec![Register::Literal(-100)],
            vec![(2, instruction), (1, Instruction::Return(0))],
        )
    };
    assert_eq!(run(Instruction::AddIntLit8(0, 1, -28)), -128);
    assert_eq!(run(Instruction::AddIntLit16(0, 1, 1000)), 900);
    assert_eq!(run(Instruction::SubIntLit8(0, 1, 1)), -101);
    assert_eq!(run(Instruction::SubIntLit16(0, 1, -1)), -99);
    assert_eq!(run(Instruction::MulIntLit8(0, 1, 3)), -300);
    assert_eq!(run(Instruction::MulIntLit16(0, 1, -2)), 200);
    assert_eq!(run(Instruction::RemIntLit8(0, 1, 7)), -2);
    assert_eq!(run(Instruction::RemIntLit16(0, 1, -7)), -2);
    assert_eq!(run(Instruction::XorIntDstLit8(0, 1, -1)), 99);
    assert_eq!(run(Instruction::XorIntDstLit16(0, 1, 1)), -99);
    assert_eq!(run(Instruction::AndIntLit8(0, 1, 0x0f)), 12);
    assert_eq!(run(Instruction::AndIntLit16(0, 1, 0x00ff)), 156);
    assert_eq!(run(Instruction::OrIntLit8(0, 1, 3)), -97);
    assert_eq!(run(Instruction::OrIntLit16(0, 1, 0x0100)), -100);
}

#[test]
fn smallest_integer_by_minus_one_leaves_nothing_over_as_a_literal() {
    let n = result_of(
        2,
        1,
        vec![Register::Literal(i32::MIN)],
        vec![(2, Instruction::RemIntLit8(0, 1, -1)), (1, Instruction::Return(0))],
    );
    assert_eq!(n, 0);
}

#[test]
fn remainder_by_a_zero_register_is_refused() {
    let mut vm = plain();
    let code = body(2, 2, vec![(1, Instruction::RemInt(0, 1)), (1, Instruction::ReturnVoid)]);
    let result = vm.start(0, "main", &code, vec![Register::Literal(1), Register::Literal(0)]);
    assert!(matches!(result, Err(VMException::InvalidRegisterType)));
}

#[test]
fn undefined_remainders_are_reported() {
    let mut vm = plain();
    let by_literal = body(1, 1, vec![(2, Instruction::RemIntLit8(0, 0, 0)), (1, Instruction::ReturnVoid)]);
    assert!(matches!(vm.start(0, "main", &by_literal, vec![Register::Literal(1)]), Ok(Progress::Stuck)));
    let overflow = body(2, 2, vec![(1, Instruction::RemInt(0, 1)), (1, Instruction::ReturnVoid)]);
    let arguments = vec![Register::Literal(i32::MIN), Register::Literal(-1)];
    assert!(matches!(vm.start(0, "main", &overflow, arguments), Ok(Progress::Stuck)));
}

#[test]
fn arithmetic_without_integers_leaves_an_empty_register() {
    let mut vm = plain();
    let code = body(2, 1, vec![(2, Instruction::AddIntDst(0, 1, 1)), (1, Instruction::ReturnVoid)]);
    vm.start(0, "main", &code, vec![Register::Null]).unwrap();
    assert!(matches!(vm.get_registers()[0], Register::Empty));
    let literal = body(2, 1, vec![(2, Instruction::AddIntLit8(0, 1, 1)), (1, Instruction::ReturnVoid)]);
    vm.start(0, "main", &literal, vec![Register::Null]).unwrap();
    assert!(matches!(vm.get_registers()[0], Register::Empty));
}

#[test]
fn wide_operations_do_nothing() {
    let n = result_of(
        2,
        1,
        vec![Register::Literal(5)],
        vec![
            (1, Instruction::AddLong(1, 1)),
            (1, Instruction::MulLong(1, 1)),
            (1, Instruction::Throw(1)),
            (1, Instruction::Nop),
            (1, Instruction::Return(1)),
        ],
    );
    assert_eq!(n, 5);
}

#[test]
fn constants_and_moves() {
    assert_eq!(
        result_of(1, 0, vec![], vec![(1, Instruction::ConstLit4(0, 15)), (1, Instruction::Return(0))]),
        15
    );
    assert_eq!(
        result_of(1, 0, vec![], vec![(2, Instruction::ConstLit16(0, -300)), (1, Instruction::Return(0))]),
        -300
    );
    assert_eq!(
        result_of(
            4,
            0,
            vec![],
            vec![
                (3, Instruction::ConstLit32(0, 123_456)),
                (1, Instruction::Move(1, 0)),
                (2, Instruction::MoveFrom16(2, 1)),
                (3, Instruction::Move16(3, 2)),
                (1, Instruction::Return(3)),
            ]
        ),
        123_456
    );
}

#[test]
fn low_byte_keeps_its_sign() {
    let run = |n: i32| {
        result_of(
            2,
            1,
            vec![Register::Literal(n)],
            vec![(1, Instruction::IntToByte(0, 1)), (1, Instruction::Return(0))],
        )
    };
    assert_eq!(run(200), -56);
    assert_eq!(run(-129), 127);
    assert_eq!(run(0x1ff), -1);
}

#[test]
fn missing_registers_are_reported() {
    let mut vm = plain();
    let move_from = body(1, 0, vec![(1, Instruction::Move(0, 7)), (1, Instruction::ReturnVoid)]);
    assert!(matches!(vm.start(0, "main", &move_from, vec![]), Err(VMException::RegisterNotFound(7))));
    let move_to = body(1, 0, vec![(1, Instruction::Move(9, 0)), (1, Instruction::ReturnVoid)]);
    assert!(matches!(vm.start(0, "main", &move_to, vec![]), Err(VMException::RegisterNotFound(9))));
    let test = body(1, 0, vec![(2, Instruction::TestZero(TestFunction::Equal, 3, 2))]);
    assert!(matches!(vm.start(0, "main", &test, vec![]), Err(VMException::RegisterNotFound(3))));
    let switch = body(1, 0, vec![(3, Instruction::Switch(0, 3))]);
    assert!(matches!(vm.start(0, "main", &switch, vec![]), Err(VMException::RegisterNotFound(0))));
}

#[test]
fn comparing_an_empty_register_is_refused() {
    let mut vm = plain();
    let code = body(2, 1, vec![(2, Instruction::Test(TestFunction::Equal, 0, 1, 2)), (1, Instruction::ReturnVoid)]);
    let result = vm.start(0, "main", &code, vec![Register::Literal(0)]);
    assert!(matches!(result, Err(VMException::RegisterNotFound(0))));
}

#[test]
fn comparisons_branch_as_they_hold() {
    let run = |test: TestFunction, a: i32, b: i32| {
        result_of(
            3,
            2,
            vec![Register::Literal(a), Register::Literal(b)],
            vec![
                (2, Instruction::Test(test, 1, 2, 4)),
                (1, Instruction::ConstLit4(0, 0)),
                (1, Instruction::Return(0)),
                (1, Instruction::ConstLit4(0, 1)),
                (1, Instruction::Return(0)),
            ],
        ) == 1
    };
    assert!(run(TestFunction::Equal, 3, 3) && !run(TestFunction::Equal, 3, 4));
    assert!(run(TestFunction::NotEqual, 3, 4) && !run(TestFunction::NotEqual, 3, 3));
    assert!(run(TestFunction::LessThan, -1, 0) && !run(TestFunction::LessThan, 0, 0));
    assert!(run(TestFunction::LessEqual, 0, 0) && !run(TestFunction::LessEqual, 1, 0));
    assert!(run(TestFunction::GreaterThan, 1, 0) && !run(TestFunction::GreaterThan, 0, 0));
    assert!(run(TestFunction::GreaterEqual, 0, 0) && !run(TestFunction::GreaterEqual, -1, 0));
}

#[test]
fn a_loop_adds_up() {
    // 1 + 2 + .. + n, counting down.
    let n = result_of(
        2,
        1,
        vec![Register::Literal(10)],
        vec![
            (1, Instruction::ConstLit4(0, 0)),
            (2, Instruction::TestZero(TestFunction::LessEqual, 1, 6)),
            (1, Instruction::AddInt(0, 1)),
            (2, Instruction::AddIntLit8(1, 1, -1)),
            (1, Instruction::Goto8(-5)),
            (1, Instruction::Return(0)),
        ],
    );
    assert_eq!(n, 55);
}

#[test]
fn wider_jumps_go_as_far() {
    let n = result_of(
        1,
        0,
        vec![],
        vec![
            (2, Instruction::Goto16(5)),
            (1, Instruction::ConstLit4(0, 3)),
            (1, Instruction::Return(0)),
            (1, Instruction::Nop),
            (3, Instruction::Goto32(-3)),
        ],
    );
    assert_eq!(n, 3);
}

fn switch_body() -> Arc<CodeItem> {
    let mut targets = HashMap::new();
    targets.insert(4, 5);
    body(
        2,
        1,
        vec![
            (3, Instruction::Switch(1, 7)),
            (1, Instruction::ConstLit4(0, 1)),
            (1, Instruction::Return(0)),
            (1, Instruction::ConstLit4(0, 2)),
            (1, Instruction::Return(0)),
            (4, Instruction::SwitchData(Switch { targets })),
        ],
    )
}

#[test]
fn a_switch_goes_to_its_case_or_on() {
    let mut vm = plain();
    let code = switch_body();
    vm.start(0, "main", &code, vec![Register::Literal(4)]).unwrap();
    assert!(matches!(vm.get_return_object(), Some(Value::Int(2))));
    vm.start(0, "main", &code, vec![Register::Literal(5)]).unwrap();
    assert!(matches!(vm.get_return_object(), Some(Value::Int(1))));
}

#[test]
fn running_off_the_method_is_reported() {
    let mut vm = plain();
    let code = body(0, 0, vec![(1, Instruction::Nop)]);
    assert!(matches!(vm.start(12, "main", &code, vec![]), Err(VMException::NoInstructionAtAddress(12, 1))));
    let empty = body(0, 0, vec![]);
    assert!(matches!(vm.start(7, "main", &empty, vec![]), Err(VMException::NoInstructionAtAddress(7, 0))));
    let below = body(0, 0, vec![(1, Instruction::Goto8(-1))]);
    assert!(matches!(
        vm.start(7, "main", &below, vec![]),
        Err(VMException::NoInstructionAtAddress(7, 0xffff_ffff))
    ));
}

#[test]
fn of_two_instructions_at_an_address_the_last_counts() {
    let code = Arc::new(CodeItem {
        register_size: 1,
        ins_size: 0,
        insns: vec![
            (InstructionSize(2), InstructionOffset(0), Instruction::ConstLit4(0, 1)),
            (InstructionSize(2), InstructionOffset(1), Instruction::Return(0)),
            (InstructionSize(2), InstructionOffset(0), Instruction::ConstLit4(0, 2)),
        ],
    });
    let mut vm = plain();
    vm.start(0, "main", &code, vec![]).unwrap();
    assert!(matches!(vm.get_return_object(), Some(Value::Int(2))));
}

#[test]
fn a_run_executes_a_thousand_instructions_at_most() {
    let mut vm = plain();
    let endless = body(0, 0, vec![(1, Instruction::Goto8(0))]);
    assert!(matches!(vm.start(0, "main", &endless, vec![]), Err(VMException::StackOverflow)));

    let mut list: Vec<(u32, Instruction)> = (0..999).map(|_| (1, Instruction::Nop)).collect();
    list.push((1, Instruction::ReturnVoid));
    assert!(matches!(vm.start(0, "main", &body(0, 0, list.clone()), vec![]), Ok(Progress::Finished)));
    list.insert(0, (1, Instruction::Nop));
    assert!(matches!(vm.start(0, "main", &body(0, 0, list), vec![]), Err(VMException::StackOverflow)));
}

#[test]
fn a_step_at_the_limit_does_nothing() {
    let mut vm = plain();
    let code = body(1, 0, vec![(1, Instruction::ConstLit4(0, 1)), (1, Instruction::ReturnVoid)]);
    let mut cursor =
        Cursor { code, index: 0, dex: vm.dex_file.clone(), method: 0, steps: 1000 };
    let none = Choice { first: None, second: None };
    assert!(matches!(vm.step(&mut cursor, none), Err(VMException::StackOverflow)));
    assert_eq!(cursor.steps, 1000);
    cursor.steps = 999;
    vm.current_state.current_stackframe = vec![Register::Empty];
    vm.current_state.current_instructions = cursor.code.clone();
    assert!(matches!(vm.step(&mut cursor, none), Ok(Turn::Running)));
    assert_eq!((cursor.steps, cursor.index), (1000, 1));
}

#[test]
fn starting_checks_the_file_and_the_arguments() {
    let mut vm = plain();
    let code = body(1, 1, vec![(1, Instruction::ReturnVoid)]);
    assert!(matches!(
        vm.start(0, "other", &code, vec![Register::Null]),
        Err(VMException::LinkerError)
    ));
    assert!(matches!(vm.start(0, "main", &code, vec![]), Err(VMException::WrongNumberOfArguments)));
}

#[test]
fn a_method_of_the_runtime_is_started_by_its_file() {
    let library = dex("lib", "LLib;", vec![], vec![]);
    let mut vm = machine(dex("main", "LMain;", vec![], vec![]), vec![library]);
    let code = body(0, 0, vec![(1, Instruction::ReturnVoid)]);
    assert!(matches!(vm.start(3, "lib", &code, vec![]), Ok(Progress::Finished)));
    assert_eq!(vm.get_current_state().current_dex_file.identifier, "lib");
    assert_eq!(vm.get_current_state().current_method_index, 3);
    assert_eq!(vm.get_current_state().vm_state, ExecutionState::Finished);
}

#[test]
fn starting_forgets_the_frames_of_an_earlier_run() {
    let mut vm = plain();
    let failing = body(3, 0, vec![(1, Instruction::ConstLit4(0, 1)), (1, Instruction::Move(0, 9))]);
    assert!(vm.start(5, "main", &failing, vec![]).is_err());
    let code = body(1, 0, vec![(1, Instruction::ConstLit4(0, 6)), (1, Instruction::Return(0))]);
    let mut fresh = plain();
    vm.start(1, "main", &code, vec![]).unwrap();
    fresh.start(1, "main", &code, vec![]).unwrap();
    assert_eq!(vm.get_registers().len(), fresh.get_registers().len());
    assert_eq!(vm.get_current_state().pc, fresh.get_current_state().pc);
    assert!(matches!(vm.get_return_object(), Some(Value::Int(6))));
}

/// `main` calls method 1, which doubles its argument, and keeps a register of
/// its own meanwhile.
fn calling(call: Instruction, callee: Option<Arc<CodeItem>>) -> (VM, Arc<CodeItem>) {
    let main = body(
        2,
        0,
        vec![
            (1, Instruction::ConstLit4(0, 5)),
            (1, Instruction::ConstLit4(1, 3)),
            (3, call),
            (1, Instruction::MoveResult(1)),
            (1, Instruction::AddInt(0, 1)),
            (1, Instruction::Return(0)),
        ],
    );
    let file = dex(
        "main",
        "LMain;",
        vec![listed(0, 0, "run"), listed(1, 0, "twice")],
        vec![defined(0, "run", Some(main.clone())), defined(1, "twice", callee)],
    );
    (machine(file, vec![]), main)
}

fn twice() -> Arc<CodeItem> {
    body(
        3,
        1,
        vec![
            (1, Instruction::ConstLit4(0, 2)),
            (2, Instruction::MulIntDst(1, 0, 2)),
            (1, Instruction::Return(1)),
        ],
    )
}

#[test]
fn a_call_gives_back_the_frame_with_the_result() {
    for call in vec![
        Instruction::InvokeStatic(1, 1, vec![1]),
        Instruction::InvokeVirtual(1, 1, vec![1]),
        Instruction::InvokeDirect(1, 1, vec![1]),
    ] {
        let (mut vm, main) = calling(call, Some(twice()));
        assert!(matches!(vm.start(0, "main", &main, vec![]), Ok(Progress::Finished)));
        assert!(matches!(vm.get_return_object(), Some(Value::Int(11))));
        assert!(vm.get_stack_frames().is_empty());
        assert_eq!(vm.get_current_state().current_method_index, 0);
    }
}

#[test]
fn other_kinds_of_calls_do_nothing() {
    for call in vec![
        Instruction::InvokeSuper(1, 1, vec![1]),
        Instruction::InvokeInterface(1, 1, vec![1]),
        Instruction::InvokeStaticRange(1, 1, 1),
    ] {
        let (mut vm, main) = calling(call, Some(twice()));
        vm.start(0, "main", &main, vec![]).unwrap();
        // The result of no call is taken, so the sum is of no two integers.
        assert!(vm.get_return_object().is_none());
    }
}

#[test]
fn a_call_on_an_object_fills_up_its_parameters() {
    let second = body(2, 2, vec![(1, Instruction::Return(1))]);
    let (mut vm, main) = calling(Instruction::InvokeVirtual(1, 1, vec![0]), Some(second));
    vm.start(0, "main", &main, vec![]).unwrap();
    assert!(matches!(vm.get_registers()[1], Register::Empty));
}

#[test]
fn a_static_call_announces_its_arguments() {
    let (mut vm, main) = calling(Instruction::InvokeStatic(2, 1, vec![0, 1]), Some(twice()));
    assert!(matches!(vm.start(0, "main", &main, vec![]), Err(VMException::WrongNumberOfArguments)));
    assert_eq!(vm.get_stack_frames().len(), 1);
}

#[test]
fn a_method_without_a_body_cannot_be_called() {
    let (mut vm, main) = calling(Instruction::InvokeStatic(1, 1, vec![1]), None);
    match vm.start(0, "main", &main, vec![]) {
        Err(VMException::MethodNotFound(name)) => assert_eq!(name, "twice"),
        other => panic!("{:?}", other),
    }
}

#[test]
fn a_body_with_too_few_registers_has_no_result() {
    let odd = body(0, 1, vec![(1, Instruction::ReturnVoid)]);
    let (mut vm, main) = calling(Instruction::InvokeStatic(1, 1, vec![1]), Some(odd));
    assert!(matches!(vm.start(0, "main", &main, vec![]), Ok(Progress::Stuck)));
}

#[test]
fn a_call_with_a_missing_argument_is_refused() {
    let (mut vm, main) = calling(Instruction::InvokeStatic(1, 1, vec![8]), Some(twice()));
    assert!(matches!(vm.start(0, "main", &main, vec![]), Err(VMException::RegisterNotFound(8))));
}

#[test]
fn calls_nest_twenty_one_deep() {
    let endless = body(0, 0, vec![(3, Instruction::InvokeStatic(0, 0, vec![])), (1, Instruction::ReturnVoid)]);
    let file = dex(
        "main",
        "LMain;",
        vec![listed(0, 0, "again")],
        vec![defined(0, "again", Some(endless.clone()))],
    );
    let mut vm = machine(file, vec![]);
    assert!(matches!(vm.start(0, "main", &endless, vec![]), Err(VMException::StackOverflow)));
    assert_eq!(vm.get_stack_frames().len(), 21);
}

#[test]
fn methods_are_linked_by_name_and_prototype() {
    let answer = body(1, 0, vec![(1, Instruction::ConstLit4(0, 7)), (1, Instruction::Return(0))]);
    let mut library = (*dex("lib", "LLib;", vec![], vec![defined(9, "answer", Some(answer))])).clone();
    library.classes.insert(
        0,
        Arc::new(Class {
            class_name: "LOther;".to_string(),
            class_idx: 5,
            codes: vec![defined(4, "answer", None)],
            static_fields: vec![],
        }),
    );
    let main = body(
        1,
        0,
        vec![
            (3, Instruction::InvokeStatic(0, 0, vec![])),
            (1, Instruction::MoveResult(0)),
            (1, Instruction::Return(0)),
        ],
    );
    let file = dex("main", "LMain;", vec![listed(0, 1, "answer")], vec![]);
    let mut vm = machine(file, vec![Arc::new(library)]);
    vm.start(0, "main", &main, vec![]).unwrap();
    assert!(matches!(vm.get_return_object(), Some(Value::Int(7))));

    let (found_in, method) = vm.lookup_method("LLib;", &listed(0, 1, "answer")).unwrap();
    assert_eq!((found_in.identifier.as_str(), method.method_idx), ("lib", 9));
    assert!(matches!(vm.lookup_method("LLib;", &listed(0, 1, "other")), Err(VMException::LinkerError)));
}

fn asking(call: Instruction) -> (VM, Arc<CodeItem>) {
    let main = body(
        2,
        0,
        vec![
            (1, Instruction::ConstLit4(1, 3)),
            (3, call),
            (1, Instruction::MoveResult(0)),
            (1, Instruction::Return(0)),
        ],
    );
    let file = dex("main", "LMain;", vec![listed(0, 1, "builtin")], vec![]);
    (machine(file, vec![]), main)
}

#[test]
fn a_call_that_cannot_be_linked_is_left_to_a_builtin() {
    let (mut vm, main) = asking(Instruction::InvokeStatic(1, 0, vec![1]));
    let call = match vm.start(4, "main", &main, vec![]) {
        Ok(Progress::Runtime(call)) => call,
        other => panic!("{:?}", other),
    };
    assert_eq!((call.method_idx, call.required, call.steps), (0, false, 2));
    assert!(matches!(call.arguments[0], Register::Literal(3)));
    assert_eq!(vm.get_stack_frames().len(), 1);
    vm.current_state.return_reg = Register::Literal(8);
    assert!(matches!(vm.resume(call, Ok(())), Ok(Progress::Finished)));
    assert!(matches!(vm.get_return_object(), Some(Value::Int(8))));
    assert!(vm.get_stack_frames().is_empty());
    assert_eq!(vm.get_current_state().current_method_index, 4);
}

#[test]
fn a_static_call_survives_a_builtin_that_fails() {
    let (mut vm, main) = asking(Instruction::InvokeStatic(1, 0, vec![1]));
    if let Ok(Progress::Runtime(call)) = vm.start(0, "main", &main, vec![]) {
        assert!(matches!(vm.resume(call, Err(VMException::LinkerError)), Ok(Progress::Finished)));
        assert!(vm.get_return_object().is_none());
    } else {
        panic!("no call");
    }
}

#[test]
fn a_call_on_an_object_does_not_survive_a_builtin_that_fails() {
    let (mut vm, main) = asking(Instruction::InvokeVirtual(1, 0, vec![1]));
    if let Ok(Progress::Runtime(call)) = vm.start(0, "main", &main, vec![]) {
        assert!(call.required);
        let result = vm.resume(call, Err(VMException::InstanceNotFound(6)));
        assert!(matches!(result, Err(VMException::InstanceNotFound(6))));
        assert_eq!(vm.get_stack_frames().len(), 1);
    } else {
        panic!("no call");
    }
}

#[test]
fn the_limit_counts_across_builtins() {
    let main = body(
        0,
        0,
        vec![(3, Instruction::InvokeStatic(0, 0, vec![])), (1, Instruction::Goto8(-3))],
    );
    let file = dex("main", "LMain;", vec![listed(0, 1, "builtin")], vec![]);
    let mut vm = machine(file, vec![]);
    let mut result = vm.start(0, "main", &main, vec![]);
    let mut calls = 0;
    while let Ok(Progress::Runtime(call)) = result {
        calls += 1;
        result = vm.resume(call, Ok(()));
    }
    assert!(matches!(result, Err(VMException::StackOverflow)));
    assert_eq!(calls, 500);
}

#[test]
fn a_result_is_taken_once() {
    let (mut vm, main) = asking(Instruction::InvokeStatic(1, 0, vec![1]));
    if let Ok(Progress::Runtime(call)) = vm.start(0, "main", &main, vec![]) {
        vm.current_state.return_reg = Register::Literal(8);
        let result = body(
            2,
            0,
            vec![(1, Instruction::MoveResult(0)), (1, Instruction::MoveResultObject(1)), (1, Instruction::ReturnVoid)],
        );
        vm.current_state.current_instructions = result.clone();
        let mut cursor = Cursor { code: result, index: 0, dex: call.dex_file.clone(), method: 0, steps: 0 };
        vm.current_state.pc = InstructionOffset(0);
        let none = Choice { first: None, second: None };
        assert!(matches!(vm.step(&mut cursor, none), Ok(Turn::Running)));
        assert!(matches!(vm.get_registers()[0], Register::Literal(8)));
        assert!(matches!(vm.step(&mut cursor, none), Ok(Turn::Running)));
        assert!(matches!(vm.get_registers()[1], Register::Empty));
    } else {
        panic!("no call");
    }
}
