//! Running code.

use vstd::prelude::*;
use std::sync::Arc;
use crate::instruction::{CodeItem, InstructionOffset, InstructionSize};
use crate::models::DexFile;
use crate::search;
use crate::text::same_text;
use crate::vm::calls::static_registers;
use crate::vm::control;
use crate::vm::control::{Cursor, RuntimeCall, Turn};
use crate::vm::effects;
use crate::vm::effects::Motion;
use crate::vm::exception;
use crate::vm::exception::{ExecutionState, VMException};
use crate::vm::laws;
use crate::vm::linking::name_of_field;
use crate::vm::machine;
use crate::vm::operation::Operation;
use crate::vm::register;
use crate::vm::register::Register;
use crate::vm::semantics;
use crate::vm::semantics::{Choice, Status, MAX_SIZE, MAX_STEPS};
use crate::vm::state::{VMView, VM};
use crate::vm::value::Value;

verus! {

/// How a run ended that no exception ended.
#[derive(Debug)]
pub enum Progress {
    /// The method returned.
    Finished,
    /// A builtin has to answer a call before the run can go on.
    Runtime(RuntimeCall),
    /// The code asked for something that has no defined result. Nothing is said
    /// of the machine then.
    Stuck,
}

/// How far the run has come when it hands the machine back.
pub open spec fn report(vm: VMView, result: Result<Progress, VMException>) -> Status {
    match result {
        Ok(Progress::Finished) => Status::Done(vm, Ok(())),
        Ok(Progress::Runtime(call)) => Status::Call(vm, call@),
        Ok(Progress::Stuck) => Status::Stuck,
        Err(exception) => Status::Done(vm, Err(exception@)),
    }
}

/// The contract of a run: for some addresses, or failures, that allocation gives
/// on answers of the machine's generator, it ends as stated, within the number of
/// instructions that a run may execute.
pub open spec fn ran(start: Status, vm: VMView, result: Result<Progress, VMException>) -> bool {
    exists|choices: Seq<Choice>|
        semantics::are_drawn(start, choices) && choices.len() <= MAX_STEPS + 1 && report(vm, result) == #[trigger] semantics::run(
            start,
            choices,
        )
}

impl VM {
    /// Whether an integer is about to be stored in a field that was never set.
    fn needs_cell(&self, dex: &DexFile, src: usize, object: usize, field: u16) -> (yes: bool)
        ensures
            yes == semantics::needs_cell(self@, *dex, src, object, field),
    {
        match (name_of_field(dex, field), self.register(src), self.register(object)) {
            (Ok(name), Some(Register::Literal(_)), Some(Register::Reference(_, owner))) => match self.value(*owner) {
                Some(Value::Object(instance)) => !instance.instances.contains_key(name.as_str()),
                _ => false,
            },
            _ => false,
        }
    }

    /// Allocates where an address is needed, and only there.
    pub(crate) fn draw_if(&self, needed: bool) -> (choice: Choice)
        ensures
            semantics::is_allowed(self@, choice),
            machine::drawn(self@, needed, choice.first),
            choice.second is None,
    {
        Choice {
            first: if needed {
                self.malloc()
            } else {
                None
            },
            second: None,
        }
    }

    /// Allocates what the current instruction needs: an address for each object
    /// that it makes, and nothing else.
    fn draw(&self, cursor: &Cursor) -> (choice: Choice)
        requires
            cursor.valid(),
        ensures
            semantics::is_allowed(self@, choice),
            machine::drawn(
                self@,
                semantics::needs_first(self@, *cursor.dex, cursor.code.insns@[cursor.index as int].2.operation()),
                choice.first,
            ),
            machine::drawn(
                self@,
                semantics::needs_second(
                    self@,
                    *cursor.dex,
                    cursor.code.insns@[cursor.index as int].2.operation(),
                    choice.first,
                ),
                choice.second,
            ),
    {
        match cursor.code.insns[cursor.index].2.decode() {
            Operation::ConstString { string, .. } => self.draw_if(
                self.current_state.current_dex_file.get_string(string as usize).is_some(),
            ),
            Operation::NewInstance { class, .. } => self.draw_if(self.get_class(&cursor.dex, class as u32).is_ok()),
            Operation::NewArray { size, .. } => self.draw_if(
                match self.register(size) {
                    Some(Register::Literal(n)) => *n >= 0 && *n as usize <= MAX_SIZE,
                    _ => false,
                },
            ),
            Operation::FilledNewArray { .. } => self.draw_if(true),
            Operation::InstancePut { src, object, field } => self.draw_if(
                self.needs_cell(&cursor.dex, src, object, field),
            ),
            Operation::StaticGetObject { field, .. } => self.draw_for_static(&cursor.dex, field),
            _ => Choice { first: None, second: None },
        }
    }

    /// Executes an operation that goes on with the instruction behind it.
    fn apply(&mut self, code: &CodeItem, dex: &DexFile, operation: &Operation<'_>, choice: Choice) -> (result: Result<Motion, VMException>)
        ensures
            effects::motion(final(self)@, result) == semantics::applied(old(self)@, *code, *dex, *operation, choice),
    {
        proof {
            reveal(semantics::applied);
        }
        match operation {
            Operation::Move { dst, src } => effects::moved(self.move_register(*dst, *src)),
            Operation::MoveResult { dst } => effects::moved(self.move_result(*dst)),
            Operation::Arithmetic { op, dst, a, b } => self.binary_op(*op, *dst, *a, *b),
            Operation::ArithmeticLiteral { op, dst, a, literal } => self.binary_op_lit(*op, *dst, *a, *literal),
            Operation::Truncate { dst, src } => effects::moved(self.truncate_register(*dst, *src)),
            Operation::Literal { dst, value } => effects::moved(self.update_register(*dst, Register::Literal(*value))),
            Operation::ConstString { dst, string } => effects::moved(self.const_string(*dst, *string, choice.first)),
            Operation::ArrayLength { dst, array } => effects::moved(self.array_length(*dst, *array)),
            Operation::ArrayGet { dst, array, index } => effects::moved(self.array_get(*dst, *array, *index)),
            Operation::ArrayPut { src, array, index } => effects::moved(self.array_put(*src, *array, *index)),
            Operation::NewInstance { dst, class } => self.new_object(dex, *dst, *class, choice.first),
            Operation::NewArray { dst, size, class } => effects::moved(self.new_array(*dst, *size, *class, choice.first)),
            Operation::FilledNewArray { data } => effects::moved(self.filled_new_array(data, choice.first)),
            Operation::FillArrayData { array, table } => effects::moved(self.fill_array(code, *array, *table)),
            Operation::StaticPutObject { src, field } => self.static_put(dex, *src, *field),
            Operation::InstanceGet { dst, object, field } => effects::moved(self.instance_get(dex, *dst, *object, *field)),
            Operation::InstanceGetObject { dst, object, field } => effects::moved(
                self.instance_get_object(dex, *dst, *object, *field),
            ),
            Operation::InstancePut { src, object, field } => effects::moved(
                self.instance_put(dex, *src, *object, *field, choice.first),
            ),
            Operation::InstancePutObject { src, object, field } => effects::moved(
                self.instance_put_object(dex, *src, *object, *field),
            ),
            _ => Ok(Motion::Next),
        }
    }

    /// Executes the current instruction, with the heap addresses that allocation
    /// gave.
    pub fn step(&mut self, cursor: &mut Cursor, choice: Choice) -> (turn: Result<Turn, VMException>)
        requires
            old(cursor).valid(),
        ensures
            control::turned(
                final(self)@,
                *final(cursor),
                turn,
                semantics::step(control::machine_view(old(self)@, *old(cursor)), choice),
            ),
    {
        proof {
            reveal(semantics::perform);
        }
        if cursor.steps >= MAX_STEPS {
            return Err(VMException::StackOverflow);
        }
        cursor.steps = cursor.steps + 1;
        let code = cursor.code.clone();
        let dex = cursor.dex.clone();
        let entry = &code.insns[cursor.index];
        self.current_state.current_instruction_size = InstructionSize(entry.0.0 / 2);
        assert(control::machine_view(self@, *cursor) =~= semantics::begun(control::machine_view(old(self)@, *old(cursor))));
        let operation = entry.2.decode();
        match &operation {
            Operation::Test { test, a, b, offset } => self.test(cursor, *test, *a, *b, *offset),
            Operation::TestZero { test, a, offset } => self.test_zero(cursor, *test, *a, *offset),
            Operation::Goto { offset } => self.branch(cursor, *offset),
            Operation::Switch { register, table } => self.switch(cursor, *register, *table),
            Operation::Invoke { method, arguments } => self.invoke(cursor, *method, None, arguments),
            Operation::InvokeStatic { count, method, arguments } => self.invoke(cursor, *method, Some(*count), arguments),
            Operation::ReturnVoid => self.return_void(cursor),
            Operation::Return { register } => self.return_value(cursor, *register),
            Operation::StaticGetObject { dst, field } => self.static_get(cursor, *dst, *field, choice),
            _ => {
                let result = self.apply(&code, &dex, &operation, choice);
                self.proceed(cursor, result)
            },
        }
    }

    /// Executes instructions until the run ends.
    fn drive(&mut self, origin: Cursor) -> (result: Result<Progress, VMException>)
        requires
            origin.valid(),
        ensures
            ran(Status::Running(control::machine_view(old(self)@, origin)), final(self)@, result),
    {
        let mut cursor = origin;
        let ghost start = Status::Running(control::machine_view(self@, cursor));
        let ghost mut choices: Seq<Choice> = Seq::empty();
        loop
            invariant
                cursor.valid(),
                choices.len() == cursor.steps - origin.steps,
                choices.len() > 0 ==> cursor.steps <= MAX_STEPS,
                start == Status::Running(control::machine_view(old(self)@, origin)),
                semantics::are_drawn(start, choices),
                semantics::run(start, choices) == Status::Running(control::machine_view(self@, cursor)),
            decreases (if cursor.steps <= MAX_STEPS { MAX_STEPS - cursor.steps } else { 0 }),
        {
            let ghost before = control::machine_view(self@, cursor);
            let ghost made = choices;
            let choice = if cursor.steps < MAX_STEPS {
                self.draw(&cursor)
            } else {
                Choice { first: None, second: None }
            };
            assert(semantics::is_drawn(before, choice));
            let turn = self.step(&mut cursor, choice);
            proof {
                choices = choices.push(choice);
                assert(choices.drop_last() =~= made);
                assert(semantics::are_drawn(start, choices));
                assert(semantics::run(start, choices) == semantics::step(before, choice));
                laws::law_step_keeps(before, choice);
            }
            match turn {
                Ok(Turn::Running) => {},
                Ok(Turn::Finished) => {
                    assert(report(self@, Ok(Progress::Finished)) == semantics::run(start, choices));
                    return Ok(Progress::Finished);
                },
                Ok(Turn::Stuck) => {
                    assert(report(self@, Ok(Progress::Stuck)) == semantics::run(start, choices));
                    return Ok(Progress::Stuck);
                },
                Ok(Turn::Call(call)) => {
                    assert(report(self@, Ok(Progress::Runtime(call))) == semantics::run(start, choices));
                    return Ok(Progress::Runtime(call));
                },
                Err(exception) => {
                    assert(report(self@, Err(exception)) == semantics::run(start, choices));
                    return Err(exception);
                },
            }
        }
    }

    /// Runs on at an address of the running method.
    pub fn execute(&mut self, start_address: InstructionOffset) -> (result: Result<Progress, VMException>)
        ensures
            ran(semantics::begin(old(self)@, start_address.0), final(self)@, result),
    {
        let code = self.current_state.current_instructions.clone();
        match code.position(start_address) {
            Some(index) => {
                self.current_state.vm_state = ExecutionState::Running;
                self.current_state.last_instruction_size = InstructionSize(0);
                let cursor = Cursor {
                    code,
                    index,
                    dex: self.current_state.current_dex_file.clone(),
                    method: self.current_state.current_method_index,
                    steps: 0,
                };
                assert(Status::Running(control::machine_view(self@, cursor)) == semantics::begin(old(self)@, start_address.0));
                self.drive(cursor)
            },
            None => {
                let exception = VMException::NoInstructionAtAddress(
                    self.current_state.current_method_index,
                    start_address.0 as usize,
                );
                proof {
                    lemma_ended(semantics::begin(old(self)@, start_address.0), self@, Err(exception));
                }
                Err(exception)
            },
        }
    }

    /// Finds the dex file with an identifier.
    fn find_file(&self, identifier: &str) -> (file: Option<Arc<DexFile>>)
        ensures
            file == semantics::find_file(self@, identifier@),
    {
        if same_text(self.dex_file.identifier.as_str(), identifier) {
            return Some(self.dex_file.clone());
        }
        let mut i: usize = 0;
        while i < self.runtime.len()
            invariant
                i <= self.runtime@.len(),
                self.dex_file.identifier@ != identifier@,
                forall|j: int| 0 <= j < i ==> (#[trigger] self.runtime@[j]).identifier@ != identifier@,
            decreases self.runtime@.len() - i,
        {
            if same_text(self.runtime[i].identifier.as_str(), identifier) {
                proof {
                    search::lemma_first(self.runtime@, semantics::identified(identifier@), i as int);
                }
                return Some(self.runtime[i].clone());
            }
            i = i + 1;
        }
        None
    }

    /// Runs a method of the dex file with the identifier `dex_file` from its
    /// first instruction. The arguments fill its last registers.
    pub fn start(&mut self, method_idx: u32, dex_file: &str, code_item: &Arc<CodeItem>, arguments: Vec<Register>) -> (result: Result<Progress, VMException>)
        requires
            semantics::find_file(old(self)@, dex_file@) is Some && arguments@.len() == code_item.ins_size
                ==> code_item.ins_size <= code_item.register_size,
        ensures
            ran(
                semantics::opening(
                    old(self)@,
                    method_idx,
                    dex_file@,
                    *code_item,
                    register::register_views(arguments@),
                ),
                final(self)@,
                result,
            ),
    {
        let ghost expected = semantics::opening(
            self@,
            method_idx,
            dex_file@,
            *code_item,
            register::register_views(arguments@),
        );
        self.current_state.pc = InstructionOffset(0);
        self.current_state.return_reg = Register::Empty;
        self.current_state.current_stackframe = Vec::new();
        self.current_state.num_params = code_item.ins_size as usize;
        self.current_state.num_registers = code_item.register_size as usize;
        self.current_state.current_method_index = method_idx;
        self.stack_frames.clear();
        assert(self@ =~= semantics::cleared(old(self)@, method_idx, **code_item));
        match self.find_file(dex_file) {
            Some(file) => {
                self.current_state.current_dex_file = file;
            },
            None => {
                proof {
                    lemma_ended(expected, self@, Err(VMException::LinkerError));
                }
                return Err(VMException::LinkerError);
            },
        }
        if arguments.len() != self.current_state.num_params {
            proof {
                lemma_ended(expected, self@, Err(VMException::WrongNumberOfArguments));
            }
            return Err(VMException::WrongNumberOfArguments);
        }
        self.current_state.current_stackframe = static_registers(code_item, arguments);
        self.current_state.current_instructions = code_item.clone();
        assert(expected == semantics::begin(self@, 0));
        self.execute(InstructionOffset(0))
    }

    /// Runs on at an address of the running method, passing over the next stop.
    pub fn continue_execution(&mut self, start_address: InstructionOffset) -> (result: Result<Progress, VMException>)
        ensures
            ran(semantics::continuing(old(self)@, start_address.0), final(self)@, result),
    {
        self.skip_next_breakpoint = true;
        self.execute(start_address)
    }

    /// Runs on after a builtin has answered a call.
    pub fn resume(&mut self, call: RuntimeCall, answer: Result<(), VMException>) -> (result: Result<Progress, VMException>)
        ensures
            ran(semantics::answered(old(self)@, call@, exception::outcome(answer)), final(self)@, result),
    {
        let ghost expected = semantics::answered(self@, call@, exception::outcome(answer));
        if let Err(exception) = answer {
            if call.required {
                proof {
                    lemma_ended(expected, self@, Err(exception));
                }
                return Err(exception);
            }
        }
        let mut method: u32 = call.method_idx;
        if let Some(frame) = self.stack_frames.pop() {
            method = frame.current_method_index;
            self.current_state.current_method_index = method;
            assert(self@.frames =~= old(self)@.frames.drop_last());
        } else {
            assert(self@.frames =~= old(self)@.frames);
        }
        let mut cursor = Cursor { code: call.code, index: 0, dex: call.dex_file, method, steps: call.steps };
        let turn = self.settle(&mut cursor, call.size.0);
        assert(control::status(self@, cursor, turn) == expected);
        match turn {
            Ok(Turn::Running) => self.drive(cursor),
            Ok(Turn::Finished) => {
                proof {
                    lemma_ended(expected, self@, Ok(Progress::Finished));
                }
                Ok(Progress::Finished)
            },
            Ok(Turn::Stuck) => {
                proof {
                    lemma_ended(expected, self@, Ok(Progress::Stuck));
                }
                Ok(Progress::Stuck)
            },
            Ok(Turn::Call(next)) => {
                proof {
                    lemma_ended(expected, self@, Ok(Progress::Runtime(next)));
                }
                Ok(Progress::Runtime(next))
            },
            Err(exception) => {
                proof {
                    lemma_ended(expected, self@, Err(exception));
                }
                Err(exception)
            },
        }
    }
}

/// A run that has ended before its first instruction.
proof fn lemma_ended(start: Status, vm: VMView, result: Result<Progress, VMException>)
    requires
        report(vm, result) == start,
    ensures
        ran(start, vm, result),
{
    let choices: Seq<Choice> = Seq::empty();
    assert(semantics::are_drawn(start, choices));
    assert(semantics::run(start, choices) == start);
}

} // verus!
