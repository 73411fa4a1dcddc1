//! What an instruction does, apart from how it is encoded.

use vstd::prelude::*;
use crate::instruction::{Instruction, TestFunction};

verus! {

/// An operation on two integers.
#[derive(Clone, Copy, Debug, PartialEq, Eq, Structural)]
pub enum Arithmetic {
    Xor,
    Rem,
    Add,
    Mul,
    Sub,
    And,
    Or,
}

/// The operation of an instruction. Encodings of one operation that differ in
/// the width of their operands become the same; wide (64 bit) instructions and
/// those that only carry data do nothing.
pub enum Operation<'a> {
    Nothing,
    Move { dst: usize, src: usize },
    MoveResult { dst: usize },
    Arithmetic { op: Arithmetic, dst: usize, a: usize, b: usize },
    ArithmeticLiteral { op: Arithmetic, dst: usize, a: usize, literal: i32 },
    Truncate { dst: usize, src: usize },
    Test { test: TestFunction, a: usize, b: usize, offset: i32 },
    TestZero { test: TestFunction, a: usize, offset: i32 },
    Goto { offset: i32 },
    Switch { register: usize, table: i32 },
    Literal { dst: usize, value: i32 },
    ConstString { dst: usize, string: u32 },
    ArrayLength { dst: usize, array: usize },
    ArrayGet { dst: usize, array: usize, index: usize },
    ArrayPut { src: usize, array: usize, index: usize },
    NewInstance { dst: usize, class: u16 },
    NewArray { dst: usize, size: usize, class: u16 },
    FilledNewArray { data: &'a Vec<u8> },
    FillArrayData { array: usize, table: i32 },
    Invoke { method: u16, arguments: &'a Vec<u8> },
    InvokeStatic { count: u8, method: u16, arguments: &'a Vec<u8> },
    ReturnVoid,
    Return { register: u8 },
    StaticGetObject { dst: usize, field: u16 },
    StaticPutObject { src: u8, field: u16 },
    InstanceGet { dst: usize, object: usize, field: u16 },
    InstanceGetObject { dst: usize, object: usize, field: u16 },
    InstancePut { src: usize, object: usize, field: u16 },
    InstancePutObject { src: usize, object: usize, field: u16 },
}

impl Instruction {
    /// The operation of the instruction.
    pub open spec fn operation(&self) -> Operation<'_> {
        match self {
            Instruction::Move(dst, src) => Operation::Move { dst: *dst as usize, src: *src as usize },
            Instruction::MoveFrom16(dst, src) => Operation::Move { dst: *dst as usize, src: *src as usize },
            Instruction::Move16(dst, src) => Operation::Move { dst: *dst as usize, src: *src as usize },
            Instruction::MoveObject(dst, src) => Operation::Move { dst: *dst as usize, src: *src as usize },
            Instruction::MoveObjectFrom16(dst, src) => Operation::Move { dst: *dst as usize, src: *src as usize },
            Instruction::MoveObject16(dst, src) => Operation::Move { dst: *dst as usize, src: *src as usize },
            Instruction::MoveResult(dst) => Operation::MoveResult { dst: *dst as usize },
            Instruction::MoveResultObject(dst) => Operation::MoveResult { dst: *dst as usize },
            Instruction::XorInt(a, b) => Operation::Arithmetic { op: Arithmetic::Xor, dst: *a as usize, a: *a as usize, b: *b as usize },
            Instruction::XorIntDst(dst, a, b) => Operation::Arithmetic { op: Arithmetic::Xor, dst: *dst as usize, a: *a as usize, b: *b as usize },
            Instruction::XorIntDstLit8(dst, a, literal) => Operation::ArithmeticLiteral { op: Arithmetic::Xor, dst: *dst as usize, a: *a as usize, literal: *literal as i32 },
            Instruction::XorIntDstLit16(dst, a, literal) => Operation::ArithmeticLiteral { op: Arithmetic::Xor, dst: *dst as usize, a: *a as usize, literal: *literal as i32 },
            Instruction::RemInt(a, b) => Operation::Arithmetic { op: Arithmetic::Rem, dst: *a as usize, a: *a as usize, b: *b as usize },
            Instruction::RemIntDst(dst, a, b) => Operation::Arithmetic { op: Arithmetic::Rem, dst: *dst as usize, a: *a as usize, b: *b as usize },
            Instruction::RemIntLit8(dst, a, literal) => Operation::ArithmeticLiteral { op: Arithmetic::Rem, dst: *dst as usize, a: *a as usize, literal: *literal as i32 },
            Instruction::RemIntLit16(dst, a, literal) => Operation::ArithmeticLiteral { op: Arithmetic::Rem, dst: *dst as usize, a: *a as usize, literal: *literal as i32 },
            Instruction::AddInt(a, b) => Operation::Arithmetic { op: Arithmetic::Add, dst: *a as usize, a: *a as usize, b: *b as usize },
            Instruction::AddIntDst(dst, a, b) => Operation::Arithmetic { op: Arithmetic::Add, dst: *dst as usize, a: *a as usize, b: *b as usize },
            Instruction::AddIntLit8(dst, a, literal) => Operation::ArithmeticLiteral { op: Arithmetic::Add, dst: *dst as usize, a: *a as usize, literal: *literal as i32 },
            Instruction::AddIntLit16(dst, a, literal) => Operation::ArithmeticLiteral { op: Arithmetic::Add, dst: *dst as usize, a: *a as usize, literal: *literal as i32 },
            Instruction::MulInt(a, b) => Operation::Arithmetic { op: Arithmetic::Mul, dst: *a as usize, a: *a as usize, b: *b as usize },
            Instruction::MulIntDst(dst, a, b) => Operation::Arithmetic { op: Arithmetic::Mul, dst: *dst as usize, a: *a as usize, b: *b as usize },
            Instruction::MulIntLit8(dst, a, literal) => Operation::ArithmeticLiteral { op: Arithmetic::Mul, dst: *dst as usize, a: *a as usize, literal: *literal as i32 },
            Instruction::MulIntLit16(dst, a, literal) => Operation::ArithmeticLiteral { op: Arithmetic::Mul, dst: *dst as usize, a: *a as usize, literal: *literal as i32 },
            Instruction::SubInt(a, b) => Operation::Arithmetic { op: Arithmetic::Sub, dst: *a as usize, a: *a as usize, b: *b as usize },
            Instruction::SubIntDst(dst, a, b) => Operation::Arithmetic { op: Arithmetic::Sub, dst: *dst as usize, a: *a as usize, b: *b as usize },
            Instruction::SubIntLit8(dst, a, literal) => Operation::ArithmeticLiteral { op: Arithmetic::Sub, dst: *dst as usize, a: *a as usize, literal: *literal as i32 },
            Instruction::SubIntLit16(dst, a, literal) => Operation::ArithmeticLiteral { op: Arithmetic::Sub, dst: *dst as usize, a: *a as usize, literal: *literal as i32 },
            Instruction::AndInt(a, b) => Operation::Arithmetic { op: Arithmetic::And, dst: *a as usize, a: *a as usize, b: *b as usize },
            Instruction::AndIntDst(dst, a, b) => Operation::Arithmetic { op: Arithmetic::And, dst: *dst as usize, a: *a as usize, b: *b as usize },
            Instruction::AndIntLit8(dst, a, literal) => Operation::ArithmeticLiteral { op: Arithmetic::And, dst: *dst as usize, a: *a as usize, literal: *literal as i32 },
            Instruction::AndIntLit16(dst, a, literal) => Operation::ArithmeticLiteral { op: Arithmetic::And, dst: *dst as usize, a: *a as usize, literal: *literal as i32 },
            Instruction::OrInt(a, b) => Operation::Arithmetic { op: Arithmetic::Or, dst: *a as usize, a: *a as usize, b: *b as usize },
            Instruction::OrIntDst(dst, a, b) => Operation::Arithmetic { op: Arithmetic::Or, dst: *dst as usize, a: *a as usize, b: *b as usize },
            Instruction::OrIntLit8(dst, a, literal) => Operation::ArithmeticLiteral { op: Arithmetic::Or, dst: *dst as usize, a: *a as usize, literal: *literal as i32 },
            Instruction::OrIntLit16(dst, a, literal) => Operation::ArithmeticLiteral { op: Arithmetic::Or, dst: *dst as usize, a: *a as usize, literal: *literal as i32 },
            Instruction::IntToByte(dst, src) => Operation::Truncate { dst: *dst as usize, src: *src as usize },
            Instruction::IntToChar(dst, src) => Operation::Truncate { dst: *dst as usize, src: *src as usize },
            Instruction::Test(test, a, b, offset) => Operation::Test { test: *test, a: *a as usize, b: *b as usize, offset: *offset as i32 },
            Instruction::TestZero(test, a, offset) => Operation::TestZero { test: *test, a: *a as usize, offset: *offset as i32 },
            Instruction::Goto8(offset) => Operation::Goto { offset: *offset as i32 },
            Instruction::Goto16(offset) => Operation::Goto { offset: *offset as i32 },
            Instruction::Goto32(offset) => Operation::Goto { offset: *offset },
            Instruction::Switch(register, table) => Operation::Switch { register: *register as usize, table: *table },
            Instruction::ConstLit4(dst, literal) => Operation::Literal { dst: *dst as usize, value: *literal as i32 },
            Instruction::ConstLit16(dst, literal) => Operation::Literal { dst: *dst as usize, value: *literal as i32 },
            Instruction::ConstLit32(dst, literal) => Operation::Literal { dst: *dst as usize, value: *literal },
            Instruction::ConstString(dst, string) => Operation::ConstString { dst: *dst as usize, string: *string },
            Instruction::ArrayLength(dst, array) => Operation::ArrayLength { dst: *dst as usize, array: *array as usize },
            Instruction::ArrayGetByte(dst, array, index) => Operation::ArrayGet { dst: *dst as usize, array: *array as usize, index: *index as usize },
            Instruction::ArrayGetChar(dst, array, index) => Operation::ArrayGet { dst: *dst as usize, array: *array as usize, index: *index as usize },
            Instruction::ArrayPutByte(src, array, index) => Operation::ArrayPut { src: *src as usize, array: *array as usize, index: *index as usize },
            Instruction::ArrayPutChar(src, array, index) => Operation::ArrayPut { src: *src as usize, array: *array as usize, index: *index as usize },
            Instruction::NewInstance(dst, class) => Operation::NewInstance { dst: *dst as usize, class: *class },
            Instruction::NewArray(dst, size, class) => Operation::NewArray { dst: *dst as usize, size: *size as usize, class: *class },
            Instruction::FilledNewArray(_, _, data) => Operation::FilledNewArray { data },
            Instruction::FillArrayData(array, table) => Operation::FillArrayData { array: *array as usize, table: *table },
            Instruction::InvokeVirtual(_, method, arguments) => Operation::Invoke { method: *method, arguments },
            Instruction::InvokeDirect(_, method, arguments) => Operation::Invoke { method: *method, arguments },
            Instruction::InvokeStatic(count, method, arguments) => Operation::InvokeStatic { count: *count, method: *method, arguments },
            Instruction::ReturnVoid => Operation::ReturnVoid,
            Instruction::Return(register) => Operation::Return { register: *register },
            Instruction::StaticGetObject(dst, field) => Operation::StaticGetObject { dst: *dst as usize, field: *field },
            Instruction::StaticPutObject(src, field) => Operation::StaticPutObject { src: *src, field: *field },
            Instruction::InstanceGet(dst, object, field) => Operation::InstanceGet { dst: *dst as usize, object: *object as usize, field: *field },
            Instruction::InstanceGetObject(dst, object, field) => Operation::InstanceGetObject { dst: *dst as usize, object: *object as usize, field: *field },
            Instruction::InstancePut(src, object, field) => Operation::InstancePut { src: *src as usize, object: *object as usize, field: *field },
            Instruction::InstancePutObject(src, object, field) => Operation::InstancePutObject { src: *src as usize, object: *object as usize, field: *field },
            _ => Operation::Nothing,
        }
    }

    /// Decodes the instruction.
    pub fn decode(&self) -> (operation: Operation<'_>)
        ensures
            operation == self.operation(),
    {
        match self {
            Instruction::Move(dst, src) => Operation::Move { dst: *dst as usize, src: *src as usize },
            Instruction::MoveFrom16(dst, src) => Operation::Move { dst: *dst as usize, src: *src as usize },
            Instruction::Move16(dst, src) => Operation::Move { dst: *dst as usize, src: *src as usize },
            Instruction::MoveObject(dst, src) => Operation::Move { dst: *dst as usize, src: *src as usize },
            Instruction::MoveObjectFrom16(dst, src) => Operation::Move { dst: *dst as usize, src: *src as usize },
            Instruction::MoveObject16(dst, src) => Operation::Move { dst: *dst as usize, src: *src as usize },
            Instruction::MoveResult(dst) => Operation::MoveResult { dst: *dst as usize },
            Instruction::MoveResultObject(dst) => Operation::MoveResult { dst: *dst as usize },
            Instruction::XorInt(a, b) => Operation::Arithmetic { op: Arithmetic::Xor, dst: *a as usize, a: *a as usize, b: *b as usize },
            Instruction::XorIntDst(dst, a, b) => Operation::Arithmetic { op: Arithmetic::Xor, dst: *dst as usize, a: *a as usize, b: *b as usize },
            Instruction::XorIntDstLit8(dst, a, literal) => Operation::ArithmeticLiteral { op: Arithmetic::Xor, dst: *dst as usize, a: *a as usize, literal: *literal as i32 },
            Instruction::XorIntDstLit16(dst, a, literal) => Operation::ArithmeticLiteral { op: Arithmetic::Xor, dst: *dst as usize, a: *a as usize, literal: *literal as i32 },
            Instruction::RemInt(a, b) => Operation::Arithmetic { op: Arithmetic::Rem, dst: *a as usize, a: *a as usize, b: *b as usize },
            Instruction::RemIntDst(dst, a, b) => Operation::Arithmetic { op: Arithmetic::Rem, dst: *dst as usize, a: *a as usize, b: *b as usize },
            Instruction::RemIntLit8(dst, a, literal) => Operation::ArithmeticLiteral { op: Arithmetic::Rem, dst: *dst as usize, a: *a as usize, literal: *literal as i32 },
            Instruction::RemIntLit16(dst, a, literal) => Operation::ArithmeticLiteral { op: Arithmetic::Rem, dst: *dst as usize, a: *a as usize, literal: *literal as i32 },
            Instruction::AddInt(a, b) => Operation::Arithmetic { op: Arithmetic::Add, dst: *a as usize, a: *a as usize, b: *b as usize },
            Instruction::AddIntDst(dst, a, b) => Operation::Arithmetic { op: Arithmetic::Add, dst: *dst as usize, a: *a as usize, b: *b as usize },
            Instruction::AddIntLit8(dst, a, literal) => Operation::ArithmeticLiteral { op: Arithmetic::Add, dst: *dst as usize, a: *a as usize, literal: *literal as i32 },
            Instruction::AddIntLit16(dst, a, literal) => Operation::ArithmeticLiteral { op: Arithmetic::Add, dst: *dst as usize, a: *a as usize, literal: *literal as i32 },
            Instruction::MulInt(a, b) => Operation::Arithmetic { op: Arithmetic::Mul, dst: *a as usize, a: *a as usize, b: *b as usize },
            Instruction::MulIntDst(dst, a, b) => Operation::Arithmetic { op: Arithmetic::Mul, dst: *dst as usize, a: *a as usize, b: *b as usize },
            Instruction::MulIntLit8(dst, a, literal) => Operation::ArithmeticLiteral { op: Arithmetic::Mul, dst: *dst as usize, a: *a as usize, literal: *literal as i32 },
            Instruction::MulIntLit16(dst, a, literal) => Operation::ArithmeticLiteral { op: Arithmetic::Mul, dst: *dst as usize, a: *a as usize, literal: *literal as i32 },
            Instruction::SubInt(a, b) => Operation::Arithmetic { op: Arithmetic::Sub, dst: *a as usize, a: *a as usize, b: *b as usize },
            Instruction::SubIntDst(dst, a, b) => Operation::Arithmetic { op: Arithmetic::Sub, dst: *dst as usize, a: *a as usize, b: *b as usize },
            Instruction::SubIntLit8(dst, a, literal) => Operation::ArithmeticLiteral { op: Arithmetic::Sub, dst: *dst as usize, a: *a as usize, literal: *literal as i32 },
            Instruction::SubIntLit16(dst, a, literal) => Operation::ArithmeticLiteral { op: Arithmetic::Sub, dst: *dst as usize, a: *a as usize, literal: *literal as i32 },
            Instruction::AndInt(a, b) => Operation::Arithmetic { op: Arithmetic::And, dst: *a as usize, a: *a as usize, b: *b as usize },
            Instruction::AndIntDst(dst, a, b) => Operation::Arithmetic { op: Arithmetic::And, dst: *dst as usize, a: *a as usize, b: *b as usize },
            Instruction::AndIntLit8(dst, a, literal) => Operation::ArithmeticLiteral { op: Arithmetic::And, dst: *dst as usize, a: *a as usize, literal: *literal as i32 },
            Instruction::AndIntLit16(dst, a, literal) => Operation::ArithmeticLiteral { op: Arithmetic::And, dst: *dst as usize, a: *a as usize, literal: *literal as i32 },
            Instruction::OrInt(a, b) => Operation::Arithmetic { op: Arithmetic::Or, dst: *a as usize, a: *a as usize, b: *b as usize },
            Instruction::OrIntDst(dst, a, b) => Operation::Arithmetic { op: Arithmetic::Or, dst: *dst as usize, a: *a as usize, b: *b as usize },
            Instruction::OrIntLit8(dst, a, literal) => Operation::ArithmeticLiteral { op: Arithmetic::Or, dst: *dst as usize, a: *a as usize, literal: *literal as i32 },
            Instruction::OrIntLit16(dst, a, literal) => Operation::ArithmeticLiteral { op: Arithmetic::Or, dst: *dst as usize, a: *a as usize, literal: *literal as i32 },
            Instruction::IntToByte(dst, src) => Operation::Truncate { dst: *dst as usize, src: *src as usize },
            Instruction::IntToChar(dst, src) => Operation::Truncate { dst: *dst as usize, src: *src as usize },
            Instruction::Test(test, a, b, offset) => Operation::Test { test: *test, a: *a as usize, b: *b as usize, offset: *offset as i32 },
            Instruction::TestZero(test, a, offset) => Operation::TestZero { test: *test, a: *a as usize, offset: *offset as i32 },
            Instruction::Goto8(offset) => Operation::Goto { offset: *offset as i32 },
            Instruction::Goto16(offset) => Operation::Goto { offset: *offset as i32 },
            Instruction::Goto32(offset) => Operation::Goto { offset: *offset },
            Instruction::Switch(register, table) => Operation::Switch { register: *register as usize, table: *table },
            Instruction::ConstLit4(dst, literal) => Operation::Literal { dst: *dst as usize, value: *literal as i32 },
            Instruction::ConstLit16(dst, literal) => Operation::Literal { dst: *dst as usize, value: *literal as i32 },
            Instruction::ConstLit32(dst, literal) => Operation::Literal { dst: *dst as usize, value: *literal },
            Instruction::ConstString(dst, string) => Operation::ConstString { dst: *dst as usize, string: *string },
            Instruction::ArrayLength(dst, array) => Operation::ArrayLength { dst: *dst as usize, array: *array as usize },
            Instruction::ArrayGetByte(dst, array, index) => Operation::ArrayGet { dst: *dst as usize, array: *array as usize, index: *index as usize },
            Instruction::ArrayGetChar(dst, array, index) => Operation::ArrayGet { dst: *dst as usize, array: *array as usize, index: *index as usize },
            Instruction::ArrayPutByte(src, array, index) => Operation::ArrayPut { src: *src as usize, array: *array as usize, index: *index as usize },
            Instruction::ArrayPutChar(src, array, index) => Operation::ArrayPut { src: *src as usize, array: *array as usize, index: *index as usize },
            Instruction::NewInstance(dst, class) => Operation::NewInstance { dst: *dst as usize, class: *class },
            Instruction::NewArray(dst, size, class) => Operation::NewArray { dst: *dst as usize, size: *size as usize, class: *class },
            Instruction::FilledNewArray(_, _, data) => Operation::FilledNewArray { data },
            Instruction::FillArrayData(array, table) => Operation::FillArrayData { array: *array as usize, table: *table },
            Instruction::InvokeVirtual(_, method, arguments) => Operation::Invoke { method: *method, arguments },
            Instruction::InvokeDirect(_, method, arguments) => Operation::Invoke { method: *method, arguments },
            Instruction::InvokeStatic(count, method, arguments) => Operation::InvokeStatic { count: *count, method: *method, arguments },
            Instruction::ReturnVoid => Operation::ReturnVoid,
            Instruction::Return(register) => Operation::Return { register: *register },
            Instruction::StaticGetObject(dst, field) => Operation::StaticGetObject { dst: *dst as usize, field: *field },
            Instruction::StaticPutObject(src, field) => Operation::StaticPutObject { src: *src, field: *field },
            Instruction::InstanceGet(dst, object, field) => Operation::InstanceGet { dst: *dst as usize, object: *object as usize, field: *field },
            Instruction::InstanceGetObject(dst, object, field) => Operation::InstanceGetObject { dst: *dst as usize, object: *object as usize, field: *field },
            Instruction::InstancePut(src, object, field) => Operation::InstancePut { src: *src as usize, object: *object as usize, field: *field },
            Instruction::InstancePutObject(src, object, field) => Operation::InstancePutObject { src: *src as usize, object: *object as usize, field: *field },
            _ => Operation::Nothing,
        }
    }
}

} // verus!
