//! Dalvik instructions and where they stand in a method.

use vstd::prelude::*;
use std::collections::HashMap;
use crate::search;

verus! {

/// An address within a method, in 16 bit code units.
#[derive(Clone, Copy, Debug, PartialEq, Eq, Structural)]
pub struct InstructionOffset(pub u32);

impl InstructionOffset {
    /// The address `delta` code units further on, modulo 2^32.
    pub fn offset_by(self, delta: i32) -> (target: InstructionOffset)
        ensures
            target == InstructionOffset(self.0.wrapping_add_signed(delta)),
    {
        InstructionOffset(self.0.wrapping_add_signed(delta))
    }

    /// The address `units` code units further on, modulo 2^32.
    pub fn skip(self, units: u32) -> (target: InstructionOffset)
        ensures
            target == InstructionOffset(self.0.wrapping_add(units)),
    {
        InstructionOffset(self.0.wrapping_add(units))
    }
}

/// The length of an instruction, in bytes or in code units.
#[derive(Clone, Copy, Debug, PartialEq, Eq, Structural)]
pub struct InstructionSize(pub u32);

/// The comparison that a conditional branch makes.
#[derive(Clone, Copy, Debug, PartialEq, Eq, Structural)]
pub enum TestFunction {
    Equal,
    NotEqual,
    LessThan,
    LessEqual,
    GreaterThan,
    GreaterEqual,
}

/// The table of a switch: how far to branch for each value that has a case.
#[derive(Clone, Debug)]
pub struct Switch {
    pub targets: HashMap<i32, i32>,
}

/// A decoded instruction. Register operands come first, in the order in which
/// Dalvik assembly lists them.
#[derive(Clone, Debug)]
pub enum Instruction {
    // Moving registers.
    Nop,
    Move(u8, u8),
    MoveFrom16(u8, u16),
    Move16(u16, u16),
    MoveWide(u8, u8),
    MoveWideFrom16(u8, u16),
    MoveWide16(u16, u16),
    MoveObject(u8, u8),
    MoveObjectFrom16(u8, u16),
    MoveObject16(u16, u16),
    MoveResult(u8),
    MoveResultWide(u8),
    MoveResultObject(u8),
    // Arithmetic.
    XorInt(u8, u8),
    XorLong(u8, u8),
    XorIntDst(u8, u8, u8),
    XorLongDst(u8, u8, u8),
    XorIntDstLit8(u8, u8, i8),
    XorIntDstLit16(u8, u8, i16),
    RemInt(u8, u8),
    RemLong(u8, u8),
    RemIntDst(u8, u8, u8),
    RemLongDst(u8, u8, u8),
    RemIntLit8(u8, u8, i8),
    RemIntLit16(u8, u8, i16),
    AddInt(u8, u8),
    AddLong(u8, u8),
    AddIntDst(u8, u8, u8),
    AddLongDst(u8, u8, u8),
    AddIntLit8(u8, u8, i8),
    AddIntLit16(u8, u8, i16),
    MulInt(u8, u8),
    MulLong(u8, u8),
    MulIntDst(u8, u8, u8),
    MulLongDst(u8, u8, u8),
    MulIntLit8(u8, u8, i8),
    MulIntLit16(u8, u8, i16),
    SubInt(u8, u8),
    SubLong(u8, u8),
    SubIntDst(u8, u8, u8),
    SubLongDst(u8, u8, u8),
    SubIntLit8(u8, u8, i8),
    SubIntLit16(u8, u8, i16),
    AndInt(u8, u8),
    AndLong(u8, u8),
    AndIntDst(u8, u8, u8),
    AndLongDst(u8, u8, u8),
    AndIntLit8(u8, u8, i8),
    AndIntLit16(u8, u8, i16),
    OrInt(u8, u8),
    OrLong(u8, u8),
    OrIntDst(u8, u8, u8),
    OrLongDst(u8, u8, u8),
    OrIntLit8(u8, u8, i8),
    OrIntLit16(u8, u8, i16),
    IntToByte(u8, u8),
    IntToChar(u8, u8),
    // Branching.
    Test(TestFunction, u8, u8, i16),
    TestZero(TestFunction, u8, i16),
    Goto8(i8),
    Goto16(i16),
    Goto32(i32),
    Switch(u8, i32),
    SwitchData(Switch),
    Throw(u8),
    // Constants.
    Const,
    ConstLit4(u8, u8),
    ConstLit16(u8, i16),
    ConstLit32(u8, i32),
    ConstWide,
    ConstString(u8, u32),
    ConstStringJumbo(u8, u32),
    ConstClass(u8, u16),
    // Arrays and objects.
    ArrayLength(u8, u8),
    ArrayGetByte(u8, u8, u8),
    ArrayGetChar(u8, u8, u8),
    ArrayPutByte(u8, u8, u8),
    ArrayPutChar(u8, u8, u8),
    NewInstance(u8, u16),
    NewInstanceType(String),
    NewArray(u8, u8, u16),
    FilledNewArray(u8, u16, Vec<u8>),
    FilledNewArrayRange(u8, u16, u16),
    FillArrayData(u8, i32),
    ArrayData(u16, Vec<u8>),
    // Calls.
    Invoke(String),
    InvokeType(String),
    InvokeVirtual(u8, u16, Vec<u8>),
    InvokeSuper(u8, u16, Vec<u8>),
    InvokeDirect(u8, u16, Vec<u8>),
    InvokeStatic(u8, u16, Vec<u8>),
    InvokeInterface(u8, u16, Vec<u8>),
    InvokeVirtualRange(u8, u16, u16),
    InvokeSuperRange(u8, u16, u16),
    InvokeDirectRange(u8, u16, u16),
    InvokeStaticRange(u8, u16, u16),
    InvokeInterfaceRange(u8, u16, u16),
    ReturnVoid,
    Return(u8),
    // Static fields.
    StaticGet(u8, u16),
    StaticGetWide(u8, u16),
    StaticGetObject(u8, u16),
    StaticGetBoolean(u8, u16),
    StaticGetByte(u8, u16),
    StaticGetChar(u8, u16),
    StaticGetShort(u8, u16),
    StaticPut(u8, u16),
    StaticPutWide(u8, u16),
    StaticPutObject(u8, u16),
    StaticPutBoolean(u8, u16),
    StaticPutByte(u8, u16),
    StaticPutChar(u8, u16),
    StaticPutShort(u8, u16),
    // Instance fields.
    InstanceGet(u8, u8, u16),
    InstanceGetWide(u8, u8, u16),
    InstanceGetObject(u8, u8, u16),
    InstanceGetBoolean(u8, u8, u16),
    InstanceGetByte(u8, u8, u16),
    InstanceGetChar(u8, u8, u16),
    InstanceGetShort(u8, u8, u16),
    InstancePut(u8, u8, u16),
    InstancePutWide(u8, u8, u16),
    InstancePutObject(u8, u8, u16),
    InstancePutBoolean(u8, u8, u16),
    InstancePutByte(u8, u8, u16),
    InstancePutChar(u8, u8, u16),
    InstancePutShort(u8, u8, u16),
    // Opcodes that are not decoded further.
    NotImpl(u8, Vec<u8>),
}

/// The body of a method.
#[derive(Clone, Debug)]
pub struct CodeItem {
    /// How many registers the method uses, parameters included.
    pub register_size: u16,
    /// How many registers its parameters take: the last ones.
    pub ins_size: u16,
    /// Its instructions: the size in bytes, the address, the instruction.
    pub insns: Vec<(InstructionSize, InstructionOffset, Instruction)>,
}

/// Holds of the instructions at `address`.
pub open spec fn placed_at(address: u32) -> spec_fn((InstructionSize, InstructionOffset, Instruction)) -> bool {
    |entry: (InstructionSize, InstructionOffset, Instruction)| entry.1.0 == address
}

impl CodeItem {
    /// Which entry of `insns` stands at `address`. Of several, the last counts.
    pub open spec fn index_at(self, address: u32) -> Option<int> {
        search::last_index(self.insns@, placed_at(address))
    }

    /// Finds the instruction at `address`.
    pub fn position(&self, address: InstructionOffset) -> (found: Option<usize>)
        ensures
            match found {
                Some(i) => i < self.insns@.len() && self.index_at(address.0) == Some(i as int),
                None => self.index_at(address.0) is None,
            },
    {
        let mut i: usize = self.insns.len();
        while i > 0
            invariant
                i <= self.insns@.len(),
                forall|j: int| i <= j < self.insns@.len() ==> (#[trigger] self.insns@[j]).1.0 != address.0,
            decreases i,
        {
            i = i - 1;
            if self.insns[i].1.0 == address.0 {
                proof {
                    search::lemma_last(self.insns@, placed_at(address.0), i as int);
                }
                return Some(i);
            }
        }
        None
    }
}

} // verus!
