//! The operations that go on with the instruction behind them.

use vstd::prelude::*;
use crate::instruction::{CodeItem, Instruction};
use crate::vm::exception::VMException;
use crate::vm::machine;
use crate::vm::operation::Arithmetic;
use crate::vm::register::Register;
use crate::vm::semantics;
use crate::vm::semantics::Effect;
use crate::vm::state::{VMView, VM};
use crate::vm::value::Value;

verus! {

/// Whether an operation had a defined result.
#[derive(Clone, Copy, Debug, PartialEq, Eq, Structural)]
pub enum Motion {
    Next,
    Stuck,
}

/// The effect of an operation that may have no defined result.
pub open spec fn motion(vm: VMView, result: Result<Motion, VMException>) -> Effect {
    match result {
        Ok(Motion::Next) => Effect::Next(vm),
        Ok(Motion::Stuck) => Effect::Stuck,
        Err(exception) => Effect::Fault(vm, exception@),
    }
}

pub(crate) fn moved(result: Result<(), VMException>) -> (motion: Result<Motion, VMException>)
    ensures
        match result {
            Ok(_) => motion == Ok::<Motion, VMException>(Motion::Next),
            Err(exception) => motion == Err::<Motion, VMException>(exception),
        },
{
    match result {
        Ok(_) => Ok(Motion::Next),
        Err(exception) => Err(exception),
    }
}

/// The remainder of a division that rounds toward zero.
fn remainder(a: i32, b: i32) -> (r: i32)
    requires
        b != 0,
    ensures
        r == semantics::remainder(a as int, b as int),
{
    if b == -1 {
        0
    } else {
        a.checked_rem(b).unwrap()
    }
}

fn compute(op: Arithmetic, a: i32, b: i32) -> (r: i32)
    requires
        op == Arithmetic::Rem ==> b != 0,
    ensures
        r == semantics::computed(op, a, b),
{
    match op {
        Arithmetic::Xor => a ^ b,
        Arithmetic::Rem => remainder(a, b),
        Arithmetic::Add => a.wrapping_add(b),
        Arithmetic::Mul => a.wrapping_mul(b),
        Arithmetic::Sub => a.wrapping_sub(b),
        Arithmetic::And => a & b,
        Arithmetic::Or => a | b,
    }
}

impl VM {
    /// A register of the running method.
    pub fn register(&self, i: usize) -> (register: Option<&Register>)
        ensures
            match register {
                Some(r) => self@.register(i as int) == Some(r@),
                None => self@.register(i as int) is None,
            },
    {
        if i < self.current_state.current_stackframe.len() {
            Some(&self.current_state.current_stackframe[i])
        } else {
            None
        }
    }

    /// The value at a heap address.
    pub fn value(&self, address: u32) -> (value: Option<&Value>)
        ensures
            match value {
                Some(v) => self@.value(address) == Some(v@),
                None => self@.value(address) is None,
            },
    {
        self.heap.get(&address)
    }

    /// Puts a value at a heap address.
    pub fn store(&mut self, address: u32, value: Value)
        ensures
            final(self)@ == old(self)@.store(address, value@),
    {
        self.heap.insert(address, value);
        assert(self@ =~= old(self)@.store(address, value@));
    }

    /// Copies a register.
    pub fn move_register(&mut self, dst: usize, src: usize) -> (result: Result<(), VMException>)
        ensures
            machine::effect(final(self)@, result) == semantics::move_register(old(self)@, dst, src),
    {
        match self.register(src) {
            Some(register) => {
                let copy = register.clone();
                self.update_register(dst, copy)
            },
            None => Err(VMException::RegisterNotFound(src)),
        }
    }

    /// Takes the result of the last call.
    pub fn move_result(&mut self, dst: usize) -> (result: Result<(), VMException>)
        ensures
            machine::effect(final(self)@, result) == semantics::move_result(old(self)@, dst),
    {
        let register = self.current_state.return_reg.clone();
        match self.update_register(dst, register) {
            Ok(_) => {
                self.current_state.return_reg = Register::Empty;
                Ok(())
            },
            Err(exception) => Err(exception),
        }
    }

    /// Computes with two registers.
    pub fn binary_op(&mut self, op: Arithmetic, dst: usize, a: usize, b: usize) -> (result: Result<Motion, VMException>)
        ensures
            motion(final(self)@, result) == semantics::arithmetic(old(self)@, op, dst, a, b),
    {
        let mut new_register = Register::Empty;
        match self.register(a) {
            None => {
                return Err(VMException::RegisterNotFound(a));
            },
            Some(Register::Literal(left)) => match self.register(b) {
                None => {
                    return Err(VMException::RegisterNotFound(b));
                },
                Some(Register::Literal(right)) => {
                    if op == Arithmetic::Rem && *right == 0 {
                        return Err(VMException::InvalidRegisterType);
                    }
                    if op == Arithmetic::Rem && *left == i32::MIN && *right == -1 {
                        return Ok(Motion::Stuck);
                    }
                    new_register = Register::Literal(compute(op, *left, *right));
                },
                Some(_) => {},
            },
            Some(_) => {},
        }
        moved(self.update_register(dst, new_register))
    }

    /// Computes with a register and a literal.
    pub fn binary_op_lit(&mut self, op: Arithmetic, dst: usize, a: usize, literal: i32) -> (result: Result<Motion, VMException>)
        ensures
            motion(final(self)@, result) == semantics::arithmetic_literal(old(self)@, op, dst, a, literal),
    {
        let mut new_register = Register::Empty;
        match self.register(a) {
            None => {
                return Err(VMException::RegisterNotFound(a));
            },
            Some(Register::Literal(left)) => {
                if op == Arithmetic::Rem && literal == 0 {
                    return Ok(Motion::Stuck);
                }
                new_register = Register::Literal(compute(op, *left, literal));
            },
            Some(_) => {},
        }
        moved(self.update_register(dst, new_register))
    }

    /// Keeps the low byte of a literal, with its sign.
    pub fn truncate_register(&mut self, dst: usize, src: usize) -> (result: Result<(), VMException>)
        ensures
            machine::effect(final(self)@, result) == semantics::truncate(old(self)@, dst, src),
    {
        match self.register(src) {
            Some(Register::Literal(n)) => {
                let value: i32 = *n;
                self.update_register(dst, Register::Literal((value as i8) as i32))
            },
            _ => Ok(()),
        }
    }

    /// Reads the length of an array.
    pub fn array_length(&mut self, dst: usize, array: usize) -> (result: Result<(), VMException>)
        ensures
            machine::effect(final(self)@, result) == semantics::array_length(old(self)@, dst, array),
    {
        match self.register(array) {
            Some(Register::Reference(_, address)) => match self.value(*address) {
                Some(Value::Array(data)) => {
                    let length: i32 = data.len() as i32;
                    self.update_register(dst, Register::Literal(length))
                },
                _ => Ok(()),
            },
            _ => Err(VMException::InvalidRegisterType),
        }
    }

    /// Reads an item of an array.
    pub fn array_get(&mut self, dst: usize, array: usize, index: usize) -> (result: Result<(), VMException>)
        ensures
            machine::effect(final(self)@, result) == semantics::array_get(old(self)@, dst, array, index),
    {
        match self.register(array) {
            Some(Register::Reference(_, address)) => match self.value(*address) {
                Some(Value::Array(data)) => match self.register(index) {
                    Some(Register::Literal(i)) => {
                        if *i >= 0 && (*i as usize) < data.len() {
                            let item: u8 = data[*i as usize];
                            self.update_register(dst, Register::Literal(item as i32))
                        } else {
                            Err(VMException::IndexOutOfBounds)
                        }
                    },
                    _ => Ok(()),
                },
                _ => Err(VMException::InstanceNotFound(*address)),
            },
            _ => Ok(()),
        }
    }

    /// Sets an item of an array.
    pub fn array_put(&mut self, src: usize, array: usize, index: usize) -> (result: Result<(), VMException>)
        ensures
            machine::effect(final(self)@, result) == semantics::array_put(old(self)@, src, array, index),
    {
        let (address, i): (u32, i32) = match self.register(array) {
            Some(Register::Reference(_, address)) => match self.register(index) {
                Some(Register::Literal(i)) => (*address, *i),
                _ => {
                    return Ok(());
                },
            },
            _ => {
                return Err(VMException::RegisterNotFound(array));
            },
        };
        match self.value(address) {
            Some(Value::Array(data)) => {
                if i >= 0 && (i as usize) < data.len() {
                    match self.register(src) {
                        Some(Register::Literal(n)) => {
                            let byte: u8 = *n as u8;
                            let mut changed: Vec<u8> = data.clone();
                            changed[i as usize] = byte;
                            self.store(address, Value::Array(changed));
                            Ok(())
                        },
                        _ => Ok(()),
                    }
                } else {
                    Err(VMException::IndexOutOfBounds)
                }
            },
            _ => Err(VMException::InstanceNotFound(address)),
        }
    }

    /// Replaces an object by the bytes that stand in the method.
    pub fn fill_array(&mut self, code: &CodeItem, array: usize, table: i32) -> (result: Result<(), VMException>)
        ensures
            machine::effect(final(self)@, result) == semantics::fill_array(old(self)@, *code, array, table),
    {
        match self.register(array) {
            Some(Register::Reference(_, address)) => {
                let address: u32 = *address;
                if !self.heap.contains_key(&address) {
                    return Err(VMException::InstanceNotFound(address));
                }
                match code.position(self.current_state.pc.offset_by(table)) {
                    None => Err(VMException::InstanceNotFound(table as u32)),
                    Some(i) => match &code.insns[i].2 {
                        Instruction::ArrayData(_, data) => {
                            self.store(address, Value::Array(data.clone()));
                            Ok(())
                        },
                        _ => Ok(()),
                    },
                }
            },
            _ => Ok(()),
        }
    }
}

} // verus!
