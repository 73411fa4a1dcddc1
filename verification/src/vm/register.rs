//! Registers and how they compare.

use vstd::prelude::*;
use core::cmp::Ordering;
use crate::vm::step_laws;

verus! {

/// What a register of a stack frame holds.
#[derive(Debug)]
pub enum Register {
    Literal(i32),
    LiteralWide(i64),
    Paired(u32),
    /// The type and the heap address of an object.
    Reference(String, u32),
    Empty,
    Null,
}

/// A register, with its text as a sequence of characters.
pub enum RegisterView {
    Literal(i32),
    LiteralWide(i64),
    Paired(u32),
    Reference(Seq<char>, u32),
    Empty,
    Null,
}

impl View for Register {
    type V = RegisterView;

    open spec fn view(&self) -> RegisterView {
        match self {
            Register::Literal(n) => RegisterView::Literal(*n),
            Register::LiteralWide(n) => RegisterView::LiteralWide(*n),
            Register::Paired(n) => RegisterView::Paired(*n),
            Register::Reference(ty, address) => RegisterView::Reference(ty@, *address),
            Register::Empty => RegisterView::Empty,
            Register::Null => RegisterView::Null,
        }
    }
}

impl RegisterView {
    /// The number by which registers compare: literals and addresses count, the rest is 0.
    pub open spec fn number(self) -> int {
        match self {
            RegisterView::Literal(n) => n as int,
            RegisterView::Reference(_, address) => address as int,
            _ => 0,
        }
    }
}

impl Clone for Register {
    fn clone(&self) -> (copy: Register)
        ensures
            copy == *self,
    {
        match self {
            Register::Literal(n) => Register::Literal(*n),
            Register::LiteralWide(n) => Register::LiteralWide(*n),
            Register::Paired(n) => Register::Paired(*n),
            Register::Reference(ty, address) => Register::Reference(ty.clone(), *address),
            Register::Empty => Register::Empty,
            Register::Null => Register::Null,
        }
    }
}

impl Register {
    /// The number by which the register compares.
    pub fn get_int(&self) -> (n: i64)
        ensures
            n == self@.number(),
    {
        match self {
            Register::Literal(n) => *n as i64,
            Register::Reference(_, address) => *address as i64,
            _ => 0,
        }
    }

    /// Orders two registers by their numbers.
    pub fn cmp(&self, other: &Register) -> (order: Ordering)
        ensures
            order == number_order(self@.number(), other@.number()),
    {
        let left: i64 = self.get_int();
        let right: i64 = other.get_int();
        if left < right {
            Ordering::Less
        } else if left == right {
            Ordering::Equal
        } else {
            Ordering::Greater
        }
    }
}

/// The order of two integers.
pub open spec fn number_order(left: int, right: int) -> Ordering {
    if left < right {
        Ordering::Less
    } else if left == right {
        Ordering::Equal
    } else {
        Ordering::Greater
    }
}

impl PartialEq for Register {
    fn eq(&self, other: &Register) -> (same: bool) {
        self.get_int() == other.get_int()
    }
}

impl vstd::std_specs::cmp::PartialEqSpecImpl for Register {
    open spec fn obeys_eq_spec() -> bool {
        true
    }

    open spec fn eq_spec(&self, other: &Register) -> bool {
        self@.number() == other@.number()
    }
}

impl Eq for Register {

}

impl PartialOrd for Register {
    fn partial_cmp(&self, other: &Register) -> (order: Option<Ordering>) {
        Some(self.cmp(other))
    }
}

impl vstd::std_specs::cmp::PartialOrdSpecImpl for Register {
    open spec fn obeys_partial_cmp_spec() -> bool {
        true
    }

    open spec fn partial_cmp_spec(&self, other: &Register) -> Option<Ordering> {
        Some(number_order(self@.number(), other@.number()))
    }
}

/// Equality, the partial order and the order of registers agree: two registers
/// are equal exactly where they are ordered as equal, and one is below another
/// exactly where the other is above it.
pub proof fn law_register_order(a: Register, b: Register, c: Register)
    ensures
        vstd::std_specs::cmp::PartialEqSpec::eq_spec(&a, &b) <==> number_order(a@.number(), b@.number()) == Ordering::Equal,
        vstd::std_specs::cmp::PartialOrdSpec::partial_cmp_spec(&a, &b) == Some(number_order(a@.number(), b@.number())),
        number_order(a@.number(), b@.number()) == Ordering::Less <==> number_order(b@.number(), a@.number()) == Ordering::Greater,
        number_order(a@.number(), b@.number()) == Ordering::Less && number_order(b@.number(), c@.number()) == Ordering::Less
            ==> number_order(a@.number(), c@.number()) == Ordering::Less,
{
}

/// Registers compare by their numbers, as integers do.
pub proof fn law_registers_compare_as_numbers(a: Register, b: Register, x: int, y: int)
    requires
        step_laws::counts_as(a@, x),
        step_laws::counts_as(b@, y),
    ensures
        a@.number() == x,
        vstd::std_specs::cmp::PartialEqSpec::eq_spec(&a, &b) <==> x == y,
        vstd::std_specs::cmp::PartialOrdSpec::partial_cmp_spec(&a, &b) == Some(number_order(x, y)),
        number_order(x, y) == Ordering::Less <==> x < y,
        number_order(x, y) == Ordering::Equal <==> x == y,
        number_order(x, y) == Ordering::Greater <==> x > y,
{
}

/// The registers of a frame, each by its view.
pub open spec fn register_views(registers: Seq<Register>) -> Seq<RegisterView> {
    registers.map_values(|r: Register| r@)
}

/// Copies a list of registers.
pub fn copy_registers(registers: &Vec<Register>) -> (copy: Vec<Register>)
    ensures
        copy@ == registers@,
{
    let mut copy: Vec<Register> = Vec::new();
    let mut i: usize = 0;
    while i < registers.len()
        invariant
            i <= registers@.len(),
            copy@ == registers@.take(i as int),
        decreases registers@.len() - i,
    {
        copy.push(registers[i].clone());
        assert(copy@ =~= registers@.take(i + 1));
        i = i + 1;
    }
    assert(copy@ =~= registers@);
    copy
}

} // verus!
