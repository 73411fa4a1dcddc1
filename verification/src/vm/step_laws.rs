//! What single instructions are for: what they leave in registers and where the
//! run goes on, in terms of what the registers held.

use vstd::prelude::*;
use vstd::arithmetic::div_mod::lemma_fundamental_div_mod_converse;
use crate::instruction;
use crate::instruction::{CodeItem, Instruction, TestFunction};
use crate::search;
use crate::vm::exception::{ExceptionView, ExecutionState};
use crate::vm::laws;
use crate::vm::operation::{Arithmetic, Operation};
use crate::vm::register::RegisterView;
use crate::vm::semantics;
use crate::vm::semantics::{Choice, Effect, MachineView, Status};
use crate::vm::state::{FrameView, VMView};

verus! {

// ---------------------------------------------------------------------------
// Where a run stands
// ---------------------------------------------------------------------------

/// The entry `index` of a method is the instruction at `address`: of several
/// entries with that address the last.
pub open spec fn stands_at(code: CodeItem, index: int, address: u32) -> bool {
    &&& 0 <= index < code.insns@.len()
    &&& code.insns@[index].1.0 == address
    &&& forall|k: int| index < k < code.insns@.len() ==> (#[trigger] code.insns@[k]).1.0 != address
}

/// No instruction of a method is at `address`.
pub open spec fn nothing_at(code: CodeItem, address: u32) -> bool {
    forall|k: int| 0 <= k < code.insns@.len() ==> (#[trigger] code.insns@[k]).1.0 != address
}

/// The instruction at an address is the last entry with that address, and is found
/// wherever there is one.
pub proof fn law_instruction_at_address(code: CodeItem, address: u32)
    ensures
        match code.index_at(address) {
            Some(i) => stands_at(code, i, address),
            None => nothing_at(code, address),
        },
        forall|i: int| #[trigger] stands_at(code, i, address) ==> code.index_at(address) == Some(i),
        nothing_at(code, address) ==> code.index_at(address) is None,
{
    let p = instruction::placed_at(address);
    if exists|i: int| search::is_last(code.insns@, p, i) {
        let i = choose|i: int| search::is_last(code.insns@, p, i);
        search::lemma_last(code.insns@, p, i);
        assert forall|k: int| i < k < code.insns@.len() implies (#[trigger] code.insns@[k]).1.0 != address by {
            assert(!p(code.insns@[k]));
        }
        assert(p(code.insns@[i]));
    } else {
        assert forall|k: int| 0 <= k < code.insns@.len() implies (#[trigger] code.insns@[k]).1.0 != address by {
            if code.insns@[k].1.0 == address {
                lemma_some_last(code, address, k);
            }
        }
    }
    assert forall|i: int| #[trigger] stands_at(code, i, address) implies code.index_at(address) == Some(i) by {
        assert forall|k: int| i < k < code.insns@.len() implies !p(#[trigger] code.insns@[k]) by {
            assert(code.insns@[k].1.0 != address);
        }
        assert(search::is_last(code.insns@, p, i));
        search::lemma_last(code.insns@, p, i);
    }
}

proof fn lemma_some_last(code: CodeItem, address: u32, k: int)
    requires
        0 <= k < code.insns@.len(),
        code.insns@[k].1.0 == address,
    ensures
        exists|i: int| search::is_last(code.insns@, instruction::placed_at(address), i),
    decreases code.insns@.len() - k,
{
    let p = instruction::placed_at(address);
    if forall|j: int| k < j < code.insns@.len() ==> !p(#[trigger] code.insns@[j]) {
        assert(search::is_last(code.insns@, p, k));
    } else {
        let j = choose|j: int| k < j < code.insns@.len() && p(#[trigger] code.insns@[j]);
        lemma_some_last(code, address, j);
    }
}

/// The current instruction.
pub open spec fn insn(m: MachineView) -> Instruction {
    m.code.insns@[m.index].2
}

/// The length of the current instruction, in code units.
pub open spec fn units(m: MachineView) -> u32 {
    m.code.insns@[m.index].0.0 / 2
}

/// A run that is about to execute an instruction: it has executed fewer than a
/// thousand.
pub open spec fn is_ready(m: MachineView) -> bool {
    &&& 0 <= m.index < m.code.insns@.len()
    &&& m.steps < 1000
}

/// One instruction later the run is at the program counter of `vm`, which is the
/// machine then; or there is no instruction, which is reported.
pub open spec fn arrives(m: MachineView, after: Status, vm: VMView) -> bool {
    match after {
        Status::Running(n) => {
            &&& n.vm == vm
            &&& n.code == m.code
            &&& n.dex == m.dex
            &&& n.method == m.method
            &&& n.steps == m.steps + 1
            &&& stands_at(*m.code, n.index, vm.current.pc)
        },
        Status::Done(v, result) => {
            &&& v == vm
            &&& nothing_at(*m.code, vm.current.pc)
            &&& result == Err::<(), ExceptionView>(
                ExceptionView::NoInstructionAtAddress(vm.current.method, vm.current.pc as usize),
            )
        },
        _ => false,
    }
}

/// The run goes on behind the instruction, which made `vm` of the machine. A run
/// that is finished ends there, and one that waits for an initializer executes the
/// instruction again.
pub open spec fn goes_behind(m: MachineView, after: Status, vm: VMView) -> bool {
    let there = VMView { current: FrameView { size: units(m), ..vm.current }, ..vm };
    if vm.current.state == ExecutionState::Finished {
        after == Status::Done(there, Ok::<(), ExceptionView>(()))
    } else if vm.current.state == ExecutionState::RunningStaticInitializer {
        arrives(m, after, there)
    } else {
        arrives(
            m,
            after,
            VMView {
                current: FrameView {
                    pc: vm.current.pc.wrapping_add(units(m)),
                    last_size: units(m),
                    ..there.current
                },
                ..vm
            },
        )
    }
}

/// The run goes on `offset` code units from the instruction, which changed nothing
/// else.
pub open spec fn jumps(m: MachineView, after: Status, offset: i32) -> bool {
    arrives(
        m,
        after,
        VMView {
            current: FrameView {
                pc: m.vm.current.pc.wrapping_add_signed(offset),
                size: units(m),
                ..m.vm.current
            },
            ..m.vm
        },
    )
}

/// The run goes on behind the instruction without a note of its size.
pub open spec fn falls_through(m: MachineView, after: Status) -> bool {
    arrives(
        m,
        after,
        VMView {
            current: FrameView { pc: m.vm.current.pc.wrapping_add(units(m)), size: units(m), ..m.vm.current },
            ..m.vm
        },
    )
}

/// The run ends with an exception, and the instruction has changed nothing.
pub open spec fn fails(m: MachineView, after: Status, exception: ExceptionView) -> bool {
    after == Status::Done(
        VMView { current: FrameView { size: units(m), ..m.vm.current }, ..m.vm },
        Err::<(), ExceptionView>(exception),
    )
}

/// The machine with one register set.
pub open spec fn setting(vm: VMView, i: int, register: RegisterView) -> VMView {
    VMView { current: FrameView { registers: vm.current.registers.update(i, register), ..vm.current }, ..vm }
}

/// A run does not execute more than a thousand instructions: the next one is
/// refused, and changes nothing.
pub proof fn law_thousand_instructions(m: MachineView, choice: Choice)
    ensures
        m.steps >= 1000 ==> semantics::step(m, choice) == Status::Done(m.vm, Err::<(), ExceptionView>(ExceptionView::StackOverflow)),
{
}

pub(crate) proof fn lemma_fetches()
    ensures
        forall|code: CodeItem, address: u32|
            match #[trigger] code.index_at(address) {
                Some(i) => stands_at(code, i, address),
                None => nothing_at(code, address),
            },
{
    assert forall|code: CodeItem, address: u32|
        match #[trigger] code.index_at(address) {
            Some(i) => stands_at(code, i, address),
            None => nothing_at(code, address),
        } by {
        law_instruction_at_address(code, address);
    }
}

pub(crate) proof fn lemma_stands()
    ensures
        forall|code: CodeItem, i: int, address: u32| #[trigger]
            stands_at(code, i, address) ==> code.index_at(address) == Some(i),
        forall|code: CodeItem, address: u32| #[trigger] nothing_at(code, address) ==> code.index_at(address) is None,
{
    assert forall|code: CodeItem, i: int, address: u32| #[trigger] stands_at(code, i, address) implies code.index_at(
        address,
    ) == Some(i) by {
        law_instruction_at_address(code, address);
    }
    assert forall|code: CodeItem, address: u32| #[trigger] nothing_at(code, address) implies code.index_at(address) is None by {
        law_instruction_at_address(code, address);
    }
}

/// What becomes of an instruction that goes on with the one behind it.
pub(crate) proof fn lemma_effect(m: MachineView, choice: Choice)
    requires
        is_ready(m),
        !laws::branches(insn(m).operation()),
    ensures
        ({
            let begun = VMView { current: FrameView { size: units(m), ..m.vm.current }, ..m.vm };
            let after = semantics::step(m, choice);
            match semantics::applied(begun, *m.code, *m.dex, insn(m).operation(), choice) {
                Effect::Next(vm) => vm.current.size == units(m) ==> goes_behind(m, after, vm),
                Effect::Fault(vm, exception) => after == Status::Done(vm, Err::<(), ExceptionView>(exception)),
                Effect::Stuck => after is Stuck,
            }
        }),
{
    reveal(semantics::perform);
    lemma_fetches();
}

// ---------------------------------------------------------------------------
// Moving registers
// ---------------------------------------------------------------------------

/// The instruction copies register `src` to register `dst`.
pub open spec fn is_move(insn: Instruction, dst: int, src: int) -> bool {
    match insn {
        Instruction::Move(d, s) => d == dst && s == src,
        Instruction::MoveFrom16(d, s) => d == dst && s == src,
        Instruction::Move16(d, s) => d == dst && s == src,
        Instruction::MoveObject(d, s) => d == dst && s == src,
        Instruction::MoveObjectFrom16(d, s) => d == dst && s == src,
        Instruction::MoveObject16(d, s) => d == dst && s == src,
        _ => false,
    }
}

/// A move copies a register; all others keep what they hold.
pub proof fn law_move(m: MachineView, choice: Choice, dst: int, src: int)
    requires
        is_ready(m),
        is_move(insn(m), dst, src),
    ensures
        ({
            let n = m.vm.current.registers.len();
            let after = semantics::step(m, choice);
            if src >= n {
                fails(m, after, ExceptionView::RegisterNotFound(src as usize))
            } else if dst >= n {
                fails(m, after, ExceptionView::RegisterNotFound(dst as usize))
            } else {
                goes_behind(m, after, setting(m.vm, dst, m.vm.current.registers[src]))
            }
        }),
{
    assert(insn(m).operation() == Operation::Move { dst: dst as usize, src: src as usize });
    lemma_effect(m, choice);
    reveal(semantics::applied);
}

/// The result of the last call is moved into a register, and can be moved once.
pub proof fn law_move_result(m: MachineView, choice: Choice, dst: u8)
    requires
        is_ready(m),
        insn(m) == Instruction::MoveResult(dst) || insn(m) == Instruction::MoveResultObject(dst),
    ensures
        ({
            let after = semantics::step(m, choice);
            let moved = setting(m.vm, dst as int, m.vm.current.result);
            if dst >= m.vm.current.registers.len() {
                fails(m, after, ExceptionView::RegisterNotFound(dst as usize))
            } else {
                goes_behind(
                    m,
                    after,
                    VMView { current: FrameView { result: RegisterView::Empty, ..moved.current }, ..moved },
                )
            }
        }),
{
    lemma_effect(m, choice);
    reveal(semantics::applied);
}

/// The instruction puts `value` into register `dst`.
pub open spec fn is_literal(insn: Instruction, dst: int, value: int) -> bool {
    match insn {
        Instruction::ConstLit4(d, n) => d == dst && n == value,
        Instruction::ConstLit16(d, n) => d == dst && n == value,
        Instruction::ConstLit32(d, n) => d == dst && n == value,
        _ => false,
    }
}

/// A constant is put into a register.
pub proof fn law_literal(m: MachineView, choice: Choice, dst: int, value: i32)
    requires
        is_ready(m),
        is_literal(insn(m), dst, value as int),
    ensures
        ({
            let after = semantics::step(m, choice);
            if dst >= m.vm.current.registers.len() {
                fails(m, after, ExceptionView::RegisterNotFound(dst as usize))
            } else {
                goes_behind(m, after, setting(m.vm, dst, RegisterView::Literal(value)))
            }
        }),
{
    assert(insn(m).operation() == Operation::Literal { dst: dst as usize, value });
    lemma_effect(m, choice);
    reveal(semantics::applied);
}

/// Narrowing keeps the integer modulo 256, between -128 and 127. Other registers
/// are left alone.
pub proof fn law_narrowing(m: MachineView, choice: Choice, dst: u8, src: u8, narrow: i32)
    requires
        is_ready(m),
        insn(m) == Instruction::IntToByte(dst, src) || insn(m) == Instruction::IntToChar(dst, src),
        -128 <= narrow < 128,
        src < m.vm.current.registers.len() && m.vm.current.registers[src as int] is Literal ==> (
        m.vm.current.registers[src as int]->Literal_0 - narrow) % 256 == 0,
    ensures
        ({
            let after = semantics::step(m, choice);
            if src < m.vm.current.registers.len() && m.vm.current.registers[src as int] is Literal {
                if dst >= m.vm.current.registers.len() {
                    fails(m, after, ExceptionView::RegisterNotFound(dst as usize))
                } else {
                    goes_behind(m, after, setting(m.vm, dst as int, RegisterView::Literal(narrow)))
                }
            } else {
                goes_behind(m, after, m.vm)
            }
        }),
{
    assert(insn(m).operation() == Operation::Truncate { dst: dst as usize, src: src as usize });
    lemma_effect(m, choice);
    reveal(semantics::applied);
    if src < m.vm.current.registers.len() && m.vm.current.registers[src as int] is Literal {
        let n = m.vm.current.registers[src as int]->Literal_0;
        assert((n as i8) as i32 == narrow) by (bit_vector)
            requires
                -128 <= narrow < 128,
                (n - narrow) % 256 == 0,
        ;
    }
}

// ---------------------------------------------------------------------------
// Arithmetic
// ---------------------------------------------------------------------------

/// The remainder of a division that rounds toward zero: what is left of `x` after
/// some times `y`, smaller than `y` in size, and never of the other sign than `x`.
pub open spec fn is_remainder(x: int, y: int, r: int) -> bool {
    &&& exists|q: int| x == #[trigger] (q * y) + r
    &&& (if y < 0 { y < r < -y } else { -y < r < y })
    &&& r < 0 ==> x < 0
    &&& r > 0 ==> x > 0
}

/// The instruction computes `r` of the integers `x` in register `a` and `y` in
/// register `b`, for register `dst`.
pub open spec fn computes(insn: Instruction, dst: int, a: int, b: int, x: i32, y: i32, r: i32) -> bool {
    match insn {
        Instruction::XorInt(d, s) => d == dst && d == a && s == b && r == x ^ y,
        Instruction::XorIntDst(d, f, s) => d == dst && f == a && s == b && r == x ^ y,
        Instruction::AndInt(d, s) => d == dst && d == a && s == b && r == x & y,
        Instruction::AndIntDst(d, f, s) => d == dst && f == a && s == b && r == x & y,
        Instruction::OrInt(d, s) => d == dst && d == a && s == b && r == x | y,
        Instruction::OrIntDst(d, f, s) => d == dst && f == a && s == b && r == x | y,
        Instruction::AddInt(d, s) => d == dst && d == a && s == b && r == x.wrapping_add(y),
        Instruction::AddIntDst(d, f, s) => d == dst && f == a && s == b && r == x.wrapping_add(y),
        Instruction::SubInt(d, s) => d == dst && d == a && s == b && r == x.wrapping_sub(y),
        Instruction::SubIntDst(d, f, s) => d == dst && f == a && s == b && r == x.wrapping_sub(y),
        Instruction::MulInt(d, s) => d == dst && d == a && s == b && r == x.wrapping_mul(y),
        Instruction::MulIntDst(d, f, s) => d == dst && f == a && s == b && r == x.wrapping_mul(y),
        Instruction::RemInt(d, s) => d == dst && d == a && s == b && y != 0 && is_remainder(x as int, y as int, r as int) && !(x
            == i32::MIN && y == -1),
        Instruction::RemIntDst(d, f, s) => d == dst && f == a && s == b && y != 0 && is_remainder(x as int, y as int, r as int)
            && !(x == i32::MIN && y == -1),
        _ => false,
    }
}

/// The instruction computes with registers `a` and `b`, for register `dst`.
pub open spec fn is_arithmetic(insn: Instruction, dst: int, a: int, b: int) -> bool {
    match insn {
        Instruction::XorInt(d, s) | Instruction::AndInt(d, s) | Instruction::OrInt(d, s) | Instruction::AddInt(d, s)
        | Instruction::SubInt(d, s) | Instruction::MulInt(d, s) | Instruction::RemInt(d, s) => d == dst && d == a && s == b,
        Instruction::XorIntDst(d, f, s) | Instruction::AndIntDst(d, f, s) | Instruction::OrIntDst(d, f, s)
        | Instruction::AddIntDst(d, f, s) | Instruction::SubIntDst(d, f, s) | Instruction::MulIntDst(d, f, s)
        | Instruction::RemIntDst(d, f, s) => d == dst && f == a && s == b,
        _ => false,
    }
}

proof fn lemma_remainder(x: int, y: int, r: int)
    requires
        y != 0,
        is_remainder(x, y, r),
    ensures
        semantics::remainder(x, y) == r,
{
    let q = choose|q: int| x == #[trigger] (q * y) + r;
    let d = if y < 0 {
        -y
    } else {
        y
    };
    let p = if y < 0 {
        -q
    } else {
        q
    };
    assert(p * d == q * y) by (nonlinear_arith)
        requires
            (y < 0 && d == -y && p == -q) || (d == y && p == q),
    ;
    if x < 0 {
        assert((-p) * d == -(p * d)) by (nonlinear_arith);
        lemma_fundamental_div_mod_converse(-x, d, -p, -r);
    } else {
        lemma_fundamental_div_mod_converse(x, d, p, r);
    }
}

/// What an instruction computes is the result of its operation.
proof fn lemma_computed(insn: Instruction, dst: int, a: int, b: int, x: i32, y: i32, r: i32)
    requires
        computes(insn, dst, a, b, x, y, r),
    ensures
        is_arithmetic(insn, dst, a, b),
        semantics::computed(insn.operation()->Arithmetic_op, x, y) == r,
        insn.operation()->Arithmetic_op == Arithmetic::Rem ==> y != 0 && !(x == i32::MIN && y == -1),
{
    if insn is RemInt || insn is RemIntDst {
        lemma_remainder(x as int, y as int, r as int);
    }
}

/// Arithmetic on two registers with integers leaves the result modulo 2^32 in a
/// register; a remainder has the sign of the dividend.
pub proof fn law_arithmetic(m: MachineView, choice: Choice, dst: int, a: int, b: int, x: i32, y: i32, r: i32)
    requires
        is_ready(m),
        computes(insn(m), dst, a, b, x, y, r),
        a < m.vm.current.registers.len() && m.vm.current.registers[a] == RegisterView::Literal(x),
        b < m.vm.current.registers.len() && m.vm.current.registers[b] == RegisterView::Literal(y),
    ensures
        ({
            let after = semantics::step(m, choice);
            if dst >= m.vm.current.registers.len() {
                fails(m, after, ExceptionView::RegisterNotFound(dst as usize))
            } else {
                goes_behind(m, after, setting(m.vm, dst, RegisterView::Literal(r)))
            }
        }),
{
    lemma_computed(insn(m), dst, a, b, x, y, r);
    lemma_arithmetic_decodes(insn(m), dst, a, b);
    lemma_arithmetic_effect(m, choice, insn(m).operation()->Arithmetic_op, dst as usize, a as usize, b as usize, x, y);
}

proof fn lemma_arithmetic_effect(m: MachineView, choice: Choice, op: Arithmetic, dst: usize, a: usize, b: usize, x: i32, y: i32)
    requires
        is_ready(m),
        insn(m).operation() == (Operation::Arithmetic { op, dst, a, b }),
        a < m.vm.current.registers.len() && m.vm.current.registers[a as int] == RegisterView::Literal(x),
        b < m.vm.current.registers.len() && m.vm.current.registers[b as int] == RegisterView::Literal(y),
        op == Arithmetic::Rem ==> y != 0 && !(x == i32::MIN && y == -1),
    ensures
        ({
            let after = semantics::step(m, choice);
            if dst >= m.vm.current.registers.len() {
                fails(m, after, ExceptionView::RegisterNotFound(dst))
            } else {
                goes_behind(m, after, setting(m.vm, dst as int, RegisterView::Literal(semantics::computed(op, x, y))))
            }
        }),
{
    lemma_effect(m, choice);
    reveal(semantics::applied);
}

proof fn lemma_arithmetic_decodes(insn: Instruction, dst: int, a: int, b: int)
    ensures
        is_arithmetic(insn, dst, a, b) ==> insn.operation() == (Operation::Arithmetic {
            op: insn.operation()->Arithmetic_op,
            dst: dst as usize,
            a: a as usize,
            b: b as usize,
        }),
        is_arithmetic(insn, dst, a, b) ==> 0 <= dst <= 0xff && 0 <= a <= 0xff && 0 <= b <= 0xff,
{
}

/// Arithmetic on registers that are missing or hold no integers: a missing first
/// register is reported, a missing second one where the first holds an integer;
/// anything but two integers makes an empty register.
pub proof fn law_arithmetic_without_integers(m: MachineView, choice: Choice, dst: int, a: int, b: int)
    requires
        is_ready(m),
        is_arithmetic(insn(m), dst, a, b),
    ensures
        ({
            let registers = m.vm.current.registers;
            let after = semantics::step(m, choice);
            if a >= registers.len() {
                fails(m, after, ExceptionView::RegisterNotFound(a as usize))
            } else if registers[a] is Literal && b >= registers.len() {
                fails(m, after, ExceptionView::RegisterNotFound(b as usize))
            } else if registers[a] is Literal && registers[b] is Literal {
                true
            } else if dst >= registers.len() {
                fails(m, after, ExceptionView::RegisterNotFound(dst as usize))
            } else {
                goes_behind(m, after, setting(m.vm, dst, RegisterView::Empty))
            }
        }),
{
    lemma_arithmetic_decodes(insn(m), dst, a, b);
    lemma_effect(m, choice);
    reveal(semantics::applied);
}

/// A remainder by a register that holds zero is refused. That of the smallest
/// integer by minus one has no result.
pub proof fn law_remainder_refused(m: MachineView, choice: Choice, dst: int, a: int, b: int)
    requires
        is_ready(m),
        is_arithmetic(insn(m), dst, a, b),
        insn(m) is RemInt || insn(m) is RemIntDst,
        a < m.vm.current.registers.len() && m.vm.current.registers[a] is Literal,
        b < m.vm.current.registers.len(),
    ensures
        m.vm.current.registers[b] == RegisterView::Literal(0) ==> fails(
            m,
            semantics::step(m, choice),
            ExceptionView::InvalidRegisterType,
        ),
        m.vm.current.registers[b] == RegisterView::Literal(-1i32) && m.vm.current.registers[a] == RegisterView::Literal(i32::MIN)
            ==> semantics::step(m, choice) is Stuck,
{
    lemma_arithmetic_decodes(insn(m), dst, a, b);
    lemma_effect(m, choice);
    reveal(semantics::applied);
}

/// The instruction computes `r` of the integer `x` in register `a` and a literal,
/// for register `dst`.
pub open spec fn computes_literal(insn: Instruction, dst: int, a: int, x: i32, literal: i32, r: i32) -> bool {
    match insn {
        Instruction::XorIntDstLit8(d, f, l) => d == dst && f == a && l == literal && r == x ^ literal,
        Instruction::XorIntDstLit16(d, f, l) => d == dst && f == a && l == literal && r == x ^ literal,
        Instruction::AndIntLit8(d, f, l) => d == dst && f == a && l == literal && r == x & literal,
        Instruction::AndIntLit16(d, f, l) => d == dst && f == a && l == literal && r == x & literal,
        Instruction::OrIntLit8(d, f, l) => d == dst && f == a && l == literal && r == x | literal,
        Instruction::OrIntLit16(d, f, l) => d == dst && f == a && l == literal && r == x | literal,
        Instruction::AddIntLit8(d, f, l) => d == dst && f == a && l == literal && r == x.wrapping_add(literal),
        Instruction::AddIntLit16(d, f, l) => d == dst && f == a && l == literal && r == x.wrapping_add(literal),
        Instruction::SubIntLit8(d, f, l) => d == dst && f == a && l == literal && r == x.wrapping_sub(literal),
        Instruction::SubIntLit16(d, f, l) => d == dst && f == a && l == literal && r == x.wrapping_sub(literal),
        Instruction::MulIntLit8(d, f, l) => d == dst && f == a && l == literal && r == x.wrapping_mul(literal),
        Instruction::MulIntLit16(d, f, l) => d == dst && f == a && l == literal && r == x.wrapping_mul(literal),
        Instruction::RemIntLit8(d, f, l) => d == dst && f == a && l == literal && literal != 0 && is_remainder(
            x as int,
            literal as int,
            r as int,
        ),
        Instruction::RemIntLit16(d, f, l) => d == dst && f == a && l == literal && literal != 0 && is_remainder(
            x as int,
            literal as int,
            r as int,
        ),
        _ => false,
    }
}

/// The instruction computes with register `a` and a literal, for register `dst`.
pub open spec fn is_arithmetic_literal(insn: Instruction, dst: int, a: int, literal: int) -> bool {
    match insn {
        Instruction::XorIntDstLit8(d, f, l) | Instruction::AndIntLit8(d, f, l) | Instruction::OrIntLit8(d, f, l)
        | Instruction::AddIntLit8(d, f, l) | Instruction::SubIntLit8(d, f, l) | Instruction::MulIntLit8(d, f, l)
        | Instruction::RemIntLit8(d, f, l) => d == dst && f == a && l == literal,
        Instruction::XorIntDstLit16(d, f, l) | Instruction::AndIntLit16(d, f, l) | Instruction::OrIntLit16(d, f, l)
        | Instruction::AddIntLit16(d, f, l) | Instruction::SubIntLit16(d, f, l) | Instruction::MulIntLit16(d, f, l)
        | Instruction::RemIntLit16(d, f, l) => d == dst && f == a && l == literal,
        _ => false,
    }
}

proof fn lemma_arithmetic_literal_decodes(insn: Instruction, dst: int, a: int, literal: i32)
    ensures
        is_arithmetic_literal(insn, dst, a, literal as int) ==> insn.operation() == (Operation::ArithmeticLiteral {
            op: insn.operation()->ArithmeticLiteral_op,
            dst: dst as usize,
            a: a as usize,
            literal,
        }),
        is_arithmetic_literal(insn, dst, a, literal as int) ==> 0 <= dst <= 0xff && 0 <= a <= 0xff,
{
}

/// What an instruction computes with a literal is the result of its operation.
proof fn lemma_computed_literal(insn: Instruction, dst: int, a: int, x: i32, literal: i32, r: i32)
    requires
        computes_literal(insn, dst, a, x, literal, r),
    ensures
        is_arithmetic_literal(insn, dst, a, literal as int),
        semantics::computed(insn.operation()->ArithmeticLiteral_op, x, literal) == r,
        insn.operation()->ArithmeticLiteral_op == Arithmetic::Rem ==> literal != 0,
{
    if insn is RemIntLit8 || insn is RemIntLit16 {
        lemma_remainder(x as int, literal as int, r as int);
    }
}

/// Arithmetic on a register with an integer and a literal.
pub proof fn law_arithmetic_literal(m: MachineView, choice: Choice, dst: int, a: int, x: i32, literal: i32, r: i32)
    requires
        is_ready(m),
        computes_literal(insn(m), dst, a, x, literal, r),
        a < m.vm.current.registers.len() && m.vm.current.registers[a] == RegisterView::Literal(x),
    ensures
        ({
            let after = semantics::step(m, choice);
            if dst >= m.vm.current.registers.len() {
                fails(m, after, ExceptionView::RegisterNotFound(dst as usize))
            } else {
                goes_behind(m, after, setting(m.vm, dst, RegisterView::Literal(r)))
            }
        }),
{
    lemma_computed_literal(insn(m), dst, a, x, literal, r);
    lemma_arithmetic_literal_decodes(insn(m), dst, a, literal);
    lemma_arithmetic_literal_effect(
        m,
        choice,
        insn(m).operation()->ArithmeticLiteral_op,
        dst as usize,
        a as usize,
        x,
        literal,
    );
}

proof fn lemma_arithmetic_literal_effect(m: MachineView, choice: Choice, op: Arithmetic, dst: usize, a: usize, x: i32, literal: i32)
    requires
        is_ready(m),
        insn(m).operation() == (Operation::ArithmeticLiteral { op, dst, a, literal }),
        a < m.vm.current.registers.len() && m.vm.current.registers[a as int] == RegisterView::Literal(x),
        op == Arithmetic::Rem ==> literal != 0,
    ensures
        ({
            let after = semantics::step(m, choice);
            if dst >= m.vm.current.registers.len() {
                fails(m, after, ExceptionView::RegisterNotFound(dst))
            } else {
                goes_behind(m, after, setting(m.vm, dst as int, RegisterView::Literal(semantics::computed(op, x, literal))))
            }
        }),
{
    lemma_effect(m, choice);
    reveal(semantics::applied);
}

/// Arithmetic with a literal on a register that is missing or holds no integer, and
/// the remainder by a literal zero, which has no result.
pub proof fn law_arithmetic_literal_without_integer(m: MachineView, choice: Choice, dst: int, a: int, literal: i32)
    requires
        is_ready(m),
        is_arithmetic_literal(insn(m), dst, a, literal as int),
    ensures
        ({
            let registers = m.vm.current.registers;
            let after = semantics::step(m, choice);
            if a >= registers.len() {
                fails(m, after, ExceptionView::RegisterNotFound(a as usize))
            } else if registers[a] is Literal {
                (insn(m) is RemIntLit8 || insn(m) is RemIntLit16) && literal == 0 ==> after is Stuck
            } else if dst >= registers.len() {
                fails(m, after, ExceptionView::RegisterNotFound(dst as usize))
            } else {
                goes_behind(m, after, setting(m.vm, dst, RegisterView::Empty))
            }
        }),
{
    lemma_arithmetic_literal_decodes(insn(m), dst, a, literal);
    lemma_effect(m, choice);
    reveal(semantics::applied);
}

// ---------------------------------------------------------------------------
// Instructions without effect
// ---------------------------------------------------------------------------

/// The instructions that are passed over: wide and ranged ones, those that only
/// carry data, and those on fields of other kinds.
pub open spec fn is_passed_over(insn: Instruction) -> bool {
    ||| insn is Nop || insn is MoveWide || insn is MoveWideFrom16 || insn is MoveWide16 || insn is MoveResultWide
    ||| insn is XorLong || insn is XorLongDst || insn is RemLong || insn is RemLongDst || insn is AddLong || insn is AddLongDst
    ||| insn is MulLong || insn is MulLongDst || insn is SubLong || insn is SubLongDst || insn is AndLong || insn is AndLongDst
    ||| insn is OrLong || insn is OrLongDst || insn is SwitchData || insn is Throw || insn is Const || insn is ConstWide
    ||| insn is ConstStringJumbo || insn is ConstClass || insn is NewInstanceType || insn is FilledNewArrayRange
    ||| insn is ArrayData || insn is Invoke || insn is InvokeType || insn is InvokeSuper || insn is InvokeInterface
    ||| insn is InvokeVirtualRange || insn is InvokeSuperRange || insn is InvokeDirectRange || insn is InvokeStaticRange
    ||| insn is InvokeInterfaceRange || insn is StaticGet || insn is StaticGetWide || insn is StaticGetBoolean
    ||| insn is StaticGetByte || insn is StaticGetChar || insn is StaticGetShort || insn is StaticPut || insn is StaticPutWide
    ||| insn is StaticPutBoolean || insn is StaticPutByte || insn is StaticPutChar || insn is StaticPutShort
    ||| insn is InstanceGetWide || insn is InstanceGetBoolean || insn is InstanceGetByte || insn is InstanceGetChar
    ||| insn is InstanceGetShort || insn is InstancePutWide || insn is InstancePutBoolean || insn is InstancePutByte
    ||| insn is InstancePutChar || insn is InstancePutShort || insn is NotImpl
}

/// An instruction that is passed over changes nothing but the place of the run.
pub proof fn law_passed_over(m: MachineView, choice: Choice)
    requires
        is_ready(m),
        is_passed_over(insn(m)),
    ensures
        goes_behind(m, semantics::step(m, choice), m.vm),
{
    assert(insn(m).operation() is Nothing);
    lemma_effect(m, choice);
    reveal(semantics::applied);
}

// ---------------------------------------------------------------------------
// Branching
// ---------------------------------------------------------------------------

/// The number by which a register compares: its integer or its heap address, else
/// zero.
pub open spec fn counts_as(register: RegisterView, n: int) -> bool {
    match register {
        RegisterView::Literal(x) => n == x,
        RegisterView::Reference(_, address) => n == address,
        RegisterView::LiteralWide(_) => n == 0,
        RegisterView::Paired(_) => n == 0,
        RegisterView::Empty => n == 0,
        RegisterView::Null => n == 0,
    }
}

/// Whether two numbers compare as asked.
pub open spec fn compares(test: TestFunction, x: int, y: int) -> bool {
    &&& test is Equal ==> x == y
    &&& test is NotEqual ==> x != y
    &&& test is LessThan ==> x < y
    &&& test is LessEqual ==> x <= y
    &&& test is GreaterThan ==> x > y
    &&& test is GreaterEqual ==> x >= y
}

/// A comparison of two registers branches exactly where it holds. A register that
/// is missing or empty cannot be compared.
pub proof fn law_test(m: MachineView, choice: Choice, test: TestFunction, a: u8, b: u8, offset: i16, x: int, y: int)
    requires
        is_ready(m),
        insn(m) == Instruction::Test(test, a, b, offset),
        a < m.vm.current.registers.len() ==> counts_as(m.vm.current.registers[a as int], x),
        b < m.vm.current.registers.len() ==> counts_as(m.vm.current.registers[b as int], y),
    ensures
        ({
            let registers = m.vm.current.registers;
            let after = semantics::step(m, choice);
            if a >= registers.len() || b >= registers.len() || registers[a as int] is Empty || registers[b as int] is Empty {
                fails(m, after, ExceptionView::RegisterNotFound(0))
            } else if compares(test, x, y) {
                jumps(m, after, offset as i32)
            } else {
                falls_through(m, after)
            }
        }),
{
    assert(insn(m).operation() == (Operation::Test { test, a: a as usize, b: b as usize, offset: offset as i32 }));
    reveal(semantics::perform);
    lemma_fetches();
}

/// A comparison of a register with zero branches exactly where it holds.
pub proof fn law_test_zero(m: MachineView, choice: Choice, test: TestFunction, a: u8, offset: i16, x: int)
    requires
        is_ready(m),
        insn(m) == Instruction::TestZero(test, a, offset),
        a < m.vm.current.registers.len() ==> counts_as(m.vm.current.registers[a as int], x),
    ensures
        ({
            let after = semantics::step(m, choice);
            if a >= m.vm.current.registers.len() {
                fails(m, after, ExceptionView::RegisterNotFound(a as usize))
            } else if compares(test, x, 0) {
                jumps(m, after, offset as i32)
            } else {
                falls_through(m, after)
            }
        }),
{
    assert(insn(m).operation() == (Operation::TestZero { test, a: a as usize, offset: offset as i32 }));
    reveal(semantics::perform);
    lemma_fetches();
}

/// The instruction jumps by `offset` code units.
pub open spec fn is_jump(insn: Instruction, offset: i32) -> bool {
    match insn {
        Instruction::Goto8(n) => n == offset,
        Instruction::Goto16(n) => n == offset,
        Instruction::Goto32(n) => n == offset,
        _ => false,
    }
}

/// A jump goes as far as it says, and does nothing else.
pub proof fn law_goto(m: MachineView, choice: Choice, offset: i32)
    requires
        is_ready(m),
        is_jump(insn(m), offset),
    ensures
        jumps(m, semantics::step(m, choice), offset),
{
    assert(insn(m).operation() == (Operation::Goto { offset }));
    reveal(semantics::perform);
    lemma_fetches();
}

/// A switch on an integer that has a case branches as far as the table says. The
/// table stands `table` code units from the switch.
pub proof fn law_switch(m: MachineView, choice: Choice, register: u8, table: i32, k: int)
    requires
        is_ready(m),
        insn(m) == Instruction::Switch(register, table),
        stands_at(*m.code, k, m.vm.current.pc.wrapping_add_signed(table)) || nothing_at(
            *m.code,
            m.vm.current.pc.wrapping_add_signed(table),
        ),
    ensures
        ({
            let registers = m.vm.current.registers;
            let after = semantics::step(m, choice);
            let there = stands_at(*m.code, k, m.vm.current.pc.wrapping_add_signed(table));
            if register >= registers.len() || !(registers[register as int] is Literal) {
                fails(m, after, ExceptionView::RegisterNotFound(register as usize))
            } else {
                let n = registers[register as int]->Literal_0;
                match m.code.insns@[k].2 {
                    Instruction::SwitchData(switch) => if there && switch.targets@.contains_key(n) {
                        jumps(m, after, switch.targets@[n])
                    } else {
                        goes_behind(m, after, m.vm)
                    },
                    _ => goes_behind(m, after, m.vm),
                }
            }
        }),
{
    assert(insn(m).operation() == (Operation::Switch { register: register as usize, table }));
    lemma_stands();
    reveal(semantics::perform);
    lemma_fetches();
}

} // verus!
