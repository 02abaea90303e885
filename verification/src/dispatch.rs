//! A counter machine: the smallest program the dispatcher can run.

use vstd::prelude::*;

verus! {

/// The operations of the counter machine.
#[derive(Debug, Clone, Copy, PartialEq, Eq, Structural)]
pub enum OpCode {
    Stop,
    NoOp,
    Incr,
}

/// The tape holds a `Stop` at `pc` or after it.
pub open spec fn halts(tape: Seq<OpCode>, pc: int) -> bool {
    exists|i: int| pc <= i < tape.len() && tape[i] == OpCode::Stop
}

/// The number of `Incr` between `pc` and the first `Stop` at or after it.
pub open spec fn increments(tape: Seq<OpCode>, pc: int) -> int
    decreases tape.len() - pc,
{
    if pc < 0 || pc >= tape.len() {
        0
    } else {
        match tape[pc] {
            OpCode::Stop => 0,
            OpCode::NoOp => increments(tape, pc + 1),
            OpCode::Incr => 1 + increments(tape, pc + 1),
        }
    }
}

/// The count is never negative.
pub proof fn lemma_increments_nonnegative(tape: Seq<OpCode>, pc: int)
    ensures
        increments(tape, pc) >= 0,
    decreases tape.len() - pc,
{
    if 0 <= pc < tape.len() {
        lemma_increments_nonnegative(tape, pc + 1);
    }
}

/// `Stop`: the run ends, there is no next instruction.
pub fn insn_stop(pc: usize, value: &mut i32, tape: &[OpCode]) -> (next: Option<usize>)
    ensures
        next is None,
        *final(value) == *old(value),
{
    None
}

/// `NoOp`: goes on with the next instruction.
pub fn insn_noop(pc: usize, value: &mut i32, tape: &[OpCode]) -> (next: Option<usize>)
    requires
        pc < tape@.len(),
    ensures
        next == Some((pc + 1) as usize),
        *final(value) == *old(value),
{
    let n = tape.len();
    Some(pc + 1)
}

/// `Incr`: adds one to the value and goes on with the next instruction.
pub fn insn_incr(pc: usize, value: &mut i32, tape: &[OpCode]) -> (next: Option<usize>)
    requires
        pc < tape@.len(),
        *old(value) < i32::MAX,
    ensures
        next == Some((pc + 1) as usize),
        *final(value) == *old(value) + 1,
{
    let n = tape.len();
    *value = *value + 1;
    Some(pc + 1)
}

/// Runs the tape from its first instruction to the first `Stop`, which must
/// be there: `value` grows by the number of `Incr` on the way, which it must
/// have room for.
pub fn run(tape: &[OpCode], value: &mut i32)
    requires
        halts(tape@, 0),
        *old(value) + increments(tape@, 0) <= i32::MAX,
    ensures
        *final(value) == *old(value) + increments(tape@, 0),
{
    let mut pc: usize = 0;
    loop
        invariant
            pc <= tape@.len(),
            halts(tape@, pc as int),
            *value + increments(tape@, pc as int) == *old(value) + increments(tape@, 0),
            *old(value) + increments(tape@, 0) <= i32::MAX,
        decreases tape@.len() - pc,
    {
        proof {
            lemma_increments_nonnegative(tape@, pc as int + 1);
        }
        let next = match tape[pc] {
            OpCode::Stop => insn_stop(pc, value, tape),
            OpCode::NoOp => insn_noop(pc, value, tape),
            OpCode::Incr => insn_incr(pc, value, tape),
        };
        match next {
            Some(n) => {
                pc = n;
            },
            None => {
                return;
            },
        }
    }
}

} // verus!
