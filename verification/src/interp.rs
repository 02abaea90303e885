//! The interpreter loop of the register machine.

use vstd::prelude::*;
use crate::instruction::Instruction;
use crate::value::Value;

verus! {

/// Where execution failed.
#[derive(Debug, Clone, Copy, PartialEq, Eq, Structural)]
pub struct Error {
    /// The index of the instruction that could not be executed, or the length
    /// of the tape if execution ran off its end.
    pub pc: usize,
}

/// A thread of execution and the code it runs.
pub struct Thread {
    pub tape: Vec<Instruction>,
}

/// How a run ends: the registers it leaves, and the failure, if it failed.
pub struct Halt {
    pub registers: Seq<Value>,
    pub error: Option<Error>,
}

/// What executing the tape from `pc` on makes of the registers.
///
/// `MOVE` copies one register to another and fails if either is not there,
/// `STOP` ends the run, and every other instruction is passed over. Running
/// off the end of the tape is a failure.
pub open spec fn run_from(tape: Seq<Instruction>, pc: int, registers: Seq<Value>) -> Halt
    decreases tape.len() - pc,
{
    if pc < 0 || pc >= tape.len() {
        Halt { registers, error: Some(Error { pc: pc as usize }) }
    } else {
        match tape[pc] {
            Instruction::STOP => Halt { registers, error: None },
            Instruction::MOVE { dst, src } => if dst < registers.len() && src < registers.len() {
                run_from(tape, pc + 1, registers.update(dst as int, registers[src as int]))
            } else {
                Halt { registers, error: Some(Error { pc: pc as usize }) }
            },
            _ => run_from(tape, pc + 1, registers),
        }
    }
}

/// The failure of the instruction at `pc`.
fn impl_error(pc: usize) -> (e: Error)
    ensures
        e == (Error { pc }),
{
    Error { pc }
}

/// Executes `MOVE`: copies register `src` to register `dst`.
fn op_move(instruction: Instruction, registers: &mut Vec<Value>, pc: usize) -> (r: Result<
    (),
    Error,
>)
    requires
        instruction is MOVE,
    ensures
        match r {
            Ok(()) => instruction->MOVE_dst < old(registers)@.len() && instruction->MOVE_src < old(
                registers,
            )@.len() && final(registers)@ == old(registers)@.update(
                instruction->MOVE_dst as int,
                old(registers)@[instruction->MOVE_src as int],
            ),
            Err(e) => !(instruction->MOVE_dst < old(registers)@.len() && instruction->MOVE_src
                < old(registers)@.len()) && e == (Error { pc }) && final(registers)@ == old(
                registers,
            )@,
        },
{
    match instruction {
        Instruction::MOVE { dst, src } => {
            if (dst as usize) < registers.len() && (src as usize) < registers.len() {
                let value = registers[src as usize];
                registers[dst as usize] = value;
                Ok(())
            } else {
                Err(impl_error(pc))
            }
        },
        _ => Ok(()),
    }
}

/// Executes the tape from its first instruction on the given registers, until
/// `STOP` or a failure.
pub fn execute(tape: &[Instruction], registers: &mut Vec<Value>) -> (r: Result<(), Error>)
    ensures
        final(registers)@ == run_from(tape@, 0, old(registers)@).registers,
        r == match run_from(tape@, 0, old(registers)@).error {
            None => Ok::<(), Error>(()),
            Some(e) => Err::<(), Error>(e),
        },
{
    let mut pc: usize = 0;
    while pc < tape.len()
        invariant
            pc <= tape@.len(),
            run_from(tape@, pc as int, registers@) == run_from(tape@, 0, old(registers)@),
        decreases tape@.len() - pc,
    {
        let instruction = tape[pc];
        match instruction {
            Instruction::STOP => {
                return Ok(());
            },
            Instruction::MOVE { .. } => {
                match op_move(instruction, registers, pc) {
                    Ok(()) => {},
                    Err(e) => {
                        return Err(e);
                    },
                }
            },
            _ => {},
        }
        pc = pc + 1;
    }
    Err(impl_error(pc))
}

/// Runs the tape to its `STOP` on a thread that has no registers yet. The
/// tape must not fail there: it must reach a `STOP` without a `MOVE` on the
/// way.
pub fn run(tape: &[Instruction], thread: &mut Thread)
    requires
        run_from(tape@, 0, Seq::<Value>::empty()).error is None,
    ensures
        *final(thread) == *old(thread),
{
    let mut registers: Vec<Value> = Vec::new();
    let _ = execute(tape, &mut registers);
}

} // verus!
