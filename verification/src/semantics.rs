//! The mathematical model of execution: an abstract machine state, a
//! one-instruction step function, and a fuelled executor, together with the
//! lemmas that make the model usable — a terminal outcome is stable under
//! more fuel, and execution is deterministic.

use vstd::prelude::*;

use crate::token::BrainfuckToken;

verus! {

/// The number of cells on the tape.
pub const BRAINFUCK_MEMORY_SIZE: usize = 4096;

/// The classified unrecoverable errors that terminate a run.
#[derive(Clone, Copy, PartialEq, Eq, Structural, Debug)]
pub enum BrainfuckFault {
    /// The data pointer moved below zero or to or beyond the tape length.
    BoundsFault,
    /// A loop-end executed while the address stack was empty: no matching
    /// loop-start was ever recorded.
    UnbalancedLoopFault,
    /// An input instruction was reached but no further input bytes were
    /// available.
    InputExhaustionFault,
}

/// The abstract state of the machine in the middle of a run: the tape, the
/// data pointer, the instruction pointer, the address stack, how much of the
/// input has been consumed, and the output emitted so far.
#[verifier::ext_equal]
pub ghost struct ExecState {
    pub mem: Seq<u8>,
    pub mp: int,
    pub pc: int,
    pub stack: Seq<int>,
    pub in_pos: int,
    pub out: Seq<u8>,
}

/// What one instruction does: either the next state, or a fault. A faulting
/// instruction leaves every component unchanged except the already-advanced
/// instruction pointer.
pub ghost enum StepOutcome {
    Next(ExecState),
    Fault(BrainfuckFault, ExecState),
}

/// The result of running with a given amount of fuel: still running, halted
/// normally (instruction pointer ran off the end of the program), or faulted.
pub ghost enum RunOutcome {
    Running(ExecState),
    Halted(ExecState),
    Faulted(BrainfuckFault, ExecState),
}

/// The current cell incremented, wrapping modulo 256.
pub open spec fn inc_cell(v: u8) -> u8 {
    (((v as int) + 1) % 256) as u8
}

/// The current cell decremented, wrapping modulo 256.
pub open spec fn dec_cell(v: u8) -> u8 {
    (((v as int) + 255) % 256) as u8
}

/// Law: cell arithmetic is exactly modulo 256. Incrementing is addition of
/// one modulo 256 and decrementing is subtraction of one modulo 256, so the
/// two invert each other; in particular incrementing a cell holding 255
/// yields 0, and decrementing a cell holding 0 yields 255.
pub proof fn lemma_cell_arithmetic_mod_256(v: u8)
    ensures
        inc_cell(v) as int == ((v as int) + 1) % 256,
        dec_cell(v) as int == (((v as int) - 1) + 256) % 256,
        dec_cell(inc_cell(v)) == v,
        inc_cell(dec_cell(v)) == v,
        inc_cell(255u8) == 0u8,
        dec_cell(0u8) == 255u8,
{
}

/// Executes the single instruction at the instruction pointer: fetch,
/// advance the instruction pointer, dispatch.
pub open spec fn step(prog: Seq<BrainfuckToken>, input: Seq<u8>, s: ExecState) -> StepOutcome
    recommends
        0 <= s.pc < prog.len(),
{
    let s1 = ExecState {
        mem: s.mem,
        mp: s.mp,
        pc: s.pc + 1,
        stack: s.stack,
        in_pos: s.in_pos,
        out: s.out,
    };
    match prog[s.pc] {
        BrainfuckToken::IncMemoryPointer => {
            if s.mp + 1 < BRAINFUCK_MEMORY_SIZE {
                StepOutcome::Next(ExecState { mp: s.mp + 1, ..s1 })
            } else {
                StepOutcome::Fault(BrainfuckFault::BoundsFault, s1)
            }
        },
        BrainfuckToken::DecMemoryPointer => {
            if s.mp > 0 {
                StepOutcome::Next(ExecState { mp: s.mp - 1, ..s1 })
            } else {
                StepOutcome::Fault(BrainfuckFault::BoundsFault, s1)
            }
        },
        BrainfuckToken::IncMemory => StepOutcome::Next(
            ExecState { mem: s.mem.update(s.mp, inc_cell(s.mem[s.mp])), ..s1 },
        ),
        BrainfuckToken::DecMemory => StepOutcome::Next(
            ExecState { mem: s.mem.update(s.mp, dec_cell(s.mem[s.mp])), ..s1 },
        ),
        BrainfuckToken::Output => StepOutcome::Next(
            ExecState { out: s.out.push(s.mem[s.mp]), ..s1 },
        ),
        BrainfuckToken::Input => {
            if s.in_pos < input.len() {
                StepOutcome::Next(
                    ExecState {
                        mem: s.mem.update(s.mp, input[s.in_pos]),
                        in_pos: s.in_pos + 1,
                        ..s1
                    },
                )
            } else {
                StepOutcome::Fault(BrainfuckFault::InputExhaustionFault, s1)
            }
        },
        BrainfuckToken::LoopStart => StepOutcome::Next(
            ExecState { stack: s.stack.push(s.pc + 1), ..s1 },
        ),
        BrainfuckToken::LoopEnd => {
            if s.stack.len() == 0 {
                StepOutcome::Fault(BrainfuckFault::UnbalancedLoopFault, s1)
            } else if s.mem[s.mp] != 0 {
                StepOutcome::Next(ExecState { pc: s.stack.last(), ..s1 })
            } else {
                StepOutcome::Next(ExecState { stack: s.stack.drop_last(), ..s1 })
            }
        },
    }
}

/// Runs at most `n` instructions from `s`: halts as soon as the instruction
/// pointer reaches the program length, stops at the first fault, and reports
/// `Running` when the fuel runs out first.
pub open spec fn exec_n(
    prog: Seq<BrainfuckToken>,
    input: Seq<u8>,
    s: ExecState,
    n: nat,
) -> RunOutcome
    decreases n,
{
    if s.pc >= prog.len() {
        RunOutcome::Halted(s)
    } else if n == 0 {
        RunOutcome::Running(s)
    } else {
        match step(prog, input, s) {
            StepOutcome::Next(s2) => exec_n(prog, input, s2, (n - 1) as nat),
            StepOutcome::Fault(f, s2) => RunOutcome::Faulted(f, s2),
        }
    }
}

/// One more unit of fuel executes exactly one more instruction from the
/// state an exhausted execution stopped in.
pub proof fn lemma_exec_n_extend(prog: Seq<BrainfuckToken>, input: Seq<u8>, s: ExecState, n: nat)
    requires
        exec_n(prog, input, s, n) is Running,
    ensures
        exec_n(prog, input, s, (n + 1) as nat) == (match step(
            prog,
            input,
            exec_n(prog, input, s, n)->Running_0,
        ) {
            StepOutcome::Next(s2) => exec_n(prog, input, s2, 0),
            StepOutcome::Fault(f, s2) => RunOutcome::Faulted(f, s2),
        }),
    decreases n,
{
    if n == 0 {
    } else {
        match step(prog, input, s) {
            StepOutcome::Next(s2) => {
                lemma_exec_n_extend(prog, input, s2, (n - 1) as nat);
            },
            StepOutcome::Fault(_, _) => {},
        }
    }
}

/// A terminal outcome — halt or fault — does not change under more fuel.
pub proof fn lemma_exec_n_stable(
    prog: Seq<BrainfuckToken>,
    input: Seq<u8>,
    s: ExecState,
    n: nat,
    m: nat,
)
    requires
        n <= m,
        !(exec_n(prog, input, s, n) is Running),
    ensures
        exec_n(prog, input, s, m) == exec_n(prog, input, s, n),
    decreases n,
{
    if s.pc >= prog.len() {
    } else {
        match step(prog, input, s) {
            StepOutcome::Next(s2) => {
                lemma_exec_n_stable(prog, input, s2, (n - 1) as nat, (m - 1) as nat);
            },
            StepOutcome::Fault(_, _) => {},
        }
    }
}

/// Law: execution is deterministic. From one starting state on one program
/// and one input there is exactly one terminal outcome: any two fuel amounts
/// that suffice to halt or fault reach the same outcome — the same output,
/// the same fault if any, and the same final state.
pub proof fn lemma_execution_deterministic(
    prog: Seq<BrainfuckToken>,
    input: Seq<u8>,
    s: ExecState,
    n1: nat,
    n2: nat,
)
    requires
        !(exec_n(prog, input, s, n1) is Running),
        !(exec_n(prog, input, s, n2) is Running),
    ensures
        exec_n(prog, input, s, n1) == exec_n(prog, input, s, n2),
{
    if n1 <= n2 {
        lemma_exec_n_stable(prog, input, s, n1, n2);
    } else {
        lemma_exec_n_stable(prog, input, s, n2, n1);
    }
}

} // verus!
