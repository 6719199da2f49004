//! The execution engine: the machine that holds the tape, the two pointers,
//! the loaded program and the address stack, and runs the program by
//! repeated fetch-dispatch-execute. Its behaviour is pinned to the abstract
//! step semantics of `semantics`.

use vstd::prelude::*;
use vstd::pervasive::VecAdditionalExecFns;

use crate::semantics::BRAINFUCK_MEMORY_SIZE;
use crate::semantics::BrainfuckFault;
use crate::semantics::ExecState;
use crate::semantics::RunOutcome;
use crate::semantics::StepOutcome;
use crate::semantics::exec_n;
use crate::semantics::lemma_exec_n_extend;
use crate::semantics::lemma_exec_n_stable;
use crate::semantics::lemma_execution_deterministic;
use crate::semantics::step;
use crate::stack::BrainfuckCallStack;
use crate::token::BrainfuckToken;
use crate::token::token_of;
use crate::token::tokens_of;
use crate::token::lemma_tokens_of_push;

verus! {

/// What a finished run hands back: the bytes the program emitted, in order,
/// and the fault that stopped it, if any. `fault == None` means the run
/// halted normally with the instruction pointer at the program's end.
pub struct RunResult {
    pub output: Vec<u8>,
    pub fault: Option<BrainfuckFault>,
}

/// The saved addresses of the stack as mathematical integers.
pub open spec fn stack_ints(s: Seq<usize>) -> Seq<int> {
    s.map_values(|v: usize| v as int)
}

/// Whether execution from `s` reaches a terminal outcome — a normal halt or
/// a fault — within some finite number of instructions.
pub open spec fn terminates(prog: Seq<BrainfuckToken>, input: Seq<u8>, s: ExecState) -> bool {
    exists|n: nat| !(#[trigger] exec_n(prog, input, s, n) is Running)
}

/// Whether the machine's fields agree with an abstract state, output aside.
pub open spec fn machine_matches(m: BrainfuckMachine, s: ExecState) -> bool {
    &&& m.memory@ == s.mem
    &&& m.memory_pointer as int == s.mp
    &&& m.program_counter as int == s.pc
    &&& stack_ints(m.callstack@) == s.stack
}

/// Whether a run's outcome in the abstract semantics is what the machine
/// and the returned `RunResult` show: a normal halt returns no fault, a
/// fault returns its classification, and in either case the machine's state
/// and the returned output are those of the terminal abstract state.
pub open spec fn run_matches(o: RunOutcome, m: BrainfuckMachine, r: RunResult) -> bool {
    match o {
        RunOutcome::Running(_) => false,
        RunOutcome::Halted(s) => {
            &&& r.fault is None
            &&& machine_matches(m, s)
            &&& r.output@ == s.out
        },
        RunOutcome::Faulted(f, s) => {
            &&& r.fault == Some(f)
            &&& machine_matches(m, s)
            &&& r.output@ == s.out
        },
    }
}

/// The interpreter: a fixed-size zero-initialized tape, a data pointer, an
/// instruction pointer, the loaded program, and the address stack that
/// implements looping.
pub struct BrainfuckMachine {
    pub callstack: BrainfuckCallStack,
    pub program: Vec<BrainfuckToken>,
    pub memory: Vec<u8>,
    pub memory_pointer: usize,
    pub program_counter: usize,
}

impl BrainfuckMachine {
    /// The machine's invariant: the tape has exactly `BRAINFUCK_MEMORY_SIZE`
    /// cells and the data pointer stays inside it.
    pub open spec fn wf(self) -> bool {
        &&& self.memory@.len() == BRAINFUCK_MEMORY_SIZE
        &&& self.memory_pointer < BRAINFUCK_MEMORY_SIZE
    }

    /// The abstract state this machine is in, given how much input has been
    /// consumed and what output has been emitted so far in the current run.
    pub open spec fn abstract_state(self, in_pos: int, out: Seq<u8>) -> ExecState {
        ExecState {
            mem: self.memory@,
            mp: self.memory_pointer as int,
            pc: self.program_counter as int,
            stack: stack_ints(self.callstack@),
            in_pos: in_pos,
            out: out,
        }
    }

    /// A fresh machine: empty program, empty address stack, all tape cells
    /// zero, both pointers zero.
    pub fn new() -> (r: BrainfuckMachine)
        ensures
            r.wf(),
            r.program@ == Seq::<BrainfuckToken>::empty(),
            r.callstack@ == Seq::<usize>::empty(),
            r.memory@.len() == BRAINFUCK_MEMORY_SIZE,
            forall|i: int| 0 <= i < r.memory@.len() ==> r.memory@[i] == 0u8,
            r.memory_pointer == 0,
            r.program_counter == 0,
    {
        let mut memory: Vec<u8> = Vec::new();
        let mut i: usize = 0;

        while i < BRAINFUCK_MEMORY_SIZE
            invariant
                i <= BRAINFUCK_MEMORY_SIZE,
                memory@.len() == i,
                forall|j: int| 0 <= j < i ==> memory@[j] == 0u8,
            decreases BRAINFUCK_MEMORY_SIZE - i,
        {
            memory.push(0u8);
            i += 1;
        }

        BrainfuckMachine {
            callstack: BrainfuckCallStack::new(),
            program: Vec::new(),
            memory,
            memory_pointer: 0,
            program_counter: 0,
        }
    }

    /// Replaces the loaded program with the token sequence of `source`:
    /// every character of the instruction alphabet becomes its token, in
    /// source order, and every other character is silently dropped. The
    /// tape, the pointers and the address stack are untouched.
    pub fn load_program(&mut self, source: &str)
        ensures
            final(self).program@ == tokens_of(source@),
            final(self).callstack == old(self).callstack,
            final(self).memory == old(self).memory,
            final(self).memory_pointer == old(self).memory_pointer,
            final(self).program_counter == old(self).program_counter,
    {
        self.program.clear();

        let n = source.unicode_len();
        let mut i: usize = 0;

        while i < n
            invariant
                i <= n,
                n == source@.len(),
                self.program@ == tokens_of(source@.take(i as int)),
                self.callstack == old(self).callstack,
                self.memory == old(self).memory,
                self.memory_pointer == old(self).memory_pointer,
                self.program_counter == old(self).program_counter,
            decreases n - i,
        {
            let c = source.get_char(i);
            let token = BrainfuckMachine::tokenise(c);

            if token.is_some() {
                self.program.push(token.unwrap());
            }

            proof {
                assert(source@.take(i + 1).drop_last() =~= source@.take(i as int));
                assert(source@.take(i + 1) =~= source@.take(i as int).push(source@[i as int]));
                lemma_tokens_of_push(source@.take(i as int), source@[i as int]);
            }

            i += 1;
        }

        proof {
            assert(source@.take(n as int) =~= source@);
        }
    }

    /// How many tokens the loaded program holds.
    pub fn token_count(&self) -> (r: usize)
        ensures
            r == self.program@.len(),
    {
        self.program.len()
    }

    /// Maps one character through the fixed character-to-token table;
    /// characters outside the instruction alphabet map to `None`.
    pub fn tokenise(c: char) -> (r: Option<BrainfuckToken>)
        ensures
            r == token_of(c),
    {
        if c == '<' {
            Some(BrainfuckToken::DecMemoryPointer)
        } else if c == '>' {
            Some(BrainfuckToken::IncMemoryPointer)
        } else if c == '+' {
            Some(BrainfuckToken::IncMemory)
        } else if c == '-' {
            Some(BrainfuckToken::DecMemory)
        } else if c == '.' {
            Some(BrainfuckToken::Output)
        } else if c == ',' {
            Some(BrainfuckToken::Input)
        } else if c == '[' {
            Some(BrainfuckToken::LoopStart)
        } else if c == ']' {
            Some(BrainfuckToken::LoopEnd)
        } else {
            None
        }
    }

    /// The abstract state a run starts from: the machine's tape, program and
    /// address stack as they stand, both pointers reset to zero, no input
    /// consumed, no output emitted.
    pub open spec fn run_start(self) -> ExecState {
        ExecState {
            mem: self.memory@,
            mp: 0,
            pc: 0,
            stack: stack_ints(self.callstack@),
            in_pos: 0,
            out: Seq::empty(),
        }
    }

    /// Runs the loaded program to completion against `input`: resets the
    /// data and instruction pointers, then repeatedly fetches the token at
    /// the instruction pointer, advances it, and dispatches, until the
    /// instruction pointer reaches the program length (normal halt) or a
    /// fault occurs. The result is exactly the terminal outcome of the
    /// abstract semantics from `run_start`. The contract assumes a halting
    /// execution; on a program that never halts nor faults the call never
    /// returns, and nothing is promised.
    pub fn run(&mut self, input: &Vec<u8>) -> (r: RunResult)
        requires
            old(self).wf(),
            terminates(old(self).program@, input@, old(self).run_start()),
        ensures
            final(self).wf(),
            final(self).program == old(self).program,
            exists|n: nat|
                run_matches(
                    #[trigger] exec_n(old(self).program@, input@, old(self).run_start(), n),
                    *final(self),
                    r,
                ),
    {
        self.program_counter = 0;
        self.memory_pointer = 0;

        let mut out: Vec<u8> = Vec::new();
        let mut in_pos: usize = 0;

        let ghost prog = old(self).program@;
        let ghost s0 = old(self).run_start();
        let ghost mut steps: nat = 0;
        let ghost fuel = choose|n: nat| !(#[trigger] exec_n(prog, input@, s0, n) is Running);

        proof {
            assert(self.abstract_state(in_pos as int, out@) =~= s0);
        }

        while self.program_counter < self.program.len()
            invariant
                self.wf(),
                self.program == old(self).program,
                self.program@ == prog,
                prog == old(self).program@,
                s0 == old(self).run_start(),
                in_pos <= input@.len(),
                !(exec_n(prog, input@, s0, fuel) is Running),
                exec_n(prog, input@, s0, steps) == (if self.program_counter >= prog.len() {
                    RunOutcome::Halted(self.abstract_state(in_pos as int, out@))
                } else {
                    RunOutcome::Running(self.abstract_state(in_pos as int, out@))
                }),
            decreases fuel - steps,
        {
            let ghost pre_iter = self.abstract_state(in_pos as int, out@);

            proof {
                if steps >= fuel {
                    lemma_exec_n_stable(prog, input@, s0, fuel, steps);
                }
            }

            let token = self.program[self.program_counter];
            self.program_counter += 1;

            let ghost mid = *self;
            let res = self.do_token(token, input, &mut in_pos, &mut out);

            proof {
                assert((ExecState {
                    pc: mid.program_counter - 1,
                    ..mid.abstract_state(pre_iter.in_pos, pre_iter.out)
                }) =~= pre_iter);
                lemma_exec_n_extend(prog, input@, s0, steps);
                steps = steps + 1;
            }

            if let Some(f) = res {
                proof {
                    assert(run_matches(
                        exec_n(old(self).program@, input@, old(self).run_start(), steps),
                        *self,
                        RunResult { output: out, fault: Some(f) },
                    ));
                }
                return RunResult { output: out, fault: Some(f) };
            }
        }

        RunResult { output: out, fault: None }
    }

    /// Law: a run is reproducible. The outcome of `run` is a function of the
    /// loaded program, the tape contents and the address stack at the start
    /// of the run, and the input alone — the data and instruction pointers
    /// are reset and have no influence. Two machines that agree on those,
    /// given the same input, reach the same terminal outcome: the same
    /// output, the same fault if any, and the same final state.
    pub proof fn lemma_run_reproducible(
        m1: BrainfuckMachine,
        m2: BrainfuckMachine,
        input: Seq<u8>,
        n1: nat,
        n2: nat,
    )
        requires
            m1.program@ == m2.program@,
            m1.memory@ == m2.memory@,
            m1.callstack@ == m2.callstack@,
            !(exec_n(m1.program@, input, m1.run_start(), n1) is Running),
            !(exec_n(m2.program@, input, m2.run_start(), n2) is Running),
        ensures
            exec_n(m1.program@, input, m1.run_start(), n1) == exec_n(
                m2.program@,
                input,
                m2.run_start(),
                n2,
            ),
    {
        assert(m1.run_start() =~= m2.run_start());
        lemma_execution_deterministic(m1.program@, input, m1.run_start(), n1, n2);
    }

    /// Dispatches one already-fetched token. The instruction pointer has
    /// already been advanced past the token; this either performs the
    /// token's effect and returns `None`, or detects a fault, changes
    /// nothing further, and returns it.
    fn do_token(
        &mut self,
        token: BrainfuckToken,
        input: &Vec<u8>,
        in_pos: &mut usize,
        out: &mut Vec<u8>,
    ) -> (r: Option<BrainfuckFault>)
        requires
            old(self).wf(),
            1 <= old(self).program_counter <= old(self).program@.len(),
            token == old(self).program@[old(self).program_counter - 1],
            *old(in_pos) <= input@.len(),
        ensures
            final(self).wf(),
            final(self).program == old(self).program,
            *final(in_pos) <= input@.len(),
            ({
                let pre = ExecState {
                    pc: old(self).program_counter - 1,
                    ..old(self).abstract_state(*old(in_pos) as int, old(out)@)
                };
                let post = final(self).abstract_state(*final(in_pos) as int, final(out)@);
                match step(old(self).program@, input@, pre) {
                    StepOutcome::Next(s2) => r is None && post == s2,
                    StepOutcome::Fault(f, s2) => r == Some(f) && post == s2,
                }
            }),
    {
        match token {
            BrainfuckToken::IncMemoryPointer => {
                if self.memory_pointer + 1 < BRAINFUCK_MEMORY_SIZE {
                    self.memory_pointer += 1;
                    None
                } else {
                    Some(BrainfuckFault::BoundsFault)
                }
            },
            BrainfuckToken::DecMemoryPointer => {
                if self.memory_pointer > 0 {
                    self.memory_pointer -= 1;
                    None
                } else {
                    Some(BrainfuckFault::BoundsFault)
                }
            },
            BrainfuckToken::IncMemory => {
                let v = self.memory[self.memory_pointer];
                self.memory.set(self.memory_pointer, v.wrapping_add(1));
                None
            },
            BrainfuckToken::DecMemory => {
                let v = self.memory[self.memory_pointer];
                self.memory.set(self.memory_pointer, v.wrapping_sub(1));
                None
            },
            BrainfuckToken::Output => {
                out.push(self.memory[self.memory_pointer]);
                None
            },
            BrainfuckToken::Input => {
                let i = *in_pos;
                if i < input.len() {
                    self.memory.set(self.memory_pointer, input[i]);
                    *in_pos = i + 1;
                    None
                } else {
                    Some(BrainfuckFault::InputExhaustionFault)
                }
            },
            BrainfuckToken::LoopStart => {
                self.callstack.push(self.program_counter);
                proof {
                    assert(stack_ints(old(self).callstack@.push(old(self).program_counter))
                        =~= stack_ints(old(self).callstack@).push(old(self).program_counter as int));
                }
                None
            },
            BrainfuckToken::LoopEnd => {
                let cell = self.memory[self.memory_pointer];
                match self.callstack.top() {
                    None => Some(BrainfuckFault::UnbalancedLoopFault),
                    Some(t) => {
                        if cell > 0 {
                            self.program_counter = t;
                            None
                        } else {
                            self.callstack.pop();
                            proof {
                                assert(stack_ints(old(self).callstack@.drop_last())
                                    =~= stack_ints(old(self).callstack@).drop_last());
                            }
                            None
                        }
                    },
                }
            },
        }
    }
}

} // verus!
