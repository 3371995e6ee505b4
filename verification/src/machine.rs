//! The execution engine: one machine owns the decoded program, the
//! 300-cell byte tape, the data pointer and the program counter, and
//! dispatches one operation per step.
//!
//! Pointer movement is bounds-checked: a move that would take the
//! pointer off either end of the tape is refused and reported as
//! [`Step::OutOfBounds`], with the machine left unchanged — the tape
//! neither wraps nor grows. Input is
//! likewise explicit: an `Accept` reports [`Step::AwaitingInput`] and
//! the caller completes it with [`Machine::supply_input`] or treats
//! the exhausted stream as fatal.

use vstd::prelude::*;

use crate::Operation;
use crate::matching::find_end_index;
use crate::matching::find_start_index;
use crate::matching::lemma_spec_end_index_in_range;
use crate::matching::lemma_spec_start_index_in_range;
use crate::matching::spec_end_index;
use crate::matching::spec_start_index;

verus! {

/// Number of cells on the tape.
pub const TAPE_LEN: usize = 300;

/// The abstract state of one run: the decoded program, the byte tape,
/// the data pointer and the program counter.
pub ghost struct Config {
    pub program: Seq<Operation>,
    pub tape: Seq<u8>,
    pub pointer: int,
    pub index: int,
}

impl Config {
    /// Well-formedness: the tape has its fixed length, the pointer is
    /// on the tape, and the program counter is at most one past the
    /// last operation.
    pub open spec fn wf(self) -> bool {
        &&& self.tape.len() == TAPE_LEN
        &&& 0 <= self.pointer < self.tape.len()
        &&& 0 <= self.index <= self.program.len()
        &&& self.program.len() < usize::MAX
    }

    /// The program counter has reached the end of the program.
    pub open spec fn at_end(self) -> bool {
        self.index >= self.program.len()
    }

    /// The operation at the program counter.
    pub open spec fn cur_op(self) -> Operation {
        self.program[self.index]
    }

    /// The byte in the cell under the pointer.
    pub open spec fn cur_cell(self) -> u8 {
        self.tape[self.pointer]
    }

    /// This configuration with the program counter set to `index`.
    pub open spec fn with_index(self, index: int) -> Config {
        Config { index, ..self }
    }

    /// This configuration with the pointer moved and the counter set.
    pub open spec fn with_pointer(self, pointer: int, index: int) -> Config {
        Config { pointer, index, ..self }
    }

    /// This configuration with the current cell overwritten and the
    /// counter set.
    pub open spec fn with_cell(self, value: u8, index: int) -> Config {
        Config { tape: self.tape.update(self.pointer, value), index, ..self }
    }

    /// The configuration a run starts from: all cells zero, pointer
    /// and program counter at 0.
    pub open spec fn init(program: Seq<Operation>) -> Config {
        Config {
            program,
            tape: Seq::new(TAPE_LEN as nat, |i: int| 0u8),
            pointer: 0,
            index: 0,
        }
    }
}

/// Wrapping 8-bit increment: 255 rolls over to 0.
pub open spec fn wrap_inc(b: u8) -> u8 {
    if b == 255 {
        0
    } else {
        (b + 1) as u8
    }
}

/// Wrapping 8-bit decrement: 0 rolls over to 255.
pub open spec fn wrap_dec(b: u8) -> u8 {
    if b == 0 {
        255
    } else {
        (b - 1) as u8
    }
}

/// Cell arithmetic wraps and never leaves the byte range: 255
/// incremented is 0, 0 decremented is 255, every other value moves by
/// one, and the result of either operation is a byte in 0..=255.
pub proof fn lemma_wrapping_arithmetic(b: u8)
    ensures
        wrap_inc(255) == 0,
        wrap_dec(0) == 255,
        b < 255 ==> wrap_inc(b) == b + 1,
        b > 0 ==> wrap_dec(b) == b - 1,
        0 <= wrap_inc(b) <= 255,
        0 <= wrap_dec(b) <= 255,
{
}

/// The configuration after the operation at the program counter, for
/// every operation that needs no input byte: moves shift the pointer,
/// arithmetic rewrites the current cell with wrapping, `Output` only
/// advances (the emitted byte is reported separately), and the jumps
/// resolve their boundary and set the counter. `Accept` is the one
/// operation whose effect needs the input byte; for it, and past the
/// end of the program, the configuration is unchanged here.
pub open spec fn step_config(c: Config) -> Config {
    if c.at_end() {
        c
    } else {
        match c.cur_op() {
            Operation::Left => c.with_pointer(c.pointer - 1, c.index + 1),
            Operation::Right => c.with_pointer(c.pointer + 1, c.index + 1),
            Operation::Increment => c.with_cell(wrap_inc(c.cur_cell()), c.index + 1),
            Operation::Decrement => c.with_cell(wrap_dec(c.cur_cell()), c.index + 1),
            Operation::Output => c.with_index(c.index + 1),
            Operation::Accept => c,
            Operation::Forward => if c.cur_cell() == 0 {
                c.with_index(spec_end_index(c.program, c.index) + 1)
            } else {
                c.with_index(c.index + 1)
            },
            Operation::Backward => if c.cur_cell() != 0 {
                c.with_index(spec_start_index(c.program, c.index))
            } else {
                c.with_index(c.index + 1)
            },
        }
    }
}

/// The configuration after the pending `Accept` reads the byte `b`:
/// the byte lands in the current cell and the counter advances.
pub open spec fn accept_config(c: Config, b: u8) -> Config {
    c.with_cell(b, c.index + 1)
}

/// What one dispatch step did, or why it could not run.
#[derive(Clone, Copy, Debug, PartialEq, Eq, Structural)]
pub enum Step {
    /// The operation ran with no side effect on the streams.
    Stepped,
    /// An `Output` ran; the byte is to be appended to the output
    /// stream verbatim.
    Emitted(u8),
    /// The operation is an `Accept`: one input byte is needed and the
    /// machine is unchanged until `supply_input` delivers it.
    AwaitingInput,
    /// The program counter has reached the end of the program.
    Halted,
    /// The move would take the pointer off the tape; the machine is
    /// unchanged.
    OutOfBounds,
}

/// One execution run: the decoded program together with all mutable
/// state, owned exclusively for the duration of the run.
pub struct Machine {
    pub program: Vec<Operation>,
    pub tape: Vec<u8>,
    pub pointer: usize,
    pub index: usize,
}

impl View for Machine {
    type V = Config;

    open spec fn view(&self) -> Config {
        Config {
            program: self.program@,
            tape: self.tape@,
            pointer: self.pointer as int,
            index: self.index as int,
        }
    }
}

impl Machine {
    /// A machine at the start of a run: 300 zeroed cells, pointer and
    /// program counter at 0, owning the program.
    pub fn new(program: Vec<Operation>) -> (m: Machine)
        requires
            program@.len() < usize::MAX,
        ensures
            m@ == Config::init(program@),
            m@.wf(),
    {
        let mut tape: Vec<u8> = Vec::new();
        let mut i: usize = 0;
        while i < TAPE_LEN
            invariant
                i <= TAPE_LEN,
                tape@.len() == i,
                forall|j: int| 0 <= j < i ==> tape@[j] == 0u8,
            decreases TAPE_LEN - i,
        {
            tape.push(0);
            i = i + 1;
        }
        proof {
            assert(tape@ =~= Seq::new(TAPE_LEN as nat, |j: int| 0u8));
        }
        Machine { program, tape, pointer: 0, index: 0 }
    }

    /// True exactly when the next dispatch would wait for input.
    pub fn awaiting_input(&self) -> (r: bool)
        ensures
            r == (!self@.at_end() && self@.cur_op() == Operation::Accept),
    {
        if self.index < self.program.len() {
            match self.program[self.index] {
                Operation::Accept => true,
                _ => false,
            }
        } else {
            false
        }
    }

    /// Dispatch the operation at the program counter and apply its
    /// atomic effect. Moves that would leave the tape are refused
    /// unchanged; an `Accept` leaves the machine unchanged and asks
    /// the caller for one byte; every other operation takes the
    /// machine to `step_config` of its old configuration, with
    /// `Output` reporting the emitted byte.
    pub fn step(&mut self) -> (eff: Step)
        requires
            old(self)@.wf(),
        ensures
            final(self)@.wf(),
            ({
                let c = old(self)@;
                let m = final(self)@;
                if c.at_end() {
                    eff == Step::Halted && m == c
                } else {
                    match c.cur_op() {
                        Operation::Left => if c.pointer == 0 {
                            eff == Step::OutOfBounds && m == c
                        } else {
                            eff == Step::Stepped && m == step_config(c)
                        },
                        Operation::Right => if c.pointer + 1 == c.tape.len() {
                            eff == Step::OutOfBounds && m == c
                        } else {
                            eff == Step::Stepped && m == step_config(c)
                        },
                        Operation::Increment => eff == Step::Stepped && m == step_config(c),
                        Operation::Decrement => eff == Step::Stepped && m == step_config(c),
                        Operation::Output => eff == Step::Emitted(c.cur_cell()) && m
                            == step_config(c),
                        Operation::Accept => eff == Step::AwaitingInput && m == c,
                        Operation::Forward => eff == Step::Stepped && m == step_config(c),
                        Operation::Backward => eff == Step::Stepped && m == step_config(c),
                    }
                }
            }),
    {
        if self.index >= self.program.len() {
            return Step::Halted;
        }
        let op = self.program[self.index];
        match op {
            Operation::Left => {
                if self.pointer == 0 {
                    Step::OutOfBounds
                } else {
                    self.pointer = self.pointer - 1;
                    self.index = self.index + 1;
                    Step::Stepped
                }
            },
            Operation::Right => {
                if self.pointer + 1 == self.tape.len() {
                    Step::OutOfBounds
                } else {
                    self.pointer = self.pointer + 1;
                    self.index = self.index + 1;
                    Step::Stepped
                }
            },
            Operation::Increment => {
                let b = self.tape[self.pointer];
                let nb: u8 = if b == 255 {
                    0
                } else {
                    b + 1
                };
                self.tape.set(self.pointer, nb);
                self.index = self.index + 1;
                Step::Stepped
            },
            Operation::Decrement => {
                let b = self.tape[self.pointer];
                let nb: u8 = if b == 0 {
                    255
                } else {
                    b - 1
                };
                self.tape.set(self.pointer, nb);
                self.index = self.index + 1;
                Step::Stepped
            },
            Operation::Output => {
                let b = self.tape[self.pointer];
                self.index = self.index + 1;
                Step::Emitted(b)
            },
            Operation::Accept => Step::AwaitingInput,
            Operation::Forward => {
                let b = self.tape[self.pointer];
                if b == 0 {
                    let boundary = find_end_index(self.index, &self.program);
                    proof {
                        lemma_spec_end_index_in_range(self.program@, self.index as int);
                    }
                    self.index = boundary + 1;
                } else {
                    self.index = self.index + 1;
                }
                Step::Stepped
            },
            Operation::Backward => {
                let b = self.tape[self.pointer];
                if b != 0 {
                    proof {
                        lemma_spec_start_index_in_range(self.program@, self.index as int);
                    }
                    self.index = find_start_index(self.index, &self.program);
                } else {
                    self.index = self.index + 1;
                }
                Step::Stepped
            },
        }
    }

    /// Complete the pending `Accept` with one input byte: the byte is
    /// stored in the current cell and the program counter advances.
    pub fn supply_input(&mut self, b: u8)
        requires
            old(self)@.wf(),
            !old(self)@.at_end(),
            old(self)@.cur_op() == Operation::Accept,
        ensures
            final(self)@.wf(),
            final(self)@ == accept_config(old(self)@, b),
    {
        self.tape.set(self.pointer, b);
        self.index = self.index + 1;
    }
}

} // verus!
