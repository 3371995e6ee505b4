//! Whole runs: the small-step trace semantics and a complete executor
//! over in-memory byte streams.
//!
//! A [`Trace`] carries one machine configuration together with the
//! input not yet read and the output written so far. [`step_trace`]
//! advances a trace by one operation; a trace whose status is not
//! [`RunStatus::Running`] is final and steps to itself, so output
//! already written stays written and no further operation runs.
//! [`execute`] iterates the steps and its contract says exactly that:
//! what it returns is a trace some number of steps into the run, at
//! the first point whose status is no longer `Running`.

use vstd::prelude::*;

use crate::Operation;
use crate::machine::Config;
use crate::machine::Machine;
use crate::machine::Step;
use crate::machine::accept_config;
use crate::machine::step_config;
use crate::matching::has_matching_end;
use crate::matching::has_matching_start;
use crate::matching::is_matching_end;
use crate::matching::is_matching_start;
use crate::matching::lemma_spec_end_index_in_range;
use crate::matching::lemma_spec_start_index_in_range;

verus! {

/// One point of a run: the machine configuration, the input bytes not
/// yet read, and the output bytes written so far.
pub ghost struct Trace {
    pub cfg: Config,
    pub input: Seq<u8>,
    pub output: Seq<u8>,
}

/// How a run stands or ended.
#[derive(Clone, Copy, Debug, PartialEq, Eq, Structural)]
pub enum RunStatus {
    /// More operations remain and the next one can run.
    Running,
    /// The program counter reached the end of the program.
    Completed,
    /// An `Accept` found the input stream exhausted; fatal.
    InputExhausted,
    /// A move would have taken the pointer off the tape; fatal.
    OutOfBounds,
}

/// The status of a trace: whether its next operation can run, and if
/// not, why the run is over.
pub open spec fn trace_status(t: Trace) -> RunStatus {
    let c = t.cfg;
    if c.at_end() {
        RunStatus::Completed
    } else {
        match c.cur_op() {
            Operation::Left => if c.pointer == 0 {
                RunStatus::OutOfBounds
            } else {
                RunStatus::Running
            },
            Operation::Right => if c.pointer + 1 == c.tape.len() {
                RunStatus::OutOfBounds
            } else {
                RunStatus::Running
            },
            Operation::Accept => if t.input.len() == 0 {
                RunStatus::InputExhausted
            } else {
                RunStatus::Running
            },
            _ => RunStatus::Running,
        }
    }
}

/// One small step of a run. A trace that is not running is final and
/// steps to itself. Otherwise `Accept` consumes the first input byte,
/// `Output` appends the current cell to the output, and every other
/// operation only changes the configuration.
pub open spec fn step_trace(t: Trace) -> Trace {
    if trace_status(t) != RunStatus::Running {
        t
    } else if t.cfg.cur_op() == Operation::Accept {
        Trace { cfg: accept_config(t.cfg, t.input[0]), input: t.input.drop_first(), output: t.output }
    } else if t.cfg.cur_op() == Operation::Output {
        Trace { cfg: step_config(t.cfg), input: t.input, output: t.output.push(t.cfg.cur_cell()) }
    } else {
        Trace { cfg: step_config(t.cfg), input: t.input, output: t.output }
    }
}

/// The trace `n` steps into a run.
pub open spec fn iterate(t: Trace, n: nat) -> Trace
    decreases n,
{
    if n == 0 {
        t
    } else {
        step_trace(iterate(t, (n - 1) as nat))
    }
}

/// The trace a whole run starts from: zeroed machine state, the full
/// input stream ahead, and no output written.
pub open spec fn init_trace(program: Seq<Operation>, input: Seq<u8>) -> Trace {
    Trace { cfg: Config::init(program), input, output: Seq::empty() }
}

/// A trace that is not running is final: however many steps follow,
/// no further operation runs, no further output appears, and no
/// output already written is taken back.
pub proof fn lemma_final_trace_stays(t: Trace, n: nat)
    requires
        trace_status(t) != RunStatus::Running,
    ensures
        iterate(t, n) == t,
    decreases n,
{
    if n > 0 {
        lemma_final_trace_stays(t, (n - 1) as nat);
    }
}

/// The starting trace of a run is well-formed.
pub proof fn lemma_init_trace_wf(program: Seq<Operation>, input: Seq<u8>)
    requires
        program.len() < usize::MAX,
    ensures
        init_trace(program, input).cfg.wf(),
{
}

/// One step keeps the configuration well-formed — the tape keeps its
/// fixed length with every cell a byte, the pointer stays on the
/// tape, the program counter stays within bounds — and never touches
/// the program itself.
pub proof fn lemma_step_trace_preserves_wf(t: Trace)
    requires
        t.cfg.wf(),
    ensures
        step_trace(t).cfg.wf(),
        step_trace(t).cfg.program == t.cfg.program,
{
    lemma_spec_end_index_in_range(t.cfg.program, t.cfg.index);
    lemma_spec_start_index_in_range(t.cfg.program, t.cfg.index);
}

/// Well-formedness is an invariant of a whole run: it holds after any
/// number of steps from a well-formed trace, and the program is never
/// mutated.
pub proof fn lemma_iterate_preserves_wf(t: Trace, n: nat)
    requires
        t.cfg.wf(),
    ensures
        iterate(t, n).cfg.wf(),
        iterate(t, n).cfg.program == t.cfg.program,
    decreases n,
{
    if n > 0 {
        lemma_iterate_preserves_wf(t, (n - 1) as nat);
        lemma_step_trace_preserves_wf(iterate(t, (n - 1) as nat));
    }
}

/// Stepping `a + b` times is stepping `a` times, then `b` times.
pub proof fn lemma_iterate_add(t: Trace, a: nat, b: nat)
    ensures
        iterate(t, a + b) == iterate(iterate(t, a), b),
    decreases b,
{
    if b > 0 {
        lemma_iterate_add(t, a, (b - 1) as nat);
        assert(iterate(t, a + b) == step_trace(iterate(t, (a + b - 1) as nat)));
    }
}

/// The end of a run is unique: any two points of the same run at
/// which it is no longer running are the same trace — the first final
/// trace persists unchanged.
pub proof fn lemma_run_end_unique(t: Trace, n1: nat, n2: nat)
    requires
        trace_status(iterate(t, n1)) != RunStatus::Running,
        trace_status(iterate(t, n2)) != RunStatus::Running,
    ensures
        iterate(t, n1) == iterate(t, n2),
{
    if n1 <= n2 {
        lemma_iterate_add(t, n1, (n2 - n1) as nat);
        lemma_final_trace_stays(iterate(t, n1), (n2 - n1) as nat);
    } else {
        lemma_iterate_add(t, n2, (n1 - n2) as nat);
        lemma_final_trace_stays(iterate(t, n2), (n1 - n2) as nat);
    }
}

/// Loop skip: stepping a running trace whose operation is a forward
/// jump over a zero cell, with a matching closing boundary ahead,
/// transfers control to one past that boundary — the loop body runs
/// zero times — and touches neither tape, pointer, input nor output.
pub proof fn lemma_loop_skip(t: Trace)
    requires
        trace_status(t) == RunStatus::Running,
        t.cfg.cur_op() == Operation::Forward,
        t.cfg.cur_cell() == 0,
        has_matching_end(t.cfg.program, t.cfg.index),
    ensures
        is_matching_end(t.cfg.program, t.cfg.index, step_trace(t).cfg.index - 1),
        step_trace(t).cfg.tape == t.cfg.tape,
        step_trace(t).cfg.pointer == t.cfg.pointer,
        step_trace(t).input == t.input,
        step_trace(t).output == t.output,
{
    lemma_spec_end_index_in_range(t.cfg.program, t.cfg.index);
}

/// Loop repeat: stepping a running trace whose operation is a
/// backward jump over a nonzero cell, with a matching opening
/// boundary behind, transfers control back to that boundary itself —
/// not past it, so the loop body can run again — and touches neither
/// tape, pointer, input nor output.
pub proof fn lemma_loop_repeat(t: Trace)
    requires
        trace_status(t) == RunStatus::Running,
        t.cfg.cur_op() == Operation::Backward,
        t.cfg.cur_cell() != 0,
        has_matching_start(t.cfg.program, t.cfg.index),
    ensures
        is_matching_start(t.cfg.program, t.cfg.index, step_trace(t).cfg.index),
        step_trace(t).cfg.tape == t.cfg.tape,
        step_trace(t).cfg.pointer == t.cfg.pointer,
        step_trace(t).input == t.input,
        step_trace(t).output == t.output,
{
    lemma_spec_start_index_in_range(t.cfg.program, t.cfg.index);
}

/// Run a program against a fixed input stream, collecting the output
/// stream, for at most `fuel` operations. The result is the output
/// and status of the trace `n` steps into the run, where `n` is the
/// first point at which the run is over — completed, input exhausted
/// at an `Accept`, or a pointer move refused — or `fuel` itself when
/// the budget ran out with the run still going (and only then is the
/// returned status `Running`). Output written before a fatal end is
/// kept.
pub fn execute(program: Vec<Operation>, input: Vec<u8>, fuel: usize) -> (r: (Vec<u8>, RunStatus))
    requires
        program@.len() < usize::MAX,
    ensures
        exists|n: nat|
            n <= fuel && trace_status(iterate(init_trace(program@, input@), n)) == r.1 && iterate(
                init_trace(program@, input@),
                n,
            ).output == r.0@ && (r.1 == RunStatus::Running ==> n == fuel),
{
    let ghost t0 = init_trace(program@, input@);
    let mut m = Machine::new(program);
    let mut out: Vec<u8> = Vec::new();
    let mut pos: usize = 0;
    let mut remaining: usize = fuel;
    let ghost mut steps: nat = 0;
    proof {
        assert(input@.skip(0) =~= input@);
        assert(iterate(t0, 0) == (Trace { cfg: m@, input: input@.skip(pos as int), output: out@ }));
    }
    loop
        invariant
            m@.wf(),
            pos <= input@.len(),
            steps + remaining == fuel,
            iterate(t0, steps) == (Trace { cfg: m@, input: input@.skip(pos as int), output: out@ }),
            t0 == init_trace(program@, input@),
        decreases remaining,
    {
        let ghost tcur = iterate(t0, steps);
        let eff = m.step();
        match eff {
            Step::Halted => {
                proof {
                    assert(trace_status(tcur) == RunStatus::Completed);
                }
                return (out, RunStatus::Completed);
            },
            Step::OutOfBounds => {
                proof {
                    assert(trace_status(tcur) == RunStatus::OutOfBounds);
                }
                return (out, RunStatus::OutOfBounds);
            },
            Step::AwaitingInput => {
                if pos < input.len() {
                    proof {
                        assert(trace_status(tcur) == RunStatus::Running);
                    }
                    if remaining == 0 {
                        return (out, RunStatus::Running);
                    }
                    remaining = remaining - 1;
                    let b = input[pos];
                    proof {
                        assert(input@.skip(pos as int)[0] == input@[pos as int]);
                        assert(input@.skip(pos as int).drop_first() =~= input@.skip(pos + 1));
                    }
                    pos = pos + 1;
                    m.supply_input(b);
                    proof {
                        steps = steps + 1;
                        assert(iterate(t0, steps) == step_trace(tcur));
                    }
                } else {
                    proof {
                        assert(input@.skip(pos as int).len() == 0);
                        assert(trace_status(tcur) == RunStatus::InputExhausted);
                    }
                    return (out, RunStatus::InputExhausted);
                }
            },
            Step::Emitted(b) => {
                proof {
                    assert(trace_status(tcur) == RunStatus::Running);
                }
                if remaining == 0 {
                    return (out, RunStatus::Running);
                }
                remaining = remaining - 1;
                out.push(b);
                proof {
                    steps = steps + 1;
                    assert(iterate(t0, steps) == step_trace(tcur));
                }
            },
            Step::Stepped => {
                proof {
                    assert(trace_status(tcur) == RunStatus::Running);
                }
                if remaining == 0 {
                    return (out, RunStatus::Running);
                }
                remaining = remaining - 1;
                proof {
                    steps = steps + 1;
                    assert(iterate(t0, steps) == step_trace(tcur));
                }
            },
        }
    }
}

} // verus!
