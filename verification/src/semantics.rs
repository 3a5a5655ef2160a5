//! The dispatcher's semantics, as one mathematical function.
//!
//! [`instr_spec`] maps a machine state, a cell value and a random choice to
//! the next state and a step outcome; it is the whole opcode table. The
//! executable dispatcher is proved to implement it exactly. On top of it,
//! [`loop_step`] and [`run_trace`] describe complete runs fed from a byte
//! stream, which is what the run-to-completion entry points are proved
//! against.

use vstd::prelude::*;

use crate::errors::RuntimeError;
use crate::state::{Direction, VmState};
use crate::textio::{decimal_digits, parse_int_spec};

verus! {

/// What one dispatch step did, as seen by the driving loop.
#[derive(Clone, Copy, PartialEq, Eq, Structural, Debug)]
pub enum StepOutcome {
    /// An instruction executed and the cursor advanced.
    Stepped,
    /// The cell is the integer-input instruction: the machine is unchanged
    /// and waits for one whitespace-delimited integer.
    NeedInteger,
    /// The cell is the byte-input instruction: the machine is unchanged
    /// and waits for one byte.
    NeedByte,
    /// The halt instruction ran: the running flag is cleared and the
    /// cursor stays put.
    Halted,
    /// A fatal condition: the running flag is cleared, the rest of the
    /// machine is left as it was.
    Failed(RuntimeError),
}

/// A fatal step: the machine stops where it stands.
pub open spec fn failed(s: VmState, e: RuntimeError) -> (VmState, StepOutcome) {
    (VmState { running: false, ..s }, StepOutcome::Failed(e))
}

/// A pop from an empty stack, at the current cursor.
pub open spec fn underflow_at(s: VmState) -> (VmState, StepOutcome) {
    failed(s, RuntimeError::StackUnderflow { x: s.x as usize, y: s.y as usize })
}

/// Value pushed by a binary arithmetic or comparison opcode, `b` below `a`
/// on the stack. Addition, subtraction and multiplication wrap; division
/// and modulo take a nonzero divisor (guarded by the dispatcher); the
/// greater-than opcode yields one or zero.
pub open spec fn binop_value(instr: usize, b: usize, a: usize) -> usize {
    if instr == 43 {  // '+'
        vstd::wrapping::usize_specs::wrapping_add(b, a)
    } else if instr == 45 {  // '-'
        vstd::wrapping::usize_specs::wrapping_sub(b, a)
    } else if instr == 42 {  // '*'
        vstd::wrapping::usize_specs::wrapping_mul(b, a)
    } else if instr == 47 {  // '/'
        (b / a) as usize
    } else if instr == 37 {  // '%'
        (b % a) as usize
    } else {  // '`'
        if b > a {
            1
        } else {
            0
        }
    }
}

/// Whether `instr` is one of the two-operand opcodes served by
/// [`binop_value`].
pub open spec fn is_binop(instr: usize) -> bool {
    instr == 43 || instr == 45 || instr == 42 || instr == 47 || instr == 37 || instr == 96
}

/// The opcode table: the state and outcome after dispatching cell value
/// `instr` in state `s`. The choice `d` is consulted only by the
/// random-direction opcode. In string mode every cell except the quote is
/// pushed literally. Cell values match opcodes by their exact value.
///
/// Kept opaque: proofs about a particular opcode reveal it.
#[verifier::opaque]
pub open spec fn instr_spec(s: VmState, instr: usize, d: Direction) -> (VmState, StepOutcome) {
    if s.string_mode {
        if instr == 34 {  // '"' leaves string mode
            (VmState { string_mode: false, ..s }.advanced(), StepOutcome::Stepped)
        } else {
            (s.pushed(instr).advanced(), StepOutcome::Stepped)
        }
    } else if 48 <= instr && instr <= 57 {  // '0'..='9'
        (s.pushed((instr - 48) as usize).advanced(), StepOutcome::Stepped)
    } else if is_binop(instr) {
        if s.stack.len() < 2 {
            underflow_at(s)
        } else {
            let a = s.stack.last();
            let b = s.stack[s.stack.len() - 2];
            if (instr == 47 || instr == 37) && a == 0 {
                failed(s, RuntimeError::ArithmeticError { x: s.x as usize, y: s.y as usize })
            } else {
                (s.popped(2).pushed(binop_value(instr, b, a)).advanced(), StepOutcome::Stepped)
            }
        }
    } else if instr == 33 {  // '!'
        if s.stack.len() < 1 {
            underflow_at(s)
        } else {
            let a = s.stack.last();
            (
                s.popped(1).pushed(
                    if a == 0 {
                        1
                    } else {
                        0
                    },
                ).advanced(),
                StepOutcome::Stepped,
            )
        }
    } else if instr == 62 {  // '>'
        (s.with_dir(Direction::East).advanced(), StepOutcome::Stepped)
    } else if instr == 60 {  // '<'
        (s.with_dir(Direction::West).advanced(), StepOutcome::Stepped)
    } else if instr == 94 {  // '^'
        (s.with_dir(Direction::North).advanced(), StepOutcome::Stepped)
    } else if instr == 118 {  // 'v'
        (s.with_dir(Direction::South).advanced(), StepOutcome::Stepped)
    } else if instr == 63 {  // '?'
        (s.with_dir(d).advanced(), StepOutcome::Stepped)
    } else if instr == 95 {  // '_'
        if s.stack.len() < 1 {
            underflow_at(s)
        } else {
            let a = s.stack.last();
            (
                s.popped(1).with_dir(
                    if a == 0 {
                        Direction::East
                    } else {
                        Direction::West
                    },
                ).advanced(),
                StepOutcome::Stepped,
            )
        }
    } else if instr == 124 {  // '|'
        if s.stack.len() < 1 {
            underflow_at(s)
        } else {
            let a = s.stack.last();
            (
                s.popped(1).with_dir(
                    if a == 0 {
                        Direction::South
                    } else {
                        Direction::North
                    },
                ).advanced(),
                StepOutcome::Stepped,
            )
        }
    } else if instr == 34 {  // '"' enters string mode
        (VmState { string_mode: true, ..s }.advanced(), StepOutcome::Stepped)
    } else if instr == 58 {  // ':' duplicate; an empty stack counts as holding zero
        let st = if s.stack.len() == 0 {
            seq![0usize, 0usize]
        } else {
            s.stack.push(s.stack.last())
        };
        (VmState { stack: st, ..s }.advanced(), StepOutcome::Stepped)
    } else if instr == 92 {  // '\' swap the top two
        if s.stack.len() < 2 {
            underflow_at(s)
        } else {
            let a = s.stack.last();
            let b = s.stack[s.stack.len() - 2];
            (s.popped(2).pushed(a).pushed(b).advanced(), StepOutcome::Stepped)
        }
    } else if instr == 36 {  // '$' discard the top
        if s.stack.len() < 1 {
            underflow_at(s)
        } else {
            (s.popped(1).advanced(), StepOutcome::Stepped)
        }
    } else if instr == 46 {  // '.' output as decimal
        if s.stack.len() < 1 {
            underflow_at(s)
        } else {
            let a = s.stack.last();
            (
                VmState { out: s.out + decimal_digits(a as nat), ..s.popped(1) }.advanced(),
                StepOutcome::Stepped,
            )
        }
    } else if instr == 44 {  // ',' output the low byte as a character
        if s.stack.len() < 1 {
            underflow_at(s)
        } else {
            let a = s.stack.last();
            (
                VmState { out: s.out.push((a % 256) as u8), ..s.popped(1) }.advanced(),
                StepOutcome::Stepped,
            )
        }
    } else if instr == 35 {  // '#' bridge: skip the next cell
        (s.advanced().advanced(), StepOutcome::Stepped)
    } else if instr == 112 {  // 'p' put: pop y, x, v; write v at (x, y)
        if s.stack.len() < 3 {
            underflow_at(s)
        } else {
            let y = s.stack.last();
            let x = s.stack[s.stack.len() - 2];
            let v = s.stack[s.stack.len() - 3];
            if x <= 79 && y <= 24 {
                (
                    VmState {
                        grid: s.grid.update(y * 80 + x, v),
                        ..s.popped(3)
                    }.advanced(),
                    StepOutcome::Stepped,
                )
            } else {
                failed(s, RuntimeError::BoundsError { x: s.x as usize, y: s.y as usize })
            }
        }
    } else if instr == 103 {  // 'g' get: pop y, x; push the cell, or zero out of range
        if s.stack.len() < 2 {
            underflow_at(s)
        } else {
            let y = s.stack.last();
            let x = s.stack[s.stack.len() - 2];
            let v = if x <= 79 && y <= 24 {
                s.cell(x as int, y as int)
            } else {
                0
            };
            (s.popped(2).pushed(v).advanced(), StepOutcome::Stepped)
        }
    } else if instr == 38 {  // '&' read an integer
        (s, StepOutcome::NeedInteger)
    } else if instr == 126 {  // '~' read a byte
        (s, StepOutcome::NeedByte)
    } else if instr == 64 {  // '@' halt: the cursor does not advance further
        (VmState { running: false, ..s }, StepOutcome::Halted)
    } else {  // anything else is a no-op
        (s.advanced(), StepOutcome::Stepped)
    }
}

/// One dispatch step on the cell under the cursor.
pub open spec fn spec_step(s: VmState, d: Direction) -> (VmState, StepOutcome) {
    instr_spec(s, s.current(), d)
}

/// Whether the next dispatch consults the random source.
pub open spec fn is_random(s: VmState) -> bool {
    !s.string_mode && s.current() == 63
}

/// The machine stopped by a failed input read.
pub open spec fn input_failed(s: VmState) -> VmState {
    VmState { running: false, ..s }
}

/// The input-failure diagnostic at the current cursor.
pub open spec fn input_error_at(s: VmState) -> RuntimeError {
    RuntimeError::InputError { x: s.x as usize, y: s.y as usize }
}

/// One iteration of the run loop: a dispatch step, with the two input
/// instructions served from `input` at `pos`. Yields the next state, the
/// next input position, and `Some(result)` when the run ends here.
pub open spec fn loop_step(s: VmState, input: Seq<u8>, pos: int, d: Direction) -> (
    VmState,
    int,
    Option<Result<(), RuntimeError>>,
) {
    let (s1, oc) = spec_step(s, d);
    match oc {
        StepOutcome::Stepped => (s1, pos, None),
        StepOutcome::Halted => (s1, pos, Some(Ok(()))),
        StepOutcome::Failed(e) => (s1, pos, Some(Err(e))),
        StepOutcome::NeedInteger => {
            let pr = parse_int_spec(input, pos);
            match pr.0 {
                Some(v) => (s.pushed(v).advanced(), pr.1, None),
                None => (input_failed(s), pos, Some(Err(input_error_at(s)))),
            }
        },
        StepOutcome::NeedByte => {
            if pos < input.len() {
                (s.pushed(input[pos] as usize).advanced(), pos + 1, None)
            } else {
                (input_failed(s), pos, Some(Err(input_error_at(s))))
            }
        },
    }
}

/// A whole run described by its sequence of random choices: iterate
/// [`loop_step`] until it ends the run or the choices run out. A run that
/// ends carries `Some(result)`; one that is still going carries `None`.
pub open spec fn run_trace(s: VmState, input: Seq<u8>, pos: int, ds: Seq<Direction>) -> (
    VmState,
    int,
    Option<Result<(), RuntimeError>>,
)
    decreases ds.len(),
{
    if ds.len() == 0 {
        (s, pos, None)
    } else {
        let step = loop_step(s, input, pos, ds[0]);
        if step.2 is Some {
            step
        } else {
            run_trace(step.0, input, step.1, ds.drop_first())
        }
    }
}

/// How a budgeted run ended.
#[derive(Clone, Copy, PartialEq, Eq, Structural, Debug)]
pub enum RunResult {
    /// The halt instruction ran.
    Halted,
    /// A fatal condition aborted the run.
    Failed(RuntimeError),
    /// The step budget ran out first; the machine is still running and
    /// the run can be resumed.
    Paused,
}

/// How a [`RunResult`] reports the status component of a [`run_trace`].
pub open spec fn trace_matches(r: RunResult, status: Option<Result<(), RuntimeError>>) -> bool {
    match r {
        RunResult::Halted => status == Some(Ok::<(), RuntimeError>(())),
        RunResult::Failed(e) => status == Some(Err::<(), RuntimeError>(e)),
        RunResult::Paused => status is None,
    }
}

/// Extending an unfinished run by one choice appends one loop step.
pub proof fn lemma_run_trace_snoc(
    s: VmState,
    input: Seq<u8>,
    pos: int,
    ds: Seq<Direction>,
    d: Direction,
)
    requires
        run_trace(s, input, pos, ds).2 is None,
    ensures
        ({
            let mid = run_trace(s, input, pos, ds);
            run_trace(s, input, pos, ds.push(d)) == loop_step(mid.0, input, mid.1, d)
        }),
    decreases ds.len(),
{
    if ds.len() == 0 {
        assert(ds.push(d)[0] == d);
        assert(ds.push(d).drop_first() =~= Seq::<Direction>::empty());
        let step = loop_step(s, input, pos, d);
        if step.2 is None {
            assert(run_trace(step.0, input, step.1, Seq::<Direction>::empty()) == (
                step.0,
                step.1,
                None::<Result<(), RuntimeError>>,
            ));
            assert(step =~= (step.0, step.1, None::<Result<(), RuntimeError>>));
        }
    } else {
        let step = loop_step(s, input, pos, ds[0]);
        assert(ds.push(d)[0] == ds[0]);
        assert(ds.push(d).drop_first() =~= ds.drop_first().push(d));
        lemma_run_trace_snoc(step.0, input, step.1, ds.drop_first(), d);
    }
}

/// Law: division or modulo with a zero divisor fails with the arithmetic
/// error at the cursor and stops the machine where it stands, whatever
/// else the state holds and whatever the random source would say.
pub proof fn lemma_division_by_zero_fails(s: VmState, instr: usize, d: Direction)
    requires
        !s.string_mode,
        instr == 47 || instr == 37,
        s.stack.len() >= 2,
        s.stack.last() == 0,
    ensures
        instr_spec(s, instr, d) == failed(
            s,
            RuntimeError::ArithmeticError { x: s.x as usize, y: s.y as usize },
        ),
{
    reveal(instr_spec);
}

/// Law: the get and put instructions treat an out-of-range address
/// asymmetrically. With the popped coordinates out of range, get pushes
/// zero and the machine continues; put fails with the bounds error at the
/// cursor and the machine stops with no cell written and the stack as it
/// was.
pub proof fn lemma_get_put_asymmetry(s: VmState, d: Direction)
    requires
        !s.string_mode,
        s.stack.len() >= 3,
        !(s.stack[s.stack.len() - 2] <= 79 && s.stack.last() <= 24),
    ensures
        instr_spec(s, 103, d) == (s.popped(2).pushed(0).advanced(), StepOutcome::Stepped),
        instr_spec(s, 112, d) == failed(
            s,
            RuntimeError::BoundsError { x: s.x as usize, y: s.y as usize },
        ),
        instr_spec(s, 112, d).0.grid == s.grid,
        instr_spec(s, 112, d).0.stack == s.stack,
{
    reveal(instr_spec);
}

/// Law: a dispatch that is not the random-direction instruction ignores
/// the random choice: its result is the same whatever was drawn.
pub proof fn lemma_step_ignores_choice(s: VmState, d1: Direction, d2: Direction)
    requires
        !is_random(s),
    ensures
        spec_step(s, d1) == spec_step(s, d2),
{
    reveal(instr_spec);
}

/// Whether an `n`-step run from `s` stays clear of the random-direction
/// instruction: it ends, or never dispatches it within the budget.
pub open spec fn random_free(s: VmState, input: Seq<u8>, pos: int, n: nat) -> bool
    decreases n,
{
    n == 0 || (!is_random(s) && {
        let st = loop_step(s, input, pos, Direction::East);
        st.2 is Some || random_free(st.0, input, st.1, (n - 1) as nat)
    })
}

/// Law: a run that never reaches the random-direction instruction is
/// deterministic. The random source and the input stream are the only
/// sources of nondeterminism, and the input is fixed here, so the choice
/// sequence does not matter: any two equal-length traces agree on the
/// final state, the input position and the result.
pub proof fn lemma_run_trace_deterministic(
    s: VmState,
    input: Seq<u8>,
    pos: int,
    ds1: Seq<Direction>,
    ds2: Seq<Direction>,
)
    requires
        ds1.len() == ds2.len(),
        random_free(s, input, pos, ds1.len()),
    ensures
        run_trace(s, input, pos, ds1) == run_trace(s, input, pos, ds2),
    decreases ds1.len(),
{
    if ds1.len() > 0 {
        lemma_step_ignores_choice(s, ds1[0], Direction::East);
        lemma_step_ignores_choice(s, ds2[0], Direction::East);
        let st = loop_step(s, input, pos, Direction::East);
        if st.2 is None {
            lemma_run_trace_deterministic(st.0, input, st.1, ds1.drop_first(), ds2.drop_first());
        }
    }
}

/// Law: a run that has ended ignores any further choices; in particular
/// a trace that halts or fails stands for every longer budget too.
pub proof fn lemma_run_trace_stops(
    s: VmState,
    input: Seq<u8>,
    pos: int,
    ds: Seq<Direction>,
    more: Seq<Direction>,
)
    requires
        run_trace(s, input, pos, ds).2 is Some,
    ensures
        run_trace(s, input, pos, ds + more) == run_trace(s, input, pos, ds),
    decreases ds.len(),
{
    if ds.len() > 0 {
        let step = loop_step(s, input, pos, ds[0]);
        assert((ds + more)[0] == ds[0]);
        assert((ds + more).drop_first() =~= ds.drop_first() + more);
        if step.2 is None {
            lemma_run_trace_stops(step.0, input, step.1, ds.drop_first(), more);
        }
    }
}

/// Law: duplicating on an empty stack treats the missing value as zero
/// and pushes two zeros; it never fails, and on equal states it does the
/// same thing each time, so running it twice in a row from an empty stack
/// behaves identically both times.
pub proof fn lemma_duplicate_lenient(s: VmState, d: Direction)
    requires
        !s.string_mode,
    ensures
        instr_spec(s, 58, d).1 == StepOutcome::Stepped,
        s.stack.len() == 0 ==> instr_spec(s, 58, d).0 == (VmState {
            stack: seq![0usize, 0usize],
            ..s
        }).advanced(),
        s.stack.len() > 0 ==> instr_spec(s, 58, d).0 == (VmState {
            stack: s.stack.push(s.stack.last()),
            ..s
        }).advanced(),
        forall|t: VmState, d2: Direction| t == s ==> instr_spec(t, 58, d2) == instr_spec(s, 58, d),
{
    reveal(instr_spec);
}

} // verus!
