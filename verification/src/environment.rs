//! The executable machine and its run loops.
//!
//! [`Environment`] realises the [`VmState`] model; every operation is
//! proved against the spec functions of the semantics module. The two
//! blocking input instructions surface as step outcomes, so a driver can
//! serve them from any stream; [`Environment::run_with_input`] serves
//! them from a byte slice and is proved to follow [`run_trace`].

use vstd::prelude::*;

use crate::errors::{LoadError, RuntimeError};
use crate::load::{load_grid, load_spec};
use crate::rng::random_direction;
use crate::semantics::{
    input_error_at, input_failed, instr_spec, is_random, lemma_run_trace_snoc, run_trace,
    spec_step, trace_matches, RunResult, StepOutcome,
};
use crate::state::{start_vm, started, Direction, VmState};
use crate::textio::{parse_integer, push_decimal};

verus! {

/// The machine: grid, stack, cursor, direction, mode flags and collected
/// output. Its view is the [`VmState`] all contracts speak of.
pub struct Environment {
    grid: Vec<usize>,
    stack: Vec<usize>,
    x: usize,
    y: usize,
    dir: Direction,
    string_mode: bool,
    running: bool,
    out: Vec<u8>,
}

impl View for Environment {
    type V = VmState;

    closed spec fn view(&self) -> VmState {
        VmState {
            grid: self.grid@,
            stack: self.stack@,
            x: self.x as int,
            y: self.y as int,
            dir: self.dir,
            string_mode: self.string_mode,
            running: self.running,
            out: self.out@,
        }
    }
}

/// The operations of the interpreter: building a machine over source
/// text, reading and writing cells, the stack, one dispatch step, and a
/// run to completion.
pub trait Befunge93Interpreter: Sized {
    /// The mathematical state of the machine.
    spec fn vm(&self) -> VmState;

    /// Builds a machine over the loaded source: cursor at the origin
    /// heading east, empty stack, normal mode, not yet running. Callers
    /// must know the source fits the grid; [`Environment::load`] checks
    /// it and reports the error instead.
    fn new(code: String) -> (r: Self)
        requires
            load_spec(code@) is Ok,
        ensures
            r.vm() == start_vm(load_spec(code@)->Ok_0),
    ;

    /// The cell under the cursor: the next instruction.
    fn get_current_instruction(&self) -> (r: usize)
        requires
            self.vm().wf(),
        ensures
            r == self.vm().current(),
    ;

    /// Moves the cursor one step in its direction of travel, wrapping
    /// toroidally on each axis independently. The velocity itself is
    /// never changed by movement.
    fn update_position(&mut self)
        requires
            old(self).vm().wf(),
        ensures
            final(self).vm() == old(self).vm().advanced(),
            final(self).vm().wf(),
    ;

    /// Writes `value` into the cell at column `x`, row `y`. Out-of-range
    /// coordinates are excluded here; the put opcode checks them first
    /// and turns an out-of-range address into the fatal bounds error
    /// with nothing written, as `lemma_get_put_asymmetry` states.
    fn set_cell(&mut self, x: usize, y: usize, value: usize)
        requires
            old(self).vm().wf(),
            x < 80,
            y < 25,
        ensures
            (final(self).vm() == VmState {
                grid: old(self).vm().grid.update(y * 80 + x, value),
                ..old(self).vm()
            }),
    ;

    /// Reads the cell at column `x`, row `y`.
    fn get_cell(&self, x: usize, y: usize) -> (r: usize)
        requires
            self.vm().wf(),
            x < 80,
            y < 25,
        ensures
            r == self.vm().cell(x as int, y as int),
    ;

    /// Pushes `value` onto the operand stack.
    fn push(&mut self, value: usize)
        ensures
            final(self).vm() == old(self).vm().pushed(value),
    ;

    /// Pops the top of the operand stack.
    fn pop(&mut self) -> (r: usize)
        requires
            old(self).vm().stack.len() > 0,
        ensures
            r == old(self).vm().stack.last(),
            final(self).vm() == old(self).vm().popped(1),
    ;

    /// Dispatches one cell value on the current state: the whole opcode
    /// table, exactly as [`instr_spec`] says. Only the random-direction
    /// opcode consults the random source; every other cell value has one
    /// possible result.
    fn execute_instruction(&mut self, instruction: usize) -> (r: StepOutcome)
        requires
            old(self).vm().wf(),
        ensures
            final(self).vm().wf(),
            exists|d: Direction| (final(self).vm(), r) == instr_spec(old(self).vm(), instruction, d),
            (old(self).vm().string_mode || instruction != 63) ==> (final(self).vm(), r)
                == instr_spec(old(self).vm(), instruction, Direction::East),
            (r == StepOutcome::Halted || r is Failed) ==> !final(self).vm().running,
            (r == StepOutcome::NeedInteger || r == StepOutcome::NeedByte) ==> final(self).vm()
                == old(self).vm(),
            r == StepOutcome::Stepped ==> final(self).vm().running == old(self).vm().running,
    ;

    /// Starts the machine and dispatches up to `fuel` instructions, with
    /// nothing on the input stream: an input instruction fails with the
    /// input error. The result and final state are exactly a run of the
    /// loop semantics from the started state; the budget exists because
    /// a program need never halt, and a paused run can be resumed.
    fn execute(&mut self, fuel: usize) -> (r: RunResult)
        requires
            old(self).vm().wf(),
        ensures
            final(self).vm().wf(),
            r == RunResult::Paused ==> final(self).vm().running,
            r != RunResult::Paused ==> !final(self).vm().running,
            exists|ds: Seq<Direction>|
                #![auto]
                ds.len() <= fuel && (r == RunResult::Paused ==> ds.len() == fuel) && run_trace(
                    started(old(self).vm()),
                    Seq::<u8>::empty(),
                    0,
                    ds,
                ).0 == final(self).vm() && trace_matches(
                    r,
                    run_trace(started(old(self).vm()), Seq::<u8>::empty(), 0, ds).2,
                ),
    ;
}

impl Environment {
    /// Structural invariant: full grid, cursor within bounds.
    pub open spec fn wf(&self) -> bool {
        self@.wf()
    }

    /// Loads source text, checking the grid bounds: the machine over the
    /// loaded grid, or the load error exactly when the source does not
    /// fit.
    pub fn load(code: &str) -> (r: Result<Environment, LoadError>)
        ensures
            (match r {
                Ok(env) => load_spec(code@) == Ok::<Seq<usize>, LoadError>(env@.grid) && env@
                    == start_vm(env@.grid) && env.wf(),
                Err(e) => load_spec(code@) == Err::<Seq<usize>, LoadError>(e),
            }),
    {
        match load_grid(code) {
            Ok(grid) => {
                let env = Environment {
                    grid,
                    stack: Vec::new(),
                    x: 0,
                    y: 0,
                    dir: Direction::East,
                    string_mode: false,
                    running: false,
                    out: Vec::new(),
                };
                proof {
                    assert(env@ =~= start_vm(env@.grid));
                }
                Ok(env)
            },
            Err(e) => Err(e),
        }
    }

    /// The bytes written so far by the two output instructions, in order.
    pub fn output(&self) -> (r: &Vec<u8>)
        ensures
            r@ == self@.out,
    {
        &self.out
    }

    /// Whether the machine is between start and halt.
    pub fn is_running(&self) -> (r: bool)
        ensures
            r == self@.running,
    {
        self.running
    }

    /// One dispatch step on the cell under the cursor.
    pub fn step(&mut self) -> (r: StepOutcome)
        requires
            old(self).wf(),
        ensures
            final(self).wf(),
            exists|d: Direction| (final(self)@, r) == spec_step(old(self)@, d),
            !is_random(old(self)@) ==> (final(self)@, r) == spec_step(old(self)@, Direction::East),
            (r == StepOutcome::Halted || r is Failed) ==> !final(self)@.running,
            (r == StepOutcome::NeedInteger || r == StepOutcome::NeedByte) ==> final(self)@ == old(
                self,
            )@,
            r == StepOutcome::Stepped ==> final(self)@.running == old(self)@.running,
    {
        let instruction = self.get_current_instruction();
        let oc = self.execute_instruction(instruction);
        proof {
            let d = choose|d: Direction| (self@, oc) == instr_spec(old(self)@, instruction, d);
            assert((self@, oc) == spec_step(old(self)@, d));
        }
        oc
    }

    /// Answers a pending integer-input request: pushes the value read and
    /// moves on.
    pub fn supply_integer(&mut self, value: usize)
        requires
            old(self).wf(),
        ensures
            final(self).wf(),
            final(self)@ == old(self)@.pushed(value).advanced(),
    {
        self.push(value);
        self.update_position();
    }

    /// Answers a pending byte-input request: pushes the byte read and
    /// moves on.
    pub fn supply_byte(&mut self, value: u8)
        requires
            old(self).wf(),
        ensures
            final(self).wf(),
            final(self)@ == old(self)@.pushed(value as usize).advanced(),
    {
        self.push(value as usize);
        self.update_position();
    }

    /// Reports a failed input read: stops the machine where it stands and
    /// hands back the diagnostic for the current cursor.
    pub fn fail_input(&mut self) -> (e: RuntimeError)
        requires
            old(self).wf(),
        ensures
            final(self).wf(),
            final(self)@ == input_failed(old(self)@),
            e == input_error_at(old(self)@),
    {
        self.running = false;
        proof {
            assert(self@ =~= input_failed(old(self)@));
        }
        RuntimeError::InputError { x: self.x, y: self.y }
    }

    /// Starts the machine and dispatches up to `fuel` instructions,
    /// serving the input instructions from `input` and collecting output
    /// in the machine. The result and final state are exactly a run of
    /// the loop semantics from the started state; a program that
    /// consults the random source may follow any of its traces. The
    /// budget exists because a program need never halt; a paused run is
    /// still running and can be resumed.
    pub fn run_with_input(&mut self, input: &Vec<u8>, fuel: usize) -> (r: RunResult)
        requires
            old(self).wf(),
        ensures
            final(self).wf(),
            r == RunResult::Paused ==> final(self)@.running,
            r != RunResult::Paused ==> !final(self)@.running,
            exists|ds: Seq<Direction>|
                #![auto]
                ds.len() <= fuel && (r == RunResult::Paused ==> ds.len() == fuel) && run_trace(
                    started(old(self)@),
                    input@,
                    0,
                    ds,
                ).0 == final(self)@ && trace_matches(
                    r,
                    run_trace(started(old(self)@), input@, 0, ds).2,
                ),
    {
        self.running = true;
        let ghost s0 = self@;
        proof {
            assert(s0 =~= started(old(self)@));
        }
        let mut pos: usize = 0;
        let mut left = fuel;
        let ghost mut ds: Seq<Direction> = Seq::empty();
        while left > 0
            invariant
                s0 == started(old(self)@),
                self.wf(),
                self@.running,
                pos <= input.len(),
                left <= fuel,
                ds.len() + left == fuel,
                run_trace(s0, input@, 0, ds) == (self@, pos as int, None::<Result<
                    (),
                    RuntimeError,
                >>),
            decreases left,
        {
            left = left - 1;
            let ghost prev = self@;
            let oc = self.step();
            match oc {
                StepOutcome::Stepped => {
                    proof {
                        let d = choose|d: Direction| (self@, StepOutcome::Stepped) == spec_step(
                            prev,
                            d,
                        );
                        lemma_run_trace_snoc(s0, input@, 0, ds, d);
                        ds = ds.push(d);
                    }
                },
                StepOutcome::Halted => {
                    proof {
                        let d = choose|d: Direction| (self@, StepOutcome::Halted) == spec_step(
                            prev,
                            d,
                        );
                        lemma_run_trace_snoc(s0, input@, 0, ds, d);
                        ds = ds.push(d);
                    }
                    return RunResult::Halted;
                },
                StepOutcome::Failed(e) => {
                    proof {
                        let d = choose|d: Direction| (self@, StepOutcome::Failed(e)) == spec_step(
                            prev,
                            d,
                        );
                        lemma_run_trace_snoc(s0, input@, 0, ds, d);
                        ds = ds.push(d);
                    }
                    return RunResult::Failed(e);
                },
                StepOutcome::NeedInteger => {
                    let pr = parse_integer(input, pos);
                    match pr.0 {
                        Some(v) => {
                            self.supply_integer(v);
                            proof {
                                let d = choose|d: Direction|
                                    (prev, StepOutcome::NeedInteger) == spec_step(prev, d);
                                lemma_run_trace_snoc(s0, input@, 0, ds, d);
                                ds = ds.push(d);
                            }
                            pos = pr.1;
                        },
                        None => {
                            let e = self.fail_input();
                            proof {
                                let d = choose|d: Direction|
                                    (prev, StepOutcome::NeedInteger) == spec_step(prev, d);
                                lemma_run_trace_snoc(s0, input@, 0, ds, d);
                                ds = ds.push(d);
                            }
                            return RunResult::Failed(e);
                        },
                    }
                },
                StepOutcome::NeedByte => {
                    if pos < input.len() {
                        let b = input[pos];
                        self.supply_byte(b);
                        proof {
                            let d = choose|d: Direction| (prev, StepOutcome::NeedByte) == spec_step(
                                prev,
                                d,
                            );
                            lemma_run_trace_snoc(s0, input@, 0, ds, d);
                            ds = ds.push(d);
                        }
                        pos = pos + 1;
                    } else {
                        let e = self.fail_input();
                        proof {
                            let d = choose|d: Direction| (prev, StepOutcome::NeedByte) == spec_step(
                                prev,
                                d,
                            );
                            lemma_run_trace_snoc(s0, input@, 0, ds, d);
                            ds = ds.push(d);
                        }
                        return RunResult::Failed(e);
                    }
                },
            }
        }
        RunResult::Paused
    }
}

impl Befunge93Interpreter for Environment {
    open spec fn vm(&self) -> VmState {
        self@
    }

    fn new(code: String) -> (r: Self) {
        match Environment::load(code.as_str()) {
            Ok(env) => env,
            Err(_) => vstd::pervasive::unreached(),
        }
    }

    fn get_current_instruction(&self) -> (r: usize) {
        let idx = self.y * 80 + self.x;
        self.grid[idx]
    }

    fn update_position(&mut self) {
        match self.dir {
            Direction::East => {
                if self.x == 79 {
                    self.x = 0;
                } else {
                    self.x = self.x + 1;
                }
            },
            Direction::West => {
                if self.x == 0 {
                    self.x = 79;
                } else {
                    self.x = self.x - 1;
                }
            },
            Direction::North => {
                if self.y == 0 {
                    self.y = 24;
                } else {
                    self.y = self.y - 1;
                }
            },
            Direction::South => {
                if self.y == 24 {
                    self.y = 0;
                } else {
                    self.y = self.y + 1;
                }
            },
        }
        proof {
            assert(self@ =~= old(self)@.advanced());
        }
    }

    fn set_cell(&mut self, x: usize, y: usize, value: usize) {
        let idx = y * 80 + x;
        self.grid[idx] = value;
        proof {
            assert(self@ =~= (VmState { grid: old(self)@.grid.update(y * 80 + x, value), ..old(self)@ }));
        }
    }

    fn get_cell(&self, x: usize, y: usize) -> (r: usize) {
        let idx = y * 80 + x;
        self.grid[idx]
    }

    fn push(&mut self, value: usize) {
        self.stack.push(value);
        proof {
            assert(self@ =~= old(self)@.pushed(value));
        }
    }

    fn pop(&mut self) -> (r: usize) {
        let v = self.stack.pop().unwrap();
        proof {
            assert(self@ =~= old(self)@.popped(1));
        }
        v
    }

    #[verifier::rlimit(100)]
    fn execute_instruction(&mut self, instruction: usize) -> (r: StepOutcome) {
        proof {
            reveal(instr_spec);
        }
        let ghost s0 = self@;
        if self.string_mode {
            if instruction == 34 {
                self.string_mode = false;
            } else {
                self.push(instruction);
            }
            self.update_position();
            proof {
                assert(self@ =~= instr_spec(s0, instruction, Direction::East).0);
            }
            return StepOutcome::Stepped;
        }
        if 48 <= instruction && instruction <= 57 {
            self.push(instruction - 48);
            self.update_position();
            proof {
                assert(self@ =~= instr_spec(s0, instruction, Direction::East).0);
            }
            StepOutcome::Stepped
        } else if instruction == 43 || instruction == 45 || instruction == 42 || instruction == 47
            || instruction == 37 || instruction == 96 {
            let len = self.stack.len();
            if len < 2 {
                self.running = false;
                proof {
                    assert(self@ =~= instr_spec(s0, instruction, Direction::East).0);
                }
                return StepOutcome::Failed(RuntimeError::StackUnderflow { x: self.x, y: self.y });
            }
            let a = self.stack[len - 1];
            let b = self.stack[len - 2];
            if (instruction == 47 || instruction == 37) && a == 0 {
                self.running = false;
                proof {
                    assert(self@ =~= instr_spec(s0, instruction, Direction::East).0);
                }
                return StepOutcome::Failed(RuntimeError::ArithmeticError { x: self.x, y: self.y });
            }
            let v = if instruction == 43 {
                b.wrapping_add(a)
            } else if instruction == 45 {
                b.wrapping_sub(a)
            } else if instruction == 42 {
                b.wrapping_mul(a)
            } else if instruction == 47 {
                b / a
            } else if instruction == 37 {
                b % a
            } else {
                if b > a {
                    1
                } else {
                    0
                }
            };
            self.stack.truncate(len - 2);
            self.push(v);
            self.update_position();
            proof {
                assert(self@ =~= instr_spec(s0, instruction, Direction::East).0);
            }
            StepOutcome::Stepped
        } else if instruction == 33 {
            let len = self.stack.len();
            if len < 1 {
                self.running = false;
                proof {
                    assert(self@ =~= instr_spec(s0, instruction, Direction::East).0);
                }
                return StepOutcome::Failed(RuntimeError::StackUnderflow { x: self.x, y: self.y });
            }
            let a = self.pop();
            self.push(
                if a == 0 {
                    1
                } else {
                    0
                },
            );
            self.update_position();
            proof {
                assert(self@ =~= instr_spec(s0, instruction, Direction::East).0);
            }
            StepOutcome::Stepped
        } else if instruction == 62 {
            self.dir = Direction::East;
            self.update_position();
            proof {
                assert(self@ =~= instr_spec(s0, instruction, Direction::East).0);
            }
            StepOutcome::Stepped
        } else if instruction == 60 {
            self.dir = Direction::West;
            self.update_position();
            proof {
                assert(self@ =~= instr_spec(s0, instruction, Direction::East).0);
            }
            StepOutcome::Stepped
        } else if instruction == 94 {
            self.dir = Direction::North;
            self.update_position();
            proof {
                assert(self@ =~= instr_spec(s0, instruction, Direction::East).0);
            }
            StepOutcome::Stepped
        } else if instruction == 118 {
            self.dir = Direction::South;
            self.update_position();
            proof {
                assert(self@ =~= instr_spec(s0, instruction, Direction::East).0);
            }
            StepOutcome::Stepped
        } else if instruction == 63 {
            let d = random_direction();
            self.dir = d;
            self.update_position();
            proof {
                assert(self@ =~= instr_spec(s0, instruction, d).0);
                assert((self@, StepOutcome::Stepped) == instr_spec(s0, instruction, d));
            }
            StepOutcome::Stepped
        } else if instruction == 95 {
            let len = self.stack.len();
            if len < 1 {
                self.running = false;
                proof {
                    assert(self@ =~= instr_spec(s0, instruction, Direction::East).0);
                }
                return StepOutcome::Failed(RuntimeError::StackUnderflow { x: self.x, y: self.y });
            }
            let a = self.pop();
            self.dir = if a == 0 {
                Direction::East
            } else {
                Direction::West
            };
            self.update_position();
            proof {
                assert(self@ =~= instr_spec(s0, instruction, Direction::East).0);
            }
            StepOutcome::Stepped
        } else if instruction == 124 {
            let len = self.stack.len();
            if len < 1 {
                self.running = false;
                proof {
                    assert(self@ =~= instr_spec(s0, instruction, Direction::East).0);
                }
                return StepOutcome::Failed(RuntimeError::StackUnderflow { x: self.x, y: self.y });
            }
            let a = self.pop();
            self.dir = if a == 0 {
                Direction::South
            } else {
                Direction::North
            };
            self.update_position();
            proof {
                assert(self@ =~= instr_spec(s0, instruction, Direction::East).0);
            }
            StepOutcome::Stepped
        } else if instruction == 34 {
            self.string_mode = true;
            self.update_position();
            proof {
                assert(self@ =~= instr_spec(s0, instruction, Direction::East).0);
            }
            StepOutcome::Stepped
        } else if instruction == 58 {
            if self.stack.len() == 0 {
                self.push(0);
            }
            let a = self.pop();
            self.push(a);
            self.push(a);
            self.update_position();
            proof {
                assert(self@ =~= instr_spec(s0, instruction, Direction::East).0);
            }
            StepOutcome::Stepped
        } else if instruction == 92 {
            let len = self.stack.len();
            if len < 2 {
                self.running = false;
                proof {
                    assert(self@ =~= instr_spec(s0, instruction, Direction::East).0);
                }
                return StepOutcome::Failed(RuntimeError::StackUnderflow { x: self.x, y: self.y });
            }
            let a = self.stack[len - 1];
            let b = self.stack[len - 2];
            self.stack.truncate(len - 2);
            self.push(a);
            self.push(b);
            self.update_position();
            proof {
                assert(self@ =~= instr_spec(s0, instruction, Direction::East).0);
            }
            StepOutcome::Stepped
        } else if instruction == 36 {
            let len = self.stack.len();
            if len < 1 {
                self.running = false;
                proof {
                    assert(self@ =~= instr_spec(s0, instruction, Direction::East).0);
                }
                return StepOutcome::Failed(RuntimeError::StackUnderflow { x: self.x, y: self.y });
            }
            self.pop();
            self.update_position();
            proof {
                assert(self@ =~= instr_spec(s0, instruction, Direction::East).0);
            }
            StepOutcome::Stepped
        } else if instruction == 46 {
            let len = self.stack.len();
            if len < 1 {
                self.running = false;
                proof {
                    assert(self@ =~= instr_spec(s0, instruction, Direction::East).0);
                }
                return StepOutcome::Failed(RuntimeError::StackUnderflow { x: self.x, y: self.y });
            }
            let a = self.pop();
            push_decimal(&mut self.out, a);
            self.update_position();
            proof {
                assert(self@ =~= instr_spec(s0, instruction, Direction::East).0);
            }
            StepOutcome::Stepped
        } else if instruction == 44 {
            let len = self.stack.len();
            if len < 1 {
                self.running = false;
                proof {
                    assert(self@ =~= instr_spec(s0, instruction, Direction::East).0);
                }
                return StepOutcome::Failed(RuntimeError::StackUnderflow { x: self.x, y: self.y });
            }
            let a = self.pop();
            self.out.push((a % 256) as u8);
            self.update_position();
            proof {
                assert(self@ =~= instr_spec(s0, instruction, Direction::East).0);
            }
            StepOutcome::Stepped
        } else if instruction == 35 {
            self.update_position();
            self.update_position();
            proof {
                assert(self@ =~= instr_spec(s0, instruction, Direction::East).0);
            }
            StepOutcome::Stepped
        } else if instruction == 112 {
            let len = self.stack.len();
            if len < 3 {
                self.running = false;
                proof {
                    assert(self@ =~= instr_spec(s0, instruction, Direction::East).0);
                }
                return StepOutcome::Failed(RuntimeError::StackUnderflow { x: self.x, y: self.y });
            }
            let yy = self.stack[len - 1];
            let xx = self.stack[len - 2];
            let v = self.stack[len - 3];
            if xx <= 79 && yy <= 24 {
                self.stack.truncate(len - 3);
                self.set_cell(xx, yy, v);
                self.update_position();
                proof {
                    assert(self@ =~= instr_spec(s0, instruction, Direction::East).0);
                }
                StepOutcome::Stepped
            } else {
                self.running = false;
                proof {
                    assert(self@ =~= instr_spec(s0, instruction, Direction::East).0);
                }
                StepOutcome::Failed(RuntimeError::BoundsError { x: self.x, y: self.y })
            }
        } else if instruction == 103 {
            let len = self.stack.len();
            if len < 2 {
                self.running = false;
                proof {
                    assert(self@ =~= instr_spec(s0, instruction, Direction::East).0);
                }
                return StepOutcome::Failed(RuntimeError::StackUnderflow { x: self.x, y: self.y });
            }
            let yy = self.stack[len - 1];
            let xx = self.stack[len - 2];
            self.stack.truncate(len - 2);
            let v = if xx <= 79 && yy <= 24 {
                self.get_cell(xx, yy)
            } else {
                0
            };
            self.push(v);
            self.update_position();
            proof {
                assert(self@ =~= instr_spec(s0, instruction, Direction::East).0);
            }
            StepOutcome::Stepped
        } else if instruction == 38 {
            StepOutcome::NeedInteger
        } else if instruction == 126 {
            StepOutcome::NeedByte
        } else if instruction == 64 {
            self.running = false;
            proof {
                assert(self@ =~= instr_spec(s0, instruction, Direction::East).0);
            }
            StepOutcome::Halted
        } else {
            self.update_position();
            proof {
                assert(self@ =~= instr_spec(s0, instruction, Direction::East).0);
            }
            StepOutcome::Stepped
        }
    }

    fn execute(&mut self, fuel: usize) -> (r: RunResult) {
        let no_input: Vec<u8> = Vec::new();
        let r = self.run_with_input(&no_input, fuel);
        r
    }
}

} // verus!
