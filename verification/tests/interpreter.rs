//! End-to-end runs of small programs through the buffered run loop.

use befunge93::{Environment, RunResult, RuntimeError};

const FUEL: usize = 100_000;

fn run_io(src: &str, input: &[u8]) -> (RunResult, Vec<u8>) {
    let mut env = Environment::load(src).unwrap();
    let input_vec: Vec<u8> = input.to_vec();
    let r = env.run_with_input(&input_vec, FUEL);
    let out: Vec<u8> = env.output().clone();
    (r, out)
}

fn run(src: &str) -> (RunResult, Vec<u8>) {
    run_io(src, b"")
}

fn expect_output(src: &str, expected: &str) {
    let (r, out) = run(src);
    assert_eq!(r, RunResult::Halted);
    assert_eq!(out, expected.as_bytes());
}

#[test]
fn digits_add_and_print() {
    expect_output("54+.@", "9");
}

#[test]
fn subtraction_is_not_commutative() {
    expect_output("95-.@", "4");
}

#[test]
fn multiplication() {
    expect_output("67*.@", "42");
}

#[test]
fn division() {
    expect_output("93/.@", "3");
}

#[test]
fn modulo() {
    expect_output("94%.@", "1");
}

#[test]
fn two_digit_decimal_output() {
    expect_output("55+.@", "10");
}

#[test]
fn subtraction_wraps_below_zero() {
    expect_output("01-.@", "18446744073709551615");
}

#[test]
fn logical_not() {
    expect_output("0!.@", "1");
    expect_output("5!.@", "0");
}

#[test]
fn greater_than() {
    expect_output("53`.@", "1");
    expect_output("35`.@", "0");
}

#[test]
fn swap_top_two() {
    expect_output("12\\..@", "12");
    expect_output("12..@", "21");
}

#[test]
fn discard_top() {
    expect_output("12$.@", "1");
}

#[test]
fn bridge_skips_one_cell() {
    expect_output("1#2.@", "1");
}

#[test]
fn string_mode_round_trip() {
    expect_output("\"Hi\",,@", "iH");
}

#[test]
fn comma_outputs_low_byte() {
    let (r, out) = run("99*9*,@");
    assert_eq!(r, RunResult::Halted);
    assert_eq!(out, vec![217u8]);
}

#[test]
fn hello_world() {
    expect_output("\"!dlroW ,olleH\">:#,_@", "Hello, World!");
}

#[test]
fn division_by_zero_aborts() {
    let (r, out) = run("50/@");
    assert_eq!(r, RunResult::Failed(RuntimeError::ArithmeticError { x: 2, y: 0 }));
    assert_eq!(out, b"");
}

#[test]
fn modulo_by_zero_aborts() {
    let (r, _) = run("50%@");
    assert_eq!(r, RunResult::Failed(RuntimeError::ArithmeticError { x: 2, y: 0 }));
}

#[test]
fn get_out_of_range_pushes_zero() {
    expect_output("99*1g.@", "0");
}

#[test]
fn get_in_range_reads_the_grid() {
    expect_output("00g.@", "48");
}

#[test]
fn put_out_of_range_is_fatal() {
    let (r, _) = run("599*1p@");
    assert_eq!(r, RunResult::Failed(RuntimeError::BoundsError { x: 5, y: 0 }));
}

#[test]
fn put_then_get_round_trip() {
    expect_output("77*00p00g.@", "49");
}

#[test]
fn duplicate_on_empty_stack_twice() {
    let (r, out) = run(":$$:$$@");
    assert_eq!(r, RunResult::Halted);
    assert_eq!(out, b"");
}

#[test]
fn duplicate_on_empty_stack_prints_zeros() {
    expect_output(":.:.@", "00");
}

#[test]
fn underflow_on_add() {
    let (r, _) = run("+@");
    assert_eq!(r, RunResult::Failed(RuntimeError::StackUnderflow { x: 0, y: 0 }));
}

#[test]
fn underflow_on_discard() {
    let (r, _) = run("$@");
    assert_eq!(r, RunResult::Failed(RuntimeError::StackUnderflow { x: 0, y: 0 }));
}

#[test]
fn branch_east_on_zero() {
    expect_output("0_1.@", "1");
}

#[test]
fn branch_west_on_nonzero_wraps() {
    let (r, out) = run("1_,@");
    assert_eq!(r, RunResult::Halted);
    assert_eq!(out, b"");
}

#[test]
fn vertical_branch_south_on_zero() {
    let (r, _) = run("0|\n @");
    assert_eq!(RunResult::Halted, r);
}

#[test]
fn vertical_branch_north_on_nonzero_wraps() {
    let src = format!("1|{}{}", "\n".repeat(24), " @");
    let (r, _) = run(&src);
    assert_eq!(RunResult::Halted, r);
}

#[test]
fn wrap_west_edge() {
    let (r, out) = run("<@");
    assert_eq!(r, RunResult::Halted);
    assert_eq!(out, b"");
}

#[test]
fn wrap_north_edge() {
    let src = format!("^{}@", "\n".repeat(24));
    let (r, _) = run(&src);
    assert_eq!(RunResult::Halted, r);
}

#[test]
fn wrap_east_edge() {
    let (r, _) = run("  v\n@ >");
    assert_eq!(RunResult::Halted, r);
}

#[test]
fn wrap_south_edge() {
    let (r, _) = run("v @\n> v");
    assert_eq!(RunResult::Halted, r);
}

#[test]
fn random_direction_halts_on_every_exit() {
    let (r, out) = run("v\n?@\n@");
    assert_eq!(r, RunResult::Halted);
    assert_eq!(out, b"");
}

#[test]
fn unknown_opcodes_are_no_ops() {
    expect_output("ab1.c@", "1");
}

#[test]
fn random_free_runs_are_deterministic() {
    let (r1, out1) = run("\"!dlroW ,olleH\">:#,_@");
    let (r2, out2) = run("\"!dlroW ,olleH\">:#,_@");
    assert_eq!(r1, r2);
    assert_eq!(out1, out2);
}

#[test]
fn paused_run_resumes_where_it_stopped() {
    let mut env = Environment::load("54+.@").unwrap();
    let input: Vec<u8> = Vec::new();
    assert_eq!(env.run_with_input(&input, 2), RunResult::Paused);
    assert!(env.is_running());
    assert_eq!(env.run_with_input(&input, FUEL), RunResult::Halted);
    assert_eq!(env.output().clone(), b"9".to_vec());
}

#[test]
fn endless_program_pauses_and_keeps_running() {
    let mut env = Environment::load(">").unwrap();
    let input: Vec<u8> = Vec::new();
    let r = env.run_with_input(&input, 1000);
    assert_eq!(r, RunResult::Paused);
    assert!(env.is_running());
}
