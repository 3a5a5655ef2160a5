//! The two input instructions, served from a scripted byte stream.

use befunge93::{Environment, RunResult, RuntimeError};

const FUEL: usize = 100_000;

fn run_io(src: &str, input: &[u8]) -> (RunResult, Vec<u8>) {
    let mut env = Environment::load(src).unwrap();
    let input_vec: Vec<u8> = input.to_vec();
    let r = env.run_with_input(&input_vec, FUEL);
    let out: Vec<u8> = env.output().clone();
    (r, out)
}

#[test]
fn read_integer_and_print() {
    let (r, out) = run_io("&.@", b"42");
    assert_eq!(r, RunResult::Halted);
    assert_eq!(out, b"42");
}

#[test]
fn read_integer_skips_whitespace() {
    let (r, out) = run_io("&.@", b"  \n 7 ");
    assert_eq!(r, RunResult::Halted);
    assert_eq!(out, b"7");
}

#[test]
fn read_two_integers() {
    let (r, out) = run_io("&&+.@", b"40 2");
    assert_eq!(r, RunResult::Halted);
    assert_eq!(out, b"42");
}

#[test]
fn malformed_integer_is_fatal() {
    let (r, _) = run_io("&.@", b"abc");
    assert_eq!(r, RunResult::Failed(RuntimeError::InputError { x: 0, y: 0 }));
}

#[test]
fn exhausted_integer_input_is_fatal() {
    let (r, _) = run_io("&.@", b"");
    assert_eq!(r, RunResult::Failed(RuntimeError::InputError { x: 0, y: 0 }));
}

#[test]
fn overflowing_integer_is_fatal() {
    let (r, _) = run_io("&.@", b"99999999999999999999999999");
    assert_eq!(r, RunResult::Failed(RuntimeError::InputError { x: 0, y: 0 }));
}

#[test]
fn read_byte_and_print() {
    let (r, out) = run_io("~,@", b"A");
    assert_eq!(r, RunResult::Halted);
    assert_eq!(out, b"A");
}

#[test]
fn exhausted_byte_input_is_fatal() {
    let (r, _) = run_io("~,@", b"");
    assert_eq!(r, RunResult::Failed(RuntimeError::InputError { x: 0, y: 0 }));
}

#[test]
fn byte_reads_take_raw_whitespace() {
    let (r, out) = run_io("~,~,@", b" x");
    assert_eq!(r, RunResult::Halted);
    assert_eq!(out, b" x");
}
