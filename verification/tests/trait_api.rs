//! The interpreter trait: building a machine and driving it stepwise.

use befunge93::{Befunge93Interpreter, Environment, RunResult, StepOutcome};

#[test]
fn new_and_execute() {
    let mut env = Environment::new(String::from("54+.@"));
    let r = env.execute(100_000);
    assert_eq!(r, RunResult::Halted);
    assert_eq!(env.output().clone(), b"9".to_vec());
}

#[test]
fn execute_without_input_fails_on_read() {
    let mut env = Environment::new(String::from("&.@"));
    let r = env.execute(100_000);
    assert!(matches!(r, RunResult::Failed(_)));
}

#[test]
fn cells_read_back_what_was_set() {
    let mut env = Environment::new(String::from("@"));
    env.set_cell(10, 20, 7);
    assert_eq!(env.get_cell(10, 20), 7);
    assert_eq!(env.get_current_instruction(), 64);
}

#[test]
fn push_and_pop_are_lifo() {
    let mut env = Environment::new(String::from("@"));
    env.push(1);
    env.push(2);
    assert_eq!(env.pop(), 2);
    assert_eq!(env.pop(), 1);
}

#[test]
fn stepping_serves_input_requests() {
    let mut env = Environment::new(String::from("&.@"));
    assert_eq!(env.step(), StepOutcome::NeedInteger);
    env.supply_integer(42);
    assert_eq!(env.step(), StepOutcome::Stepped);
    assert_eq!(env.step(), StepOutcome::Halted);
    assert_eq!(env.output().clone(), b"42".to_vec());
}

#[test]
fn stepping_serves_byte_requests() {
    let mut env = Environment::new(String::from("~,@"));
    assert_eq!(env.step(), StepOutcome::NeedByte);
    env.supply_byte(65);
    assert_eq!(env.step(), StepOutcome::Stepped);
    assert_eq!(env.step(), StepOutcome::Halted);
    assert_eq!(env.output().clone(), b"A".to_vec());
}

#[test]
fn update_position_wraps() {
    let mut env = Environment::new(String::from("<@"));
    // heading east from the origin
    env.update_position();
    assert_eq!(env.get_current_instruction(), 64);
}
