//! Grid-loading bounds: an exact fit loads, one cell over fails.

use befunge93::{Environment, LoadError};

#[test]
fn exactly_eighty_columns_load() {
    let line = format!("{}@", " ".repeat(79));
    assert_eq!(line.len(), 80);
    assert!(Environment::load(&line).is_ok());
}

#[test]
fn eighty_one_columns_are_too_wide() {
    let line = " ".repeat(81);
    let r = Environment::load(&line);
    assert!(matches!(r, Err(LoadError::ProgramTooWide)));
}

#[test]
fn exactly_twenty_five_rows_load() {
    let src = "@\n".repeat(25);
    assert!(Environment::load(&src).is_ok());
}

#[test]
fn twenty_six_rows_are_too_tall() {
    let src = format!("{}@", "\n".repeat(25));
    let r = Environment::load(&src);
    assert!(matches!(r, Err(LoadError::ProgramTooTall)));
}

#[test]
fn blank_lines_beyond_the_grid_are_harmless() {
    let src = format!("@{}", "\n".repeat(40));
    assert!(Environment::load(&src).is_ok());
}

#[test]
fn spaces_occupy_cells() {
    let line = format!("{}@{}", " ".repeat(70), " ".repeat(10));
    assert!(matches!(Environment::load(&line), Err(LoadError::ProgramTooWide)));
}
