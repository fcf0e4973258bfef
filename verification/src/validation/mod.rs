//! Checks of a parsed layout. They report; they never abort.

pub mod checks;
pub mod validate;
