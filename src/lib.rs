//! Reads messages that describe a plateau and the rovers on it, and runs
//! each rover's instructions in turn.

pub mod enums;
pub mod laws;
pub mod parse;
pub mod rover;
pub mod text;
