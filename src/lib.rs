//! An interpreter for a tape-based esoteric language of eight one-character
//! instructions: a parser that links loop delimiters, and a stepping engine.

pub mod instruction;
pub mod parser;
pub mod machine;
pub mod laws;
