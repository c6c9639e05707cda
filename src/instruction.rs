use vstd::prelude::*;

verus! {

/// What one character of source does when executed.
#[derive(Clone, Copy, Debug, PartialEq, Eq, Structural)]
pub enum Command {
    /// `[`: jump to the given index (its matching `]`) when the cell is zero.
    JumpForward(usize),
    /// `]`: jump to the given index (its matching `[`) when the cell is nonzero.
    JumpBackward(usize),
    /// `<`
    DecPtr,
    /// `>`
    IncPtr,
    /// `-`
    DecData,
    /// `+`
    IncData,
    /// `,`
    Input,
    /// `.`
    Output,
    /// Any other character.
    NoOp,
}

/// One parsed character: its command, the character itself, and where it
/// stands in the source, line and column both counted from zero.
#[derive(Clone, Copy, Debug, PartialEq, Eq, Structural)]
pub struct Instruction {
    pub command: Command,
    pub ch: char,
    pub line: usize,
    pub column: usize,
}

/// The command of a character that is not a loop delimiter.
pub open spec fn command_of(c: char) -> Command {
    if c == '<' {
        Command::DecPtr
    } else if c == '>' {
        Command::IncPtr
    } else if c == '-' {
        Command::DecData
    } else if c == '+' {
        Command::IncData
    } else if c == ',' {
        Command::Input
    } else if c == '.' {
        Command::Output
    } else {
        Command::NoOp
    }
}

} // verus!
