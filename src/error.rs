use vstd::prelude::*;

verus! {

/// The ways in which the machine, or reading a program for it, can fail.
#[derive(Debug, Clone, Copy, PartialEq, Eq, Structural)]
pub enum Chip8Error {
    /// The program file could not be read.
    FileNotFound,
    /// The word does not name any instruction of its family.
    UnknownInstruction(u16),
    /// A call was made with all fifteen return slots in use.
    StackOverflow,
    /// A return was made with no call to return from.
    StackUnderflow,
}

impl Chip8Error {
    /// A short human-readable description of the error.
    pub fn message(&self) -> (r: &'static str)
        ensures
            r@ == self.message_spec(),
    {
        match self {
            Chip8Error::FileNotFound => "File not found",
            Chip8Error::UnknownInstruction(_) => "Unknown instruction",
            Chip8Error::StackOverflow => "Stack overflow",
            Chip8Error::StackUnderflow => "Stack underflow",
        }
    }

    pub open spec fn message_spec(&self) -> Seq<char> {
        match self {
            Chip8Error::FileNotFound => "File not found"@,
            Chip8Error::UnknownInstruction(_) => "Unknown instruction"@,
            Chip8Error::StackOverflow => "Stack overflow"@,
            Chip8Error::StackUnderflow => "Stack underflow"@,
        }
    }
}

} // verus!
