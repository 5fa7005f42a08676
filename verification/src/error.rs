use vstd::prelude::*;

verus! {

/// Why a character or a line of notation was turned down.
#[derive(Clone, Copy, Debug, PartialEq, Eq, Structural)]
pub enum ParseError {
    /// The placement field holds a character that is neither a run of empty
    /// squares, a row separator nor a piece letter.
    InvalidChar,
    /// A character was read as a piece and is none of the six piece letters.
    InvalidPieceLetter,
    /// The line ends after the placement field.
    MissingActiveColor,
    /// The second field is neither `w` nor `b`.
    InvalidActiveColor,
}

impl ParseError {
    /// A sentence for the person who typed the notation.
    pub fn message(&self) -> (text: &'static str)
        ensures
            text@ == match *self {
                ParseError::InvalidChar => "Invalid character."@,
                ParseError::InvalidPieceLetter => "Invalid character."@,
                ParseError::MissingActiveColor => "Invalid FEN string: No active color."@,
                ParseError::InvalidActiveColor =>
                    "Invalid FEN string: Failed to determine active color."@,
            },
    {
        match self {
            ParseError::InvalidChar => "Invalid character.",
            ParseError::InvalidPieceLetter => "Invalid character.",
            ParseError::MissingActiveColor => "Invalid FEN string: No active color.",
            ParseError::InvalidActiveColor =>
                "Invalid FEN string: Failed to determine active color.",
        }
    }
}

} // verus!
