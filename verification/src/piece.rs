use vstd::prelude::*;
use crate::error::ParseError;

verus! {

/// The six kinds of chessmen.
#[derive(Clone, Copy, Debug, PartialEq, Eq, Structural)]
pub enum ChessPiece {
    King,
    Queen,
    Rook,
    Knight,
    Bishop,
    Pawn,
}

/// What stands on one square.
#[derive(Clone, Copy, Debug, PartialEq, Eq, Structural)]
pub enum Occupation {
    Neutral,
    White(ChessPiece),
    Black(ChessPiece),
}

/// The kind that a letter names, in either case.
pub open spec fn piece_of_letter(c: char) -> Option<ChessPiece> {
    if c == 'K' || c == 'k' {
        Some(ChessPiece::King)
    } else if c == 'Q' || c == 'q' {
        Some(ChessPiece::Queen)
    } else if c == 'R' || c == 'r' {
        Some(ChessPiece::Rook)
    } else if c == 'N' || c == 'n' {
        Some(ChessPiece::Knight)
    } else if c == 'B' || c == 'b' {
        Some(ChessPiece::Bishop)
    } else if c == 'P' || c == 'p' {
        Some(ChessPiece::Pawn)
    } else {
        None
    }
}

/// Capital letters are White's.
pub open spec fn is_capital(c: char) -> bool {
    'A' <= c <= 'Z'
}

/// The piece and its side that a letter names: the letter gives the kind, its
/// case the side.
pub open spec fn occupation_of_letter(c: char) -> Option<Occupation> {
    match piece_of_letter(c) {
        Some(piece) => Some(
            if is_capital(c) {
                Occupation::White(piece)
            } else {
                Occupation::Black(piece)
            },
        ),
        None => None,
    }
}

/// The material worth of each kind; the king's is the largest a byte holds.
pub open spec fn material_value(piece: ChessPiece) -> int {
    match piece {
        ChessPiece::King => 255,
        ChessPiece::Queen => 9,
        ChessPiece::Rook => 5,
        ChessPiece::Knight => 3,
        ChessPiece::Bishop => 3,
        ChessPiece::Pawn => 1,
    }
}

/// The outlined figure of each kind.
pub open spec fn white_glyph(piece: ChessPiece) -> char {
    match piece {
        ChessPiece::King => '\u{2654}',
        ChessPiece::Queen => '\u{2655}',
        ChessPiece::Rook => '\u{2656}',
        ChessPiece::Knight => '\u{2658}',
        ChessPiece::Bishop => '\u{2657}',
        ChessPiece::Pawn => '\u{2659}',
    }
}

/// The filled figure of each kind.
pub open spec fn black_glyph(piece: ChessPiece) -> char {
    match piece {
        ChessPiece::King => '\u{265A}',
        ChessPiece::Queen => '\u{265B}',
        ChessPiece::Rook => '\u{265C}',
        ChessPiece::Knight => '\u{265E}',
        ChessPiece::Bishop => '\u{265D}',
        ChessPiece::Pawn => '\u{265F}',
    }
}

/// The figure drawn on the board for either side, the colour being left to
/// the terminal: the filled one, but for the pawn, which is drawn outlined.
pub open spec fn working_glyph(piece: ChessPiece) -> char {
    match piece {
        ChessPiece::Pawn => white_glyph(piece),
        _ => black_glyph(piece),
    }
}

impl ChessPiece {
    pub fn get_value(&self) -> (value: u8)
        ensures
            value == material_value(*self),
    {
        match self {
            Self::King => u8::MAX,
            Self::Queen => 9,
            Self::Rook => 5,
            Self::Knight => 3,
            Self::Bishop => 3,
            Self::Pawn => 1,
        }
    }

    pub fn get_white_version(&self) -> (glyph: char)
        ensures
            glyph == white_glyph(*self),
    {
        match self {
            Self::King => '\u{2654}',
            Self::Queen => '\u{2655}',
            Self::Rook => '\u{2656}',
            Self::Knight => '\u{2658}',
            Self::Bishop => '\u{2657}',
            Self::Pawn => '\u{2659}',
        }
    }

    pub fn get_black_version(&self) -> (glyph: char)
        ensures
            glyph == black_glyph(*self),
    {
        match self {
            Self::King => '\u{265A}',
            Self::Queen => '\u{265B}',
            Self::Rook => '\u{265C}',
            Self::Knight => '\u{265E}',
            Self::Bishop => '\u{265D}',
            Self::Pawn => '\u{265F}',
        }
    }

    pub fn get_working_version(&self) -> (glyph: char)
        ensures
            glyph == working_glyph(*self),
    {
        match self {
            Self::Pawn => self.get_white_version(),
            _ => self.get_black_version(),
        }
    }

    /// Reads a piece letter, whatever its case.
    pub fn from_char(c: char) -> (result: Result<Self, ParseError>)
        ensures
            result == match piece_of_letter(c) {
                Some(piece) => Ok::<Self, ParseError>(piece),
                None => Err::<Self, ParseError>(ParseError::InvalidPieceLetter),
            },
    {
        match c {
            'K' | 'k' => Ok(Self::King),
            'Q' | 'q' => Ok(Self::Queen),
            'R' | 'r' => Ok(Self::Rook),
            'N' | 'n' => Ok(Self::Knight),
            'B' | 'b' => Ok(Self::Bishop),
            'P' | 'p' => Ok(Self::Pawn),
            _ => Err(ParseError::InvalidPieceLetter),
        }
    }
}

impl Occupation {
    /// Reads a piece letter: a capital is a white piece, a small letter a
    /// black one.
    pub fn from_char(c: char) -> (result: Result<Self, ParseError>)
        ensures
            result == match occupation_of_letter(c) {
                Some(occupation) => Ok::<Self, ParseError>(occupation),
                None => Err::<Self, ParseError>(ParseError::InvalidPieceLetter),
            },
    {
        match ChessPiece::from_char(c) {
            Ok(piece) => if 'A' <= c && c <= 'Z' {
                Ok(Self::White(piece))
            } else {
                Ok(Self::Black(piece))
            },
            Err(e) => Err(e),
        }
    }
}

} // verus!
