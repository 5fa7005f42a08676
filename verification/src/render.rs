use vstd::prelude::*;
use vstd::string::StringExecFns;
use crate::piece::{working_glyph, Occupation};

verus! {

/// `String::push` of the standard library: the character is added at the end
/// of the string, and the rest of it stays.
pub assume_specification[ String::push ](text: &mut String, c: char)
    ensures
        final(text)@ == old(text)@.push(c),
;

/// The escape sequence for the colour under a square: the brown of a dark
/// square where row and column add up to an even number, the beige of a
/// light square elsewhere.
pub open spec fn background(index: int) -> Seq<char> {
    if (index / 8 + index % 8) % 2 == 0 {
        "\x1b[48;2;161;111;90m"@
    } else {
        "\x1b[48;2;235;211;184m"@
    }
}

/// The escape sequence for the colour of a piece: white or black. An empty
/// square sets none.
pub open spec fn foreground(occupation: Occupation) -> Seq<char> {
    match occupation {
        Occupation::Neutral => Seq::empty(),
        Occupation::White(_) => "\x1b[38;2;255;255;255m"@,
        Occupation::Black(_) => "\x1b[38;2;0;0;0m"@,
    }
}

/// The two characters drawn on a square: the figure and a space, or two
/// spaces.
pub open spec fn cell_text(occupation: Occupation) -> Seq<char> {
    match occupation {
        Occupation::Neutral => seq![' ', ' '],
        Occupation::White(piece) => seq![working_glyph(piece), ' '],
        Occupation::Black(piece) => seq![working_glyph(piece), ' '],
    }
}

/// What ends a row: a new line, and the colours set back.
pub open spec fn row_end() -> Seq<char> {
    "\n\x1b[0m"@
}

/// The drawing of the first `count` squares.
pub open spec fn rendered_upto(squares: Seq<Occupation>, count: int) -> Seq<char>
    decreases count,
{
    if count <= 0 {
        Seq::empty()
    } else {
        rendered_upto(squares, count - 1) + background(count - 1) + foreground(squares[count - 1])
            + cell_text(squares[count - 1]) + if count % 8 == 0 {
            row_end()
        } else {
            Seq::empty()
        }
    }
}

/// The drawing of a board: eight rows of eight squares.
pub open spec fn rendered(squares: Seq<Occupation>) -> Seq<char> {
    rendered_upto(squares, 64)
}

impl Occupation {
    /// The two characters drawn on a square that holds this.
    pub fn text(&self) -> (text: String)
        ensures
            text@ == cell_text(*self),
    {
        let mut text = String::new();
        match self {
            Occupation::Neutral => {
                text.push(' ');
            },
            Occupation::White(piece) => {
                text.push(piece.get_working_version());
            },
            Occupation::Black(piece) => {
                text.push(piece.get_working_version());
            },
        }
        text.push(' ');
        assert(text@ =~= cell_text(*self));
        text
    }
}

/// The board drawn for a terminal: each square with its background colour,
/// the colour of its piece and two characters, each row ended by a new line.
pub(crate) fn render_squares(squares: &[Occupation; 64]) -> (text: String)
    ensures
        text@ == rendered(squares@),
{
    let mut text = String::new();
    let mut index: usize = 0;
    assert(text@ =~= rendered_upto(squares@, 0));
    while index < 64
        invariant
            index <= 64,
            text@ == rendered_upto(squares@, index as int),
        decreases 64 - index,
    {
        let occupation = squares[index];
        if (index / 8 + index % 8) % 2 == 0 {
            text.append("\x1b[48;2;161;111;90m");
        } else {
            text.append("\x1b[48;2;235;211;184m");
        }
        match occupation {
            Occupation::Neutral => {},
            Occupation::White(_) => {
                text.append("\x1b[38;2;255;255;255m");
            },
            Occupation::Black(_) => {
                text.append("\x1b[38;2;0;0;0m");
            },
        }
        let cell = occupation.text();
        text.append(cell.as_str());
        index = index + 1;
        if index % 8 == 0 {
            text.append("\n\x1b[0m");
        }
        assert(text@ =~= rendered_upto(squares@, index as int));
    }
    text
}

} // verus!
