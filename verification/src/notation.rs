use vstd::prelude::*;
use crate::error::ParseError;
use crate::piece::Occupation;
use crate::placement::{empty_squares, lemma_placed_within_board, placement};

verus! {

/// Whose move it is, or how the game ended.
#[derive(Clone, Copy, Debug, PartialEq, Eq, Structural)]
pub enum GameState {
    WhiteToMove,
    BlackToMove,
    WhiteWon,
    BlackWon,
    Tie,
}

/// A position as a mathematical value: the squares row by row, starting with
/// the first row of the notation, and the state of the game.
pub struct Position {
    pub squares: Seq<Occupation>,
    pub state: GameState,
}

/// The index of the first space at or after `from`, or the length of the
/// text where there is none: the end of the field that `from` stands in.
pub open spec fn field_end(text: Seq<char>, from: int) -> int
    decreases text.len() - from,
{
    if from < 0 || from >= text.len() {
        text.len() as int
    } else if text[from] == ' ' {
        from
    } else {
        field_end(text, from + 1)
    }
}

/// The state that an active-colour field names.
pub open spec fn active_color(token: Seq<char>) -> Result<GameState, ParseError> {
    if token =~= seq!['w'] {
        Ok(GameState::WhiteToMove)
    } else if token =~= seq!['b'] {
        Ok(GameState::BlackToMove)
    } else {
        Err(ParseError::InvalidActiveColor)
    }
}

/// The position that a line of notation describes. Its fields are parted by
/// single spaces. The first is the placement, the second the side to move;
/// what follows the second is not read. An error in the placement comes
/// before one in the side to move.
pub open spec fn parse_fen(text: Seq<char>) -> Result<Position, ParseError> {
    let first_end = field_end(text, 0);
    match placement(text.subrange(0, first_end)) {
        Err(e) => Err(e),
        Ok(squares) => if first_end >= text.len() {
            Err(ParseError::MissingActiveColor)
        } else {
            let second_end = field_end(text, first_end + 1);
            match active_color(text.subrange(first_end + 1, second_end)) {
                Err(e) => Err(e),
                Ok(state) => Ok(Position { squares, state }),
            }
        },
    }
}

/// The end of a field lies between its start and the end of the text, no
/// space stands before it, and one stands at it unless the text ends there.
pub proof fn lemma_field_end_bounds(text: Seq<char>, from: int)
    requires
        0 <= from <= text.len(),
    ensures
        from <= field_end(text, from) <= text.len(),
        forall|i: int| from <= i < field_end(text, from) ==> text[i] != ' ',
        field_end(text, from) < text.len() ==> text[field_end(text, from)] == ' ',
        forall|i: int|
            from <= i <= field_end(text, from) ==> #[trigger] field_end(text, i) == field_end(
                text,
                from,
            ),
    decreases text.len() - from,
{
    if from < text.len() && text[from] != ' ' {
        lemma_field_end_bounds(text, from + 1);
    }
}

/// The end of a field is the only place at or after its start that no space
/// precedes and where a space, or the end of the text, stands.
pub proof fn lemma_field_end_unique(text: Seq<char>, from: int, end: int)
    requires
        0 <= from <= end <= text.len(),
        forall|i: int| from <= i < end ==> text[i] != ' ',
        end < text.len() ==> text[end] == ' ',
    ensures
        field_end(text, from) == end,
    decreases end - from,
{
    if from < end {
        lemma_field_end_unique(text, from + 1, end);
    }
}

/// A line that fails in its placement fails with that error, whatever
/// follows the placement.
pub proof fn lemma_placement_error_first(text: Seq<char>)
    requires
        placement(text.subrange(0, field_end(text, 0))) is Err,
    ensures
        parse_fen(text) == Err::<Position, ParseError>(ParseError::InvalidChar),
{
    lemma_field_end_bounds(text, 0);
    lemma_placed_within_board(text.subrange(0, field_end(text, 0)), 0, 0, empty_squares());
}

/// A line without a space, which is a placement with nothing after it, lacks
/// the side to move, if the placement itself is in order.
pub proof fn lemma_missing_active_color(text: Seq<char>)
    requires
        forall|i: int| 0 <= i < text.len() ==> text[i] != ' ',
        placement(text) is Ok,
    ensures
        parse_fen(text) == Err::<Position, ParseError>(ParseError::MissingActiveColor),
{
    lemma_field_end_unique(text, 0, text.len() as int);
    assert(text.subrange(0, text.len() as int) =~= text);
}

} // verus!
