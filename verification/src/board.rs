use std::str::Chars;
use vstd::prelude::*;
use vstd::std_specs::cmp::PartialEqSpec;
use vstd::std_specs::iter::IteratorSpec;
use crate::error::ParseError;
use crate::notation::{
    active_color, field_end, lemma_field_end_bounds, lemma_field_end_unique, parse_fen, GameState,
    Position,
};
use crate::placement::{empty_squares, filled, lemma_piece_letters, placed_from, placement};
use crate::piece::{ChessPiece, Occupation};
use crate::render::{render_squares, rendered};

verus! {

/// A chess position: the board and whose move it is. Built empty or from a
/// line of notation, and never changed afterwards.
#[derive(Clone, Copy, Debug)]
pub struct ChessBoard {
    board: [Occupation; 64],
    game_state: GameState,
}

impl View for ChessBoard {
    type V = Position;

    closed spec fn view(&self) -> Position {
        Position { squares: self.board@, state: self.game_state }
    }
}

/// The pieces of a side's back row, from the first column to the eighth.
pub open spec fn back_row(column: int) -> ChessPiece {
    if column == 0 || column == 7 {
        ChessPiece::Rook
    } else if column == 1 || column == 6 {
        ChessPiece::Knight
    } else if column == 2 || column == 5 {
        ChessPiece::Bishop
    } else if column == 3 {
        ChessPiece::Queen
    } else {
        ChessPiece::King
    }
}

/// The position from which a game starts: Black's pieces on the first two
/// rows, White's on the last two, White to move.
pub open spec fn start_position() -> Position {
    Position {
        squares: Seq::new(
            64,
            |i: int|
                if i < 8 {
                    Occupation::Black(back_row(i))
                } else if i < 16 {
                    Occupation::Black(ChessPiece::Pawn)
                } else if i < 48 {
                    Occupation::Neutral
                } else if i < 56 {
                    Occupation::White(ChessPiece::Pawn)
                } else {
                    Occupation::White(back_row(i - 56))
                },
        ),
        state: GameState::WhiteToMove,
    }
}

/// The usual line of notation for the start of a game describes the start
/// position.
pub proof fn lemma_start_notation()
    ensures
        parse_fen("rnbqkbnr/pppppppp/8/8/8/8/PPPPPPPP/RNBQKBNR w KQkq - 0 1"@) == Ok::<
            Position,
            ParseError,
        >(start_position()),
{
    reveal_strlit("rnbqkbnr/pppppppp/8/8/8/8/PPPPPPPP/RNBQKBNR w KQkq - 0 1");
    let text = "rnbqkbnr/pppppppp/8/8/8/8/PPPPPPPP/RNBQKBNR w KQkq - 0 1"@;
    lemma_field_end_unique(text, 0, 43);
    lemma_field_end_unique(text, 44, 45);
    assert(text.subrange(44, 45) =~= seq!['w']);
    let field = text.subrange(0, 43);
    let black_back = filled(field, 0, 8, 0, empty_squares());
    let black = filled(field, 9, 8, 8, black_back);
    let white_pawns = filled(field, 26, 8, 48, black);
    let all = filled(field, 35, 8, 56, white_pawns);
    lemma_piece_letters(field, 0, 8, 0, empty_squares());
    assert(placed_from(field, 8, 8, black_back) == placed_from(field, 9, 8, black_back));
    lemma_piece_letters(field, 9, 8, 8, black_back);
    assert(placed_from(field, 17, 16, black) == placed_from(field, 26, 48, black)) by {
        reveal_with_fuel(placed_from, 10);
    }
    lemma_piece_letters(field, 26, 8, 48, black);
    assert(placed_from(field, 34, 56, white_pawns) == placed_from(field, 35, 56, white_pawns));
    lemma_piece_letters(field, 35, 8, 56, white_pawns);
    assert(all =~= start_position().squares);
}

/// Sixty-four empty squares.
fn empty_board() -> (board: [Occupation; 64])
    ensures
        board@ == empty_squares(),
{
    let board = [Occupation::Neutral;64];
    assert(board == vstd::array::spec_array_fill_for_copy_type::<Occupation, 64>(
        Occupation::Neutral,
    ));
    assert(board@ =~= empty_squares());
    board
}

/// Takes the next character of a text of which `k` have been taken.
fn take_char(chars: &mut Chars<'_>, Ghost(text): Ghost<Seq<char>>, Ghost(k): Ghost<int>) -> (next:
    Option<char>)
    requires
        0 <= k <= text.len(),
        (*old(chars)).remaining() == text.skip(k),
    ensures
        k < text.len() ==> next == Some(text[k]) && (*final(chars)).remaining() == text.skip(k + 1),
        k >= text.len() ==> next.is_none() && (*final(chars)).remaining() == text.skip(k),
{
    let next = chars.next();
    proof {
        if k < text.len() {
            assert(text.skip(k).drop_first() =~= text.skip(k + 1));
        }
    }
    next
}

impl ChessBoard {
    /// A board always has sixty-four squares.
    pub proof fn lemma_sixty_four_squares(self)
        ensures
            self@.squares.len() == 64,
    {
    }

    /// Creates a new empty board, White to move.
    pub fn new() -> (result: Self)
        ensures
            result@ == (Position { squares: empty_squares(), state: GameState::WhiteToMove }),
    {
        Self { board: empty_board(), game_state: GameState::WhiteToMove }
    }

    /// Reads a position from a line of notation: the placement of the pieces,
    /// a space, and `w` or `b` for the side to move. Further fields may follow
    /// and are not read.
    pub fn from_fen(fen: String) -> (result: Result<Self, ParseError>)
        ensures
            result matches Ok(board) ==> parse_fen(fen@) == Ok::<Position, ParseError>(board@),
            result matches Err(e) ==> parse_fen(fen@) == Err::<Position, ParseError>(e),
    {
        let ghost text = fen@;
        let ghost first_end = field_end(text, 0);
        proof {
            lemma_field_end_bounds(text, 0);
        }
        let ghost field = text.subrange(0, first_end);
        let mut chars = fen.as_str().chars();
        let mut board = empty_board();
        let mut cursor: usize = 0;
        let ghost mut k: int = 0;
        let mut second_field = false;
        let mut in_first_field = true;
        // The placement, up to the space after it, the end of the line, or the
        // end of the board.
        while cursor < 64 && in_first_field
            invariant
                text == fen@,
                first_end == field_end(text, 0),
                field == text.subrange(0, first_end),
                chars.remaining() == text.skip(k),
                0 <= k <= text.len(),
                0 <= first_end <= text.len(),
                in_first_field ==> !second_field && k <= first_end && field_end(text, k)
                    == first_end,
                !in_first_field && second_field ==> k == first_end + 1,
                !in_first_field && !second_field ==> k == first_end == text.len(),
                cursor <= 71,
                board@.len() == 64,
                in_first_field ==> placed_from(field, k, cursor as int, board@) == placement(field),
                !in_first_field ==> placement(field) == Ok::<Seq<Occupation>, ParseError>(board@),
            decreases text.len() - k + if in_first_field { 1int } else { 0int },
        {
            match take_char(&mut chars, Ghost(text), Ghost(k)) {
                None => {
                    in_first_field = false;
                },
                Some(c) => {
                    proof {
                        assert(field_end(text, k) == if c == ' ' {
                            k
                        } else {
                            field_end(text, k + 1)
                        });
                        lemma_field_end_bounds(text, k + 1);
                        k = k + 1;
                    }
                    if c == ' ' {
                        in_first_field = false;
                        second_field = true;
                    } else {
                        if '1' <= c && c <= '8' {
                            cursor = cursor + (c as usize - '0' as usize);
                        } else if c == '/' {
                            if cursor % 8 != 0 {
                                cursor = cursor + (8 - cursor % 8);
                            }
                        } else {
                            match Occupation::from_char(c) {
                                Ok(occupation) => {
                                    board[cursor] = occupation;
                                    cursor = cursor + 1;
                                },
                                Err(_) => {
                                    return Err(ParseError::InvalidChar);
                                },
                            }
                        }
                    }
                },
            }
        }
        // What is left of a placement that ran over the end of the board.
        while in_first_field
            invariant
                text == fen@,
                first_end == field_end(text, 0),
                chars.remaining() == text.skip(k),
                0 <= k <= text.len(),
                0 <= first_end <= text.len(),
                in_first_field ==> !second_field && k <= first_end && field_end(text, k)
                    == first_end,
                !in_first_field && second_field ==> k == first_end + 1,
                !in_first_field && !second_field ==> k == first_end == text.len(),
            decreases text.len() - k + if in_first_field { 1int } else { 0int },
        {
            match take_char(&mut chars, Ghost(text), Ghost(k)) {
                None => {
                    in_first_field = false;
                },
                Some(c) => {
                    proof {
                        assert(field_end(text, k) == if c == ' ' {
                            k
                        } else {
                            field_end(text, k + 1)
                        });
                        lemma_field_end_bounds(text, k + 1);
                        k = k + 1;
                    }
                    if c == ' ' {
                        in_first_field = false;
                        second_field = true;
                    }
                },
            }
        }
        if !second_field {
            return Err(ParseError::MissingActiveColor);
        }
        let ghost second_end = field_end(text, first_end + 1);
        proof {
            lemma_field_end_bounds(text, first_end + 1);
        }
        let ghost token = text.subrange(first_end + 1, second_end);
        // The side to move: one letter, then a space or the end of the line.
        let game_state = match take_char(&mut chars, Ghost(text), Ghost(k)) {
            None => {
                return Err(ParseError::InvalidActiveColor);
            },
            Some(c) => {
                let alone = match take_char(&mut chars, Ghost(text), Ghost(k + 1)) {
                    None => true,
                    Some(d) => d == ' ',
                };
                proof {
                    if c != ' ' {
                        assert(token[0] == c);
                    }
                }
                if alone && c == 'w' {
                    GameState::WhiteToMove
                } else if alone && c == 'b' {
                    GameState::BlackToMove
                } else {
                    return Err(ParseError::InvalidActiveColor);
                }
            },
        };
        Ok(Self { board, game_state })
    }

    /// What stands on the square with the given index, counted row by row;
    /// nothing beyond the sixty-fourth.
    pub fn occupation(&self, index: usize) -> (result: Option<Occupation>)
        ensures
            result == if index < 64 {
                Some(self@.squares[index as int])
            } else {
                None
            },
    {
        if index < 64 {
            Some(self.board[index])
        } else {
            None
        }
    }

    /// The board drawn for a terminal that knows colours.
    pub fn render(&self) -> (text: String)
        ensures
            text@ == rendered(self@.squares),
    {
        render_squares(&self.board)
    }

    /// Whose move it is.
    pub fn game_state(&self) -> (result: GameState)
        ensures
            result == self@.state,
    {
        self.game_state
    }
}

impl Default for ChessBoard {
    /// The position from which a game starts, read from its usual line of
    /// notation.
    fn default() -> (result: Self)
        ensures
            result@ == start_position(),
    {
        proof {
            lemma_start_notation();
        }
        Self::from_fen(
            "rnbqkbnr/pppppppp/8/8/8/8/PPPPPPPP/RNBQKBNR w KQkq - 0 1".to_owned(),
        ).expect("Failed to generate default chess board from fen-string.")
    }
}

impl PartialEq for ChessBoard {
    fn eq(&self, other: &Self) -> (equal: bool) {
        if !(self.game_state == other.game_state) {
            return false;
        }
        let mut i: usize = 0;
        while i < 64
            invariant
                i <= 64,
                self.game_state == other.game_state,
                forall|j: int| 0 <= j < i ==> self.board@[j] == other.board@[j],
            decreases 64 - i,
        {
            if !(self.board[i] == other.board[i]) {
                return false;
            }
            i = i + 1;
        }
        assert(self.board@ =~= other.board@);
        true
    }
}

impl Eq for ChessBoard {

}

impl vstd::std_specs::cmp::PartialEqSpecImpl for ChessBoard {
    open spec fn obeys_eq_spec() -> bool {
        true
    }

    open spec fn eq_spec(&self, other: &Self) -> bool {
        self@ == other@
    }
}

/// Two boards are equal exactly when the side to move is the same and each
/// of the sixty-four squares holds the same.
pub proof fn lemma_equal_square_by_square(a: ChessBoard, b: ChessBoard)
    ensures
        a.eq_spec(&b) <==> a@.state == b@.state && forall|i: int|
            0 <= i < 64 ==> a@.squares[i] == b@.squares[i],
        a.eq_spec(&b) <==> a == b,
{
    a.lemma_sixty_four_squares();
    b.lemma_sixty_four_squares();
    if a@.state == b@.state && (forall|i: int| 0 <= i < 64 ==> a@.squares[i] == b@.squares[i]) {
        assert(a.board =~= b.board);
    }
}

/// Two boards read from the same line of notation are equal.
pub proof fn lemma_same_notation_equal(text: Seq<char>, a: ChessBoard, b: ChessBoard)
    requires
        parse_fen(text) == Ok::<Position, ParseError>(a@),
        parse_fen(text) == Ok::<Position, ParseError>(b@),
    ensures
        a.eq_spec(&b),
        a == b,
{
    lemma_equal_square_by_square(a, b);
}

} // verus!
