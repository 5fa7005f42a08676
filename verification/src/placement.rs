use vstd::prelude::*;
use crate::error::ParseError;
use crate::piece::{is_capital, occupation_of_letter, piece_of_letter, Occupation};

verus! {

/// Sixty-four empty squares.
pub open spec fn empty_squares() -> Seq<Occupation> {
    Seq::new(64, |i: int| Occupation::Neutral)
}

/// The digits that stand for a run of empty squares.
pub open spec fn is_run(c: char) -> bool {
    '1' <= c <= '8'
}

/// How many squares a run digit skips.
pub open spec fn run_length(c: char) -> int {
    c as int - '0' as int
}

/// Where a row separator leaves the cursor: at the start of the next row,
/// unless it already stands at the start of one.
pub open spec fn row_start(cursor: int) -> int {
    if cursor % 8 == 0 {
        cursor
    } else {
        cursor + 8 - cursor % 8
    }
}

/// Whether a character may stand in a placement field.
pub open spec fn is_placement_char(c: char) -> bool {
    is_run(c) || c == '/' || occupation_of_letter(c) is Some
}

/// What is left to do with a placement field from its `k`-th character on,
/// the cursor standing at `cursor` and `squares` being filled so far. A run
/// digit moves the cursor, a separator moves it to a row start, a piece letter
/// fills the square under the cursor and moves on by one. Reading ends with
/// the field, or as soon as the cursor has left the board; whatever follows
/// then goes unread.
pub open spec fn placed_from(
    field: Seq<char>,
    k: int,
    cursor: int,
    squares: Seq<Occupation>,
) -> Result<Seq<Occupation>, ParseError>
    decreases field.len() - k,
{
    if k < 0 || k >= field.len() || cursor >= 64 {
        Ok(squares)
    } else if is_run(field[k]) {
        placed_from(field, k + 1, cursor + run_length(field[k]), squares)
    } else if field[k] == '/' {
        placed_from(field, k + 1, row_start(cursor), squares)
    } else {
        match occupation_of_letter(field[k]) {
            Some(occupation) => placed_from(
                field,
                k + 1,
                cursor + 1,
                squares.update(cursor, occupation),
            ),
            None => Err(ParseError::InvalidChar),
        }
    }
}

/// Where the cursor stands when reading of a placement field ends, from the
/// same state as `placed_from`. Every character that is neither a run nor a
/// separator moves it by one, as a piece letter does.
pub open spec fn cursor_from(field: Seq<char>, k: int, cursor: int) -> int
    decreases field.len() - k,
{
    if k < 0 || k >= field.len() || cursor >= 64 {
        cursor
    } else if is_run(field[k]) {
        cursor_from(field, k + 1, cursor + run_length(field[k]))
    } else if field[k] == '/' {
        cursor_from(field, k + 1, row_start(cursor))
    } else {
        cursor_from(field, k + 1, cursor + 1)
    }
}

/// The squares that a placement field describes.
pub open spec fn placement(field: Seq<char>) -> Result<Seq<Occupation>, ParseError> {
    placed_from(field, 0, 0, empty_squares())
}

/// The squares after `count` piece letters, read from the `k`-th character of
/// the field on, have filled `count` squares from `cursor` on.
pub open spec fn filled(
    field: Seq<char>,
    k: int,
    count: int,
    cursor: int,
    squares: Seq<Occupation>,
) -> Seq<Occupation> {
    Seq::new(
        squares.len(),
        |i: int|
            if cursor <= i < cursor + count {
                occupation_of_letter(field[k + i - cursor])->Some_0
            } else {
                squares[i]
            },
    )
}

/// A stretch of piece letters that fits on the board fills one square after
/// the other, in the order of the letters, and leaves the other squares as
/// they were.
pub proof fn lemma_piece_letters(
    field: Seq<char>,
    k: int,
    count: int,
    cursor: int,
    squares: Seq<Occupation>,
)
    requires
        0 <= k,
        0 <= count,
        k + count <= field.len(),
        0 <= cursor,
        cursor + count <= squares.len(),
        squares.len() == 64,
        forall|j: int| k <= j < k + count ==> occupation_of_letter(#[trigger] field[j]) is Some,
    ensures
        placed_from(field, k, cursor, squares) == placed_from(
            field,
            k + count,
            cursor + count,
            filled(field, k, count, cursor, squares),
        ),
    decreases count,
{
    if count == 0 {
        assert(filled(field, k, count, cursor, squares) =~= squares);
    } else {
        let next = squares.update(cursor, occupation_of_letter(field[k])->Some_0);
        assert(occupation_of_letter(field[k]) is Some);
        assert(placed_from(field, k, cursor, squares) == placed_from(
            field,
            k + 1,
            cursor + 1,
            next,
        ));
        lemma_piece_letters(field, k + 1, count - 1, cursor + 1, next);
        assert(filled(field, k + 1, count - 1, cursor + 1, next) =~= filled(
            field,
            k,
            count,
            cursor,
            squares,
        ));
    }
}

/// Reading a placement keeps the board at sixty-four squares, never touches
/// a square before the cursor, and fails on nothing but a character that has
/// no place in a placement.
pub proof fn lemma_placed_within_board(
    field: Seq<char>,
    k: int,
    cursor: int,
    squares: Seq<Occupation>,
)
    requires
        0 <= k,
        0 <= cursor,
        squares.len() == 64,
    ensures
        match placed_from(field, k, cursor, squares) {
            Ok(out) => out.len() == 64 && forall|i: int|
                0 <= i < cursor && i < 64 ==> out[i] == squares[i],
            Err(e) => e == ParseError::InvalidChar,
        },
    decreases field.len() - k,
{
    if k < field.len() && cursor < 64 {
        let c = field[k];
        if is_run(c) {
            lemma_placed_within_board(field, k + 1, cursor + run_length(c), squares);
        } else if c == '/' {
            lemma_placed_within_board(field, k + 1, row_start(cursor), squares);
        } else if occupation_of_letter(c) is Some {
            lemma_placed_within_board(
                field,
                k + 1,
                cursor + 1,
                squares.update(cursor, occupation_of_letter(c)->Some_0),
            );
        }
    }
}

/// The cursor never moves back, and it stops within eight squares of the end
/// of the board.
pub proof fn lemma_cursor_bounds(field: Seq<char>, k: int, cursor: int)
    requires
        0 <= k,
        0 <= cursor,
    ensures
        cursor <= cursor_from(field, k, cursor),
        cursor < 64 ==> cursor_from(field, k, cursor) < 72,
    decreases field.len() - k,
{
    if k < field.len() && cursor < 64 {
        let c = field[k];
        if is_run(c) {
            lemma_cursor_bounds(field, k + 1, cursor + run_length(c));
        } else if c == '/' {
            lemma_cursor_bounds(field, k + 1, row_start(cursor));
        } else {
            lemma_cursor_bounds(field, k + 1, cursor + 1);
        }
    }
}

/// Runs of empty squares and row separators fill no square, whatever their
/// digits and wherever the separators stand.
pub proof fn lemma_runs_fill_nothing(field: Seq<char>, k: int, cursor: int, squares: Seq<Occupation>)
    requires
        0 <= k,
        forall|j: int| k <= j < field.len() ==> is_run(#[trigger] field[j]) || field[j] == '/',
    ensures
        placed_from(field, k, cursor, squares) == Ok::<Seq<Occupation>, ParseError>(squares),
    decreases field.len() - k,
{
    if k < field.len() && cursor < 64 {
        let c = field[k];
        if is_run(c) {
            lemma_runs_fill_nothing(field, k + 1, cursor + run_length(c), squares);
        } else {
            lemma_runs_fill_nothing(field, k + 1, row_start(cursor), squares);
        }
    }
}

/// A placement made of digits from 1 to 8 and of separators alone describes
/// the empty board.
pub proof fn lemma_digits_give_empty_board(field: Seq<char>)
    requires
        forall|j: int| 0 <= j < field.len() ==> is_run(#[trigger] field[j]) || field[j] == '/',
    ensures
        placement(field) == Ok::<Seq<Occupation>, ParseError>(empty_squares()),
{
    lemma_runs_fill_nothing(field, 0, 0, empty_squares());
}

/// A placement of one piece letter puts that piece on the first square and
/// leaves the others empty: White's for a capital letter, Black's for a small
/// one, of the kind that the letter names in either case.
pub proof fn lemma_single_letter(c: char)
    requires
        piece_of_letter(c) is Some,
    ensures
        placement(seq![c]) == Ok::<Seq<Occupation>, ParseError>(
            empty_squares().update(
                0,
                if is_capital(c) {
                    Occupation::White(piece_of_letter(c)->Some_0)
                } else {
                    Occupation::Black(piece_of_letter(c)->Some_0)
                },
            ),
        ),
        is_capital(c) <==> c == 'K' || c == 'Q' || c == 'R' || c == 'N' || c == 'B' || c == 'P',
{
    reveal_with_fuel(placed_from, 3);
}

/// Where the cursor stands when the `k`-th character of a placement is about
/// to be read, reading having begun at the `start`-th with the cursor at
/// `cursor`; once off the board, the cursor stays where it is.
pub open spec fn cursor_reached(field: Seq<char>, start: int, cursor: int, k: int) -> int {
    cursor_from(field.subrange(0, k), start, cursor)
}

/// Where the cursor stands when the `k`-th character of a placement is about
/// to be read.
pub open spec fn cursor_at(field: Seq<char>, k: int) -> int {
    cursor_reached(field, 0, 0, k)
}

/// Reading one character does not change where the cursor will stand at a
/// later one.
proof fn lemma_cursor_reached_step(field: Seq<char>, start: int, cursor: int, k: int)
    requires
        0 <= start < k <= field.len(),
        cursor < 64,
    ensures
        cursor_reached(field, start, cursor, k) == cursor_reached(
            field,
            start + 1,
            if is_run(field[start]) {
                cursor + run_length(field[start])
            } else if field[start] == '/' {
                row_start(cursor)
            } else {
                cursor + 1
            },
            k,
        ),
{
    assert(field.subrange(0, k)[start] == field[start]);
}

/// A placement fails exactly when a character that has no place in it is
/// reached while the cursor is still on the board.
pub proof fn lemma_fails_from(field: Seq<char>, start: int, cursor: int, squares: Seq<Occupation>)
    requires
        0 <= start,
    ensures
        placed_from(field, start, cursor, squares) is Err <==> exists|k: int|
            start <= k < field.len() && !is_placement_char(field[k]) && #[trigger] cursor_reached(
                field,
                start,
                cursor,
                k,
            ) < 64,
    decreases field.len() - start,
{
    if start < field.len() && cursor < 64 {
        let c = field[start];
        assert(cursor_reached(field, start, cursor, start) == cursor);
        if is_placement_char(c) {
            let next_cursor = if is_run(c) {
                cursor + run_length(c)
            } else if c == '/' {
                row_start(cursor)
            } else {
                cursor + 1
            };
            let next_squares = if is_run(c) || c == '/' {
                squares
            } else {
                squares.update(cursor, occupation_of_letter(c)->Some_0)
            };
            assert(placed_from(field, start, cursor, squares) == placed_from(
                field,
                start + 1,
                next_cursor,
                next_squares,
            ));
            lemma_fails_from(field, start + 1, next_cursor, next_squares);
            assert forall|k: int| start < k < field.len() implies #[trigger] cursor_reached(
                field,
                start,
                cursor,
                k,
            ) == cursor_reached(field, start + 1, next_cursor, k) by {
                lemma_cursor_reached_step(field, start, cursor, k);
            }
            if exists|k: int|
                start <= k < field.len() && !is_placement_char(field[k])
                    && #[trigger] cursor_reached(field, start, cursor, k) < 64 {
                let k = choose|k: int|
                    start <= k < field.len() && !is_placement_char(field[k])
                        && #[trigger] cursor_reached(field, start, cursor, k) < 64;
                assert(cursor_reached(field, start + 1, next_cursor, k) < 64);
            }
            if placed_from(field, start, cursor, squares) is Err {
                let k = choose|k: int|
                    start + 1 <= k < field.len() && !is_placement_char(field[k])
                        && #[trigger] cursor_reached(field, start + 1, next_cursor, k) < 64;
                lemma_cursor_reached_step(field, start, cursor, k);
                assert(cursor_reached(field, start, cursor, k) < 64);
            }
        }
    } else {
        assert forall|k: int| start <= k < field.len() implies #[trigger] cursor_reached(
            field,
            start,
            cursor,
            k,
        ) >= 64 by {}
    }
}

/// A character other than the digits from 1 to 8, the separator and the
/// twelve piece letters makes the placement fail, unless the cursor had left
/// the board when it was reached; and nothing else makes it fail.
pub proof fn lemma_invalid_char_rejected(field: Seq<char>)
    ensures
        placement(field) == Err::<Seq<Occupation>, ParseError>(ParseError::InvalidChar)
            <==> exists|k: int|
            0 <= k < field.len() && !is_placement_char(field[k]) && #[trigger] cursor_at(field, k)
                < 64,
        placement(field) is Err ==> placement(field) == Err::<Seq<Occupation>, ParseError>(
            ParseError::InvalidChar,
        ),
{
    lemma_fails_from(field, 0, 0, empty_squares());
    lemma_placed_within_board(field, 0, 0, empty_squares());
    if placement(field) is Err {
        let k = choose|k: int|
            0 <= k < field.len() && !is_placement_char(field[k]) && #[trigger] cursor_reached(
                field,
                0,
                0,
                k,
            ) < 64;
        assert(cursor_at(field, k) < 64);
    }
    if exists|k: int|
        0 <= k < field.len() && !is_placement_char(field[k]) && #[trigger] cursor_at(field, k)
            < 64 {
        let k = choose|k: int|
            0 <= k < field.len() && !is_placement_char(field[k]) && #[trigger] cursor_at(field, k)
                < 64;
        assert(cursor_reached(field, 0, 0, k) < 64);
    }
}

/// Whether the `k`-th character is a piece letter that is read with the
/// cursor on square `square`.
pub open spec fn letter_lands(
    field: Seq<char>,
    start: int,
    cursor: int,
    k: int,
    square: int,
) -> bool {
    &&& start <= k < field.len()
    &&& occupation_of_letter(field[k]) is Some
    &&& cursor_reached(field, start, cursor, k) == square
}

/// Each square on which a piece letter lands holds that letter's piece, and
/// each square on which none lands is left as it was.
pub proof fn lemma_squares_from(field: Seq<char>, start: int, cursor: int, squares: Seq<Occupation>)
    requires
        0 <= start,
        0 <= cursor,
        squares.len() == 64,
        placed_from(field, start, cursor, squares) is Ok,
    ensures
        forall|k: int, square: int|
            0 <= square < 64 && #[trigger] letter_lands(field, start, cursor, k, square)
                ==> placed_from(field, start, cursor, squares)->Ok_0[square]
                == occupation_of_letter(field[k])->Some_0,
        forall|square: int|
            0 <= square < 64 && (forall|k: int| !letter_lands(field, start, cursor, k, square))
                ==> (#[trigger] placed_from(field, start, cursor, squares)->Ok_0[square])
                == squares[square],
    decreases field.len() - start,
{
    let out = placed_from(field, start, cursor, squares)->Ok_0;
    if start < field.len() && cursor < 64 {
        let c = field[start];
        assert(cursor_reached(field, start, cursor, start) == cursor);
        let next_cursor = if is_run(c) {
            cursor + run_length(c)
        } else if c == '/' {
            row_start(cursor)
        } else {
            cursor + 1
        };
        let next = start + 1;
        let next_squares = if is_run(c) || c == '/' {
            squares
        } else {
            squares.update(cursor, occupation_of_letter(c)->Some_0)
        };
        assert(placed_from(field, start, cursor, squares) == placed_from(
            field,
            start + 1,
            next_cursor,
            next_squares,
        ));
        lemma_squares_from(field, start + 1, next_cursor, next_squares);
        lemma_placed_within_board(field, start + 1, next_cursor, next_squares);
        assert forall|k: int, square: int|
            start < k implies #[trigger] letter_lands(field, start, cursor, k, square)
            == letter_lands(field, next, next_cursor, k, square) by {
            if k < field.len() {
                lemma_cursor_reached_step(field, start, cursor, k);
            }
        }
        assert forall|k: int, square: int|
            0 <= square < 64 && #[trigger] letter_lands(
                field,
                start,
                cursor,
                k,
                square,
            ) implies out[square] == occupation_of_letter(field[k])->Some_0 by {
            if k > start {
                assert(letter_lands(field, next, next_cursor, k, square));
            }
        }
        assert forall|square: int|
            0 <= square < 64 && (forall|k: int|
                !letter_lands(field, start, cursor, k, square)) implies #[trigger] out[square]
            == squares[square] by {
            assert(!letter_lands(field, start, cursor, start, square));
            assert forall|k: int| !#[trigger] letter_lands(field, next, next_cursor, k, square) by {
                if start < k {
                    assert(!letter_lands(field, start, cursor, k, square));
                }
            }
        }
    } else {
        assert forall|k: int, square: int| 0 <= square < 64 implies !#[trigger] letter_lands(
            field,
            start,
            cursor,
            k,
            square,
        ) by {}
    }
}

/// What a placement describes, square by square: a square holds the piece of
/// the letter that was read with the cursor on it, and is empty where no
/// letter was.
pub proof fn lemma_placement_squares(field: Seq<char>)
    requires
        placement(field) is Ok,
    ensures
        placement(field)->Ok_0.len() == 64,
        forall|k: int|
            0 <= k < field.len() && occupation_of_letter(field[k]) is Some && 0 <= (
            #[trigger] cursor_at(field, k)) < 64 ==> placement(field)->Ok_0[cursor_at(field, k)]
                == occupation_of_letter(field[k])->Some_0,
        forall|square: int|
            0 <= square < 64 && (forall|k: int|
                0 <= k < field.len() && occupation_of_letter(field[k]) is Some ==> cursor_at(
                    field,
                    k,
                ) != square) ==> (#[trigger] placement(field)->Ok_0[square])
                == Occupation::Neutral,
{
    lemma_squares_from(field, 0, 0, empty_squares());
    lemma_placed_within_board(field, 0, 0, empty_squares());
    let out = placement(field)->Ok_0;
    assert forall|k: int|
        0 <= k < field.len() && occupation_of_letter(field[k]) is Some && 0 <= (
        #[trigger] cursor_at(field, k)) < 64 implies out[cursor_at(field, k)]
        == occupation_of_letter(field[k])->Some_0 by {
        assert(letter_lands(field, 0, 0, k, cursor_at(field, k)));
    }
    assert forall|square: int|
        0 <= square < 64 && (forall|k: int|
            0 <= k < field.len() && occupation_of_letter(field[k]) is Some ==> cursor_at(field, k)
                != square) implies #[trigger] out[square] == Occupation::Neutral by {
        assert forall|k: int| !letter_lands(field, 0, 0, k, square) by {
            if 0 <= k < field.len() && occupation_of_letter(field[k]) is Some {
                assert(cursor_at(field, k) != square);
            }
        }
    }
}

} // verus!
