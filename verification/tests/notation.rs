use chess_engine::board::ChessBoard;
use chess_engine::error::ParseError;
use chess_engine::notation::GameState;
use chess_engine::piece::{ChessPiece, Occupation};

const START: &str = "rnbqkbnr/pppppppp/8/8/8/8/PPPPPPPP/RNBQKBNR w KQkq - 0 1";

fn read(text: &str) -> Result<ChessBoard, ParseError> {
    ChessBoard::from_fen(text.to_owned())
}

fn squares(board: &ChessBoard) -> Vec<Occupation> {
    (0..64).map(|i| board.occupation(i).unwrap()).collect()
}

fn pieces(board: &ChessBoard) -> Vec<(usize, Occupation)> {
    squares(board)
        .into_iter()
        .enumerate()
        .filter(|(_, o)| *o != Occupation::Neutral)
        .collect()
}

#[test]
fn start_line_counts() {
    let board = read(START).unwrap();
    let all = squares(&board);
    let white = all.iter().filter(|o| matches!(o, Occupation::White(_))).count();
    let black = all.iter().filter(|o| matches!(o, Occupation::Black(_))).count();
    let empty = all.iter().filter(|o| matches!(o, Occupation::Neutral)).count();
    assert_eq!(white, 16);
    assert_eq!(black, 16);
    assert_eq!(empty, 32);
    assert_eq!(board.game_state(), GameState::WhiteToMove);
}

#[test]
fn start_line_layout() {
    let board = read(START).unwrap();
    let back = [
        ChessPiece::Rook,
        ChessPiece::Knight,
        ChessPiece::Bishop,
        ChessPiece::Queen,
        ChessPiece::King,
        ChessPiece::Bishop,
        ChessPiece::Knight,
        ChessPiece::Rook,
    ];
    for column in 0..8 {
        assert_eq!(board.occupation(column), Some(Occupation::Black(back[column])));
        assert_eq!(board.occupation(8 + column), Some(Occupation::Black(ChessPiece::Pawn)));
        assert_eq!(board.occupation(48 + column), Some(Occupation::White(ChessPiece::Pawn)));
        assert_eq!(board.occupation(56 + column), Some(Occupation::White(back[column])));
    }
    for index in 16..48 {
        assert_eq!(board.occupation(index), Some(Occupation::Neutral));
    }
}

#[test]
fn default_is_the_start_line() {
    assert_eq!(ChessBoard::default(), read(START).unwrap());
}

#[test]
fn new_board_is_empty_and_white_moves() {
    let board = ChessBoard::new();
    assert!(pieces(&board).is_empty());
    assert_eq!(board.game_state(), GameState::WhiteToMove);
    assert_eq!(squares(&board).len(), 64);
}

#[test]
fn occupation_beyond_the_board_is_none() {
    let board = ChessBoard::new();
    assert_eq!(board.occupation(63), Some(Occupation::Neutral));
    assert_eq!(board.occupation(64), None);
    assert_eq!(board.occupation(usize::MAX), None);
}

#[test]
fn digits_and_separators_leave_the_board_empty() {
    for text in [
        "8/8/8/8/8/8/8/8 w",
        "44/17/62/8/8/8/8/8 w",
        "12345678 w",
        "1 w",
        "//////// w",
        "3/5/2//7 w",
        "88888888888 w",
        " w",
    ] {
        let board = read(text).unwrap();
        assert!(pieces(&board).is_empty(), "{}", text);
        assert_eq!(board, ChessBoard::new(), "{}", text);
    }
}

#[test]
fn capital_letters_are_white() {
    let letters = [
        ('K', ChessPiece::King),
        ('Q', ChessPiece::Queen),
        ('R', ChessPiece::Rook),
        ('N', ChessPiece::Knight),
        ('B', ChessPiece::Bishop),
        ('P', ChessPiece::Pawn),
    ];
    for (letter, piece) in letters {
        let board = read(&format!("{} w", letter)).unwrap();
        assert_eq!(pieces(&board), vec![(0, Occupation::White(piece))]);
    }
}

#[test]
fn small_letters_are_black() {
    let letters = [
        ('k', ChessPiece::King),
        ('q', ChessPiece::Queen),
        ('r', ChessPiece::Rook),
        ('n', ChessPiece::Knight),
        ('b', ChessPiece::Bishop),
        ('p', ChessPiece::Pawn),
    ];
    for (letter, piece) in letters {
        let board = read(&format!("{} b", letter)).unwrap();
        assert_eq!(pieces(&board), vec![(0, Occupation::Black(piece))]);
        assert_eq!(board.game_state(), GameState::BlackToMove);
    }
}

#[test]
fn digit_moves_the_cursor() {
    let board = read("3K2q w").unwrap();
    assert_eq!(
        pieces(&board),
        vec![(3, Occupation::White(ChessPiece::King)), (6, Occupation::Black(ChessPiece::Queen))]
    );
}

#[test]
fn separator_moves_to_the_next_row() {
    let board = read("3/K w").unwrap();
    assert_eq!(pieces(&board), vec![(8, Occupation::White(ChessPiece::King))]);
    let board = read("n/K w").unwrap();
    assert_eq!(
        pieces(&board),
        vec![(0, Occupation::Black(ChessPiece::Knight)), (8, Occupation::White(ChessPiece::King))]
    );
}

#[test]
fn separator_at_a_row_start_does_nothing() {
    let board = read("/K w").unwrap();
    assert_eq!(pieces(&board), vec![(0, Occupation::White(ChessPiece::King))]);
    let board = read("8/K w").unwrap();
    assert_eq!(pieces(&board), vec![(8, Occupation::White(ChessPiece::King))]);
    let board = read("8//K w").unwrap();
    assert_eq!(pieces(&board), vec![(8, Occupation::White(ChessPiece::King))]);
}

#[test]
fn long_row_runs_into_the_next() {
    let board = read("ppppppppp/K w").unwrap();
    let found = pieces(&board);
    assert_eq!(found.len(), 10);
    for index in 0..9 {
        assert_eq!(found[index], (index, Occupation::Black(ChessPiece::Pawn)));
    }
    assert_eq!(found[9], (16, Occupation::White(ChessPiece::King)));
}

#[test]
fn invalid_characters_are_rejected() {
    for text in ["x w", "8/8/x w", "9 w", "0 w", "K-Q w", "8/8/8/8/8/8/8/7? w", "k\u{2654} w", "a b"]
    {
        assert_eq!(read(text), Err(ParseError::InvalidChar), "{}", text);
    }
}

#[test]
fn invalid_character_comes_before_the_color() {
    assert_eq!(read("8/x"), Err(ParseError::InvalidChar));
    assert_eq!(read("8/x z"), Err(ParseError::InvalidChar));
}

#[test]
fn characters_after_a_full_board_are_not_read() {
    let board = read("8/8/8/8/8/8/8/8x w").unwrap();
    assert_eq!(board, ChessBoard::new());
    let board = read("8/8/8/8/8/8/8/7Kzzz b").unwrap();
    assert_eq!(pieces(&board), vec![(63, Occupation::White(ChessPiece::King))]);
    assert_eq!(board.game_state(), GameState::BlackToMove);
}

#[test]
fn missing_color() {
    assert_eq!(read("8/8/8/8/8/8/8/8"), Err(ParseError::MissingActiveColor));
    assert_eq!(read("rnbqkbnr/pppppppp/8/8/8/8/PPPPPPPP/RNBQKBNR"), Err(ParseError::MissingActiveColor));
    assert_eq!(read(""), Err(ParseError::MissingActiveColor));
    assert_eq!(read("K"), Err(ParseError::MissingActiveColor));
}

#[test]
fn invalid_color() {
    for text in ["8/8 x", "8/8 ", "8/8  w", "8/8 ww", "8/8 W", "8/8 B", "8/8 wb KQkq", "8/8 - w"] {
        assert_eq!(read(text), Err(ParseError::InvalidActiveColor), "{}", text);
    }
}

#[test]
fn later_fields_are_not_read() {
    let alone = read("4k3/8/8/8/8/8/8/4K3 b").unwrap();
    for text in [
        "4k3/8/8/8/8/8/8/4K3 b KQkq e3 0 1",
        "4k3/8/8/8/8/8/8/4K3 b -",
        "4k3/8/8/8/8/8/8/4K3 b ",
        "4k3/8/8/8/8/8/8/4K3 b ? ? ? ? ? ?",
    ] {
        assert_eq!(read(text).unwrap(), alone, "{}", text);
    }
    assert_eq!(alone.game_state(), GameState::BlackToMove);
    assert_eq!(
        pieces(&alone),
        vec![(4, Occupation::Black(ChessPiece::King)), (60, Occupation::White(ChessPiece::King))]
    );
}

#[test]
fn overflow_stops_at_the_last_square() {
    let board = read("8/8/8/8/8/8/8/7PPPP w").unwrap();
    assert_eq!(pieces(&board), vec![(63, Occupation::White(ChessPiece::Pawn))]);
    let board = read("8/8/8/8/8/8/8/6p8K w").unwrap();
    assert_eq!(pieces(&board), vec![(62, Occupation::Black(ChessPiece::Pawn))]);
    let board = read("8/8/8/8/8/8/8/6p/K w").unwrap();
    assert_eq!(pieces(&board), vec![(62, Occupation::Black(ChessPiece::Pawn))]);
    let many = "Q".repeat(200) + " w";
    let board = read(&many).unwrap();
    assert_eq!(pieces(&board).len(), 64);
}

#[test]
fn same_notation_gives_equal_boards() {
    assert_eq!(read(START).unwrap(), read(START).unwrap());
    assert_eq!(read("8/8/2Q5 b").unwrap(), read("8/8/2Q5 b").unwrap());
    assert_eq!(read("8/8/2Q5 b - - 0 1").unwrap(), read("88/2Q b").unwrap());
}

#[test]
fn different_square_or_state_gives_unequal_boards() {
    assert_ne!(read("8/8/2Q5 b").unwrap(), read("8/8/2Q5 w").unwrap());
    assert_ne!(read("8/8/2Q5 b").unwrap(), read("8/8/2q5 b").unwrap());
    assert_ne!(read("8/8/2Q5 b").unwrap(), read("8/8/3Q4 b").unwrap());
    assert_ne!(read("8/8/2Q5 b").unwrap(), read("8/8/2R5 b").unwrap());
    assert_ne!(read(START).unwrap(), ChessBoard::new());
    assert!(read("K w").unwrap() == read("K w").unwrap());
    assert!(!(read("K w").unwrap() == read("1K w").unwrap()));
}

#[test]
fn messages() {
    assert_eq!(ParseError::InvalidChar.message(), "Invalid character.");
    assert_eq!(ParseError::InvalidPieceLetter.message(), "Invalid character.");
    assert_eq!(ParseError::MissingActiveColor.message(), "Invalid FEN string: No active color.");
    assert_eq!(
        ParseError::InvalidActiveColor.message(),
        "Invalid FEN string: Failed to determine active color."
    );
}
