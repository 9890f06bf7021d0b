use chessboard::board::Board;
use chessboard::error::ChessError;
use chessboard::notation::index_to_pos;
use chessboard::piece::Piece;

#[test]
fn test_move_i_to_j() {
    let mut b = Board::new();
    b.move_i_to_j(8, 16);
    assert_eq!(b.piece_at(8), Piece::Blank);
    assert_eq!(b.piece_at(16), Piece::BlackPawn);
}

#[test]
fn pos_to_index_examples() {
    assert_eq!(Board::pos_to_index("e4"), Ok(36));
    assert_eq!(Board::pos_to_index("a8"), Ok(0));
    assert_eq!(Board::pos_to_index("h1"), Ok(63));
}

#[test]
fn pos_to_index_rejects_malformed() {
    assert_eq!(Board::pos_to_index("e"), Err(ChessError::PositionParse));
    assert_eq!(Board::pos_to_index("e44"), Err(ChessError::PositionParse));
    assert_eq!(Board::pos_to_index("z4"), Err(ChessError::PositionParse));
    assert_eq!(Board::pos_to_index("e9"), Err(ChessError::PositionParse));
    assert_eq!(Board::pos_to_index(""), Err(ChessError::PositionParse));
    assert_eq!(Board::pos_to_index("   "), Err(ChessError::PositionParse));
    assert_eq!(Board::pos_to_index("4e"), Err(ChessError::PositionParse));
}

#[test]
fn pos_to_index_trims_and_folds_case() {
    assert_eq!(Board::pos_to_index(" e4 "), Ok(36));
    assert_eq!(Board::pos_to_index("E4"), Ok(36));
    assert_eq!(Board::pos_to_index("\tH1\n"), Ok(63));
}

#[test]
fn notation_round_trip_covers_board() {
    let mut seen = [false; 64];
    for i in 0..64usize {
        let s = index_to_pos(i);
        let back = Board::pos_to_index(&s).unwrap();
        assert_eq!(back, i);
        assert!(!seen[back]);
        seen[back] = true;
    }
    assert_eq!(index_to_pos(0), "a8");
    assert_eq!(index_to_pos(36), "e4");
    assert_eq!(index_to_pos(63), "h1");
}

#[test]
fn fresh_board_layout() {
    let b = Board::new();
    assert_eq!(b.piece_at(60), Piece::WhiteKing);
    assert_eq!(b.piece_at(4), Piece::BlackKing);
    for i in 16..48usize {
        assert_eq!(b.piece_at(i), Piece::Blank);
    }
    let back_rank = [
        Piece::BlackRook,
        Piece::BlackKnight,
        Piece::BlackBishop,
        Piece::BlackQueen,
        Piece::BlackKing,
        Piece::BlackBishop,
        Piece::BlackKnight,
        Piece::BlackRook,
    ];
    for f in 0..8usize {
        assert_eq!(b.piece_at(f), back_rank[f]);
        assert_eq!(b.piece_at(8 + f), Piece::BlackPawn);
        assert_eq!(b.piece_at(48 + f), Piece::WhitePawn);
    }
    assert_eq!(b.piece_at(56), Piece::WhiteRook);
    assert_eq!(b.piece_at(57), Piece::WhiteKnight);
    assert_eq!(b.piece_at(58), Piece::WhiteBishop);
    assert_eq!(b.piece_at(59), Piece::WhiteQueen);
    assert_eq!(b.piece_at(61), Piece::WhiteBishop);
    assert_eq!(b.piece_at(62), Piece::WhiteKnight);
    assert_eq!(b.piece_at(63), Piece::WhiteRook);
}

#[test]
fn make_move_relocates() {
    let mut b = Board::new();
    assert_eq!(b.piece_at(52), Piece::WhitePawn);
    assert_eq!(b.piece_at(28), Piece::Blank);
    assert_eq!(b.make_move("e2 e5"), Ok(()));
    assert_eq!(b.piece_at(52), Piece::Blank);
    assert_eq!(b.piece_at(28), Piece::WhitePawn);
}

#[test]
fn make_move_to_e4() {
    let mut b = Board::new();
    assert_eq!(b.piece_at(52), Piece::WhitePawn);
    assert_eq!(b.piece_at(36), Piece::Blank);
    assert_eq!(b.make_move("e2 e4"), Ok(()));
    assert_eq!(b.piece_at(52), Piece::Blank);
    assert_eq!(b.piece_at(36), Piece::WhitePawn);
}

#[test]
fn make_move_wrong_token_count() {
    let mut b = Board::new();
    assert_eq!(b.make_move("e2"), Err(ChessError::MoveParse));
    assert_eq!(b.make_move("e2 e4 e5"), Err(ChessError::MoveParse));
    assert_eq!(b.make_move(""), Err(ChessError::MoveParse));
    let fresh = Board::new();
    for i in 0..64usize {
        assert_eq!(b.piece_at(i), fresh.piece_at(i));
    }
}

#[test]
fn make_move_bad_square_leaves_board_unchanged() {
    let mut b = Board::new();
    assert_eq!(b.make_move("z4 e5"), Err(ChessError::PositionParse));
    assert_eq!(b.make_move("e2 e9"), Err(ChessError::PositionParse));
    let fresh = Board::new();
    for i in 0..64usize {
        assert_eq!(b.piece_at(i), fresh.piece_at(i));
    }
}

#[test]
fn move_overwrites_destination() {
    let mut b = Board::new();
    b.move_i_to_j(0, 63);
    assert_eq!(b.piece_at(0), Piece::Blank);
    assert_eq!(b.piece_at(63), Piece::BlackRook);
}

#[test]
fn move_to_same_square_keeps_piece() {
    let mut b = Board::new();
    b.move_i_to_j(0, 0);
    assert_eq!(b.piece_at(0), Piece::BlackRook);
}

#[test]
fn place_returns_previous_occupant() {
    let mut b = Board::new();
    let prev = b.place(0, Piece::WhiteQueen);
    assert_eq!(prev, Piece::BlackRook);
    assert_eq!(b.piece_at(0), Piece::WhiteQueen);
}

#[test]
fn default_piece_is_blank() {
    assert_eq!(Piece::default(), Piece::Blank);
}

#[test]
fn glyphs_are_canonical() {
    assert_eq!(Piece::WhitePawn.glyph_str(), "\u{2659}");
    assert_eq!(Piece::WhiteRook.glyph_str(), "\u{2656}");
    assert_eq!(Piece::WhiteKnight.glyph_str(), "\u{2658}");
    assert_eq!(Piece::WhiteBishop.glyph_str(), "\u{2657}");
    assert_eq!(Piece::WhiteQueen.glyph_str(), "\u{2655}");
    assert_eq!(Piece::WhiteKing.glyph_str(), "\u{2654}");
    assert_eq!(Piece::BlackPawn.glyph_str(), "\u{265F}");
    assert_eq!(Piece::BlackRook.glyph_str(), "\u{265C}");
    assert_eq!(Piece::BlackKnight.glyph_str(), "\u{265E}");
    assert_eq!(Piece::BlackBishop.glyph_str(), "\u{265D}");
    assert_eq!(Piece::BlackQueen.glyph_str(), "\u{265B}");
    assert_eq!(Piece::BlackKing.glyph_str(), "\u{265A}");
    assert_eq!(Piece::Blank.glyph_str(), " ");
}

#[test]
fn render_is_idempotent() {
    let b = Board::new();
    let first = b.render();
    let second = b.render();
    assert_eq!(first, second);

    let mut moved = Board::new();
    moved.make_move("e2 e4").unwrap();
    assert_eq!(moved.render(), moved.render());
}

#[test]
fn render_fresh_board_exactly() {
    let b = Board::new();
    let expected = "    a   b   c   d   e   f   g   h\n\
                    \x20 +---+---+---+---+---+---+---+---+\n\
                    8 | ♜ | ♞ | ♝ | ♛ | ♚ | ♝ | ♞ | ♜ | 8\n\
                    \x20 +---+---+---+---+---+---+---+---+\n\
                    7 | ♟ | ♟ | ♟ | ♟ | ♟ | ♟ | ♟ | ♟ | 7\n\
                    \x20 +---+---+---+---+---+---+---+---+\n\
                    6 |   |   |   |   |   |   |   |   | 6\n\
                    \x20 +---+---+---+---+---+---+---+---+\n\
                    5 |   |   |   |   |   |   |   |   | 5\n\
                    \x20 +---+---+---+---+---+---+---+---+\n\
                    4 |   |   |   |   |   |   |   |   | 4\n\
                    \x20 +---+---+---+---+---+---+---+---+\n\
                    3 |   |   |   |   |   |   |   |   | 3\n\
                    \x20 +---+---+---+---+---+---+---+---+\n\
                    2 | ♙ | ♙ | ♙ | ♙ | ♙ | ♙ | ♙ | ♙ | 2\n\
                    \x20 +---+---+---+---+---+---+---+---+\n\
                    1 | ♖ | ♘ | ♗ | ♕ | ♔ | ♗ | ♘ | ♖ | 1\n\
                    \x20 +---+---+---+---+---+---+---+---+\n\
                    \x20   a   b   c   d   e   f   g   h\n";
    assert_eq!(b.render(), expected);
}

#[test]
fn render_reflects_a_move() {
    let mut b = Board::new();
    let before = b.render();
    b.make_move("c7 c5").unwrap();
    let after = b.render();
    assert_ne!(before, after);
    assert_eq!(b.piece_at(10), Piece::Blank);
    assert_eq!(b.piece_at(26), Piece::BlackPawn);
}
