use vstd::prelude::*;

verus! {

/// A chess piece, or the absence of one: the closed set of values a square
/// can hold. Equality is by variant identity.
#[derive(Clone, Copy, Debug, PartialEq, Eq, Structural)]
pub enum Piece {
    WhitePawn,
    WhiteRook,
    WhiteKnight,
    WhiteBishop,
    WhiteQueen,
    WhiteKing,
    BlackPawn,
    BlackRook,
    BlackKnight,
    BlackBishop,
    BlackQueen,
    BlackKing,
    Blank,
}

/// The canonical display glyph of each piece; a blank square shows a space.
pub open spec fn glyph(p: Piece) -> char {
    match p {
        Piece::WhitePawn => '♙',
        Piece::WhiteRook => '♖',
        Piece::WhiteKnight => '♘',
        Piece::WhiteBishop => '♗',
        Piece::WhiteQueen => '♕',
        Piece::WhiteKing => '♔',
        Piece::BlackPawn => '♟',
        Piece::BlackRook => '♜',
        Piece::BlackKnight => '♞',
        Piece::BlackBishop => '♝',
        Piece::BlackQueen => '♛',
        Piece::BlackKing => '♚',
        Piece::Blank => ' ',
    }
}

impl Piece {
    /// The piece's glyph as a one-character string slice.
    pub fn glyph_str(&self) -> (s: &'static str)
        ensures
            s@ == seq![glyph(*self)],
    {
        match self {
            Piece::WhitePawn => {
                proof {
                    reveal_strlit("♙");
                    assert("♙"@ =~= seq![glyph(Piece::WhitePawn)]);
                }
                "♙"
            },
            Piece::WhiteRook => {
                proof {
                    reveal_strlit("♖");
                    assert("♖"@ =~= seq![glyph(Piece::WhiteRook)]);
                }
                "♖"
            },
            Piece::WhiteKnight => {
                proof {
                    reveal_strlit("♘");
                    assert("♘"@ =~= seq![glyph(Piece::WhiteKnight)]);
                }
                "♘"
            },
            Piece::WhiteBishop => {
                proof {
                    reveal_strlit("♗");
                    assert("♗"@ =~= seq![glyph(Piece::WhiteBishop)]);
                }
                "♗"
            },
            Piece::WhiteQueen => {
                proof {
                    reveal_strlit("♕");
                    assert("♕"@ =~= seq![glyph(Piece::WhiteQueen)]);
                }
                "♕"
            },
            Piece::WhiteKing => {
                proof {
                    reveal_strlit("♔");
                    assert("♔"@ =~= seq![glyph(Piece::WhiteKing)]);
                }
                "♔"
            },
            Piece::BlackPawn => {
                proof {
                    reveal_strlit("♟");
                    assert("♟"@ =~= seq![glyph(Piece::BlackPawn)]);
                }
                "♟"
            },
            Piece::BlackRook => {
                proof {
                    reveal_strlit("♜");
                    assert("♜"@ =~= seq![glyph(Piece::BlackRook)]);
                }
                "♜"
            },
            Piece::BlackKnight => {
                proof {
                    reveal_strlit("♞");
                    assert("♞"@ =~= seq![glyph(Piece::BlackKnight)]);
                }
                "♞"
            },
            Piece::BlackBishop => {
                proof {
                    reveal_strlit("♝");
                    assert("♝"@ =~= seq![glyph(Piece::BlackBishop)]);
                }
                "♝"
            },
            Piece::BlackQueen => {
                proof {
                    reveal_strlit("♛");
                    assert("♛"@ =~= seq![glyph(Piece::BlackQueen)]);
                }
                "♛"
            },
            Piece::BlackKing => {
                proof {
                    reveal_strlit("♚");
                    assert("♚"@ =~= seq![glyph(Piece::BlackKing)]);
                }
                "♚"
            },
            Piece::Blank => {
                proof {
                    reveal_strlit(" ");
                    assert(" "@ =~= seq![glyph(Piece::Blank)]);
                }
                " "
            },
        }
    }
}

impl Default for Piece {
    /// An unoccupied square: the default piece value is Blank.
    fn default() -> (r: Self)
        ensures
            r == Piece::Blank,
    {
        Piece::Blank
    }
}

} // verus!
