use vstd::prelude::*;

use crate::error::ChessError;
use crate::notation::{
    is_space, is_space_char, lemma_ltrim_at, lemma_rtrim_at, parse_square, split_ws,
    split_whitespace_tokens, trimmed, views_of,
};
use crate::piece::Piece;

verus! {

/// A chessboard: 64 squares in row-major order, row 0 being the eighth rank
/// (black's back rank) and row 7 the first rank.
pub struct Board {
    pieces: [Piece; 64],
}

impl View for Board {
    type V = Seq<Piece>;

    closed spec fn view(&self) -> Seq<Piece> {
        self.pieces@
    }
}

/// The piece the standard starting position puts on a square.
pub open spec fn init_square(i: int) -> Piece {
    if i == 0 || i == 7 {
        Piece::BlackRook
    } else if i == 1 || i == 6 {
        Piece::BlackKnight
    } else if i == 2 || i == 5 {
        Piece::BlackBishop
    } else if i == 3 {
        Piece::BlackQueen
    } else if i == 4 {
        Piece::BlackKing
    } else if 8 <= i < 16 {
        Piece::BlackPawn
    } else if 48 <= i < 56 {
        Piece::WhitePawn
    } else if i == 56 || i == 63 {
        Piece::WhiteRook
    } else if i == 57 || i == 62 {
        Piece::WhiteKnight
    } else if i == 58 || i == 61 {
        Piece::WhiteBishop
    } else if i == 59 {
        Piece::WhiteQueen
    } else if i == 60 {
        Piece::WhiteKing
    } else {
        Piece::Blank
    }
}

/// The standard starting layout.
pub open spec fn init_board() -> Seq<Piece> {
    Seq::new(64, |i: int| init_square(i))
}

/// The board after an unconditional relocation: the source square is vacated
/// and the destination square receives the source's former occupant.
pub open spec fn move_spec(b: Seq<Piece>, src: int, dst: int) -> Seq<Piece> {
    b.update(src, Piece::Blank).update(dst, b[src])
}

impl Board {
    /// Builds the standard starting position.
    pub fn new() -> (b: Board)
        ensures
            b@ == init_board(),
    {
        let mut pieces: [Piece; 64] = [Piece::Blank; 64];
        pieces[0] = Piece::BlackRook;
        pieces[1] = Piece::BlackKnight;
        pieces[2] = Piece::BlackBishop;
        pieces[3] = Piece::BlackQueen;
        pieces[4] = Piece::BlackKing;
        pieces[5] = Piece::BlackBishop;
        pieces[6] = Piece::BlackKnight;
        pieces[7] = Piece::BlackRook;
        let mut i: usize = 8;
        while i < 16
            invariant
                8 <= i <= 16,
                forall|j: int| 0 <= j < i ==> pieces@[j] == init_square(j),
                forall|j: int| i <= j < 64 ==> pieces@[j] == Piece::Blank,
            decreases 16 - i,
        {
            pieces[i] = Piece::BlackPawn;
            i = i + 1;
        }
        let mut i: usize = 48;
        while i < 56
            invariant
                48 <= i <= 56,
                forall|j: int| 0 <= j < i ==> pieces@[j] == init_square(j),
                forall|j: int| i <= j < 64 ==> pieces@[j] == Piece::Blank,
            decreases 56 - i,
        {
            pieces[i] = Piece::WhitePawn;
            i = i + 1;
        }
        pieces[56] = Piece::WhiteRook;
        pieces[57] = Piece::WhiteKnight;
        pieces[58] = Piece::WhiteBishop;
        pieces[59] = Piece::WhiteQueen;
        pieces[60] = Piece::WhiteKing;
        pieces[61] = Piece::WhiteBishop;
        pieces[62] = Piece::WhiteKnight;
        pieces[63] = Piece::WhiteRook;
        proof {
            assert(pieces@ =~= init_board());
        }
        Board { pieces }
    }

    /// A board always consists of exactly 64 squares.
    pub proof fn lemma_len(&self)
        ensures
            self@.len() == 64,
    {
    }

    /// The piece on the square at a 0-63 index.
    pub fn piece_at(&self, index: usize) -> (p: Piece)
        requires
            index < 64,
        ensures
            p == self@[index as int],
    {
        self.pieces[index]
    }

    /// Overwrites one square and returns its previous occupant.
    pub fn place(&mut self, index: usize, piece: Piece) -> (prev: Piece)
        requires
            index < 64,
        ensures
            final(self)@ == old(self)@.update(index as int, piece),
            prev == old(self)@[index as int],
    {
        let prev = self.pieces[index];
        self.pieces[index] = piece;
        prev
    }

    /// Relocates unconditionally between two indices: the source square is
    /// vacated, and whatever occupied the destination is overwritten.
    pub fn move_i_to_j(&mut self, i: usize, j: usize)
        requires
            i < 64,
            j < 64,
        ensures
            final(self)@ == move_spec(old(self)@, i as int, j as int),
    {
        let p = self.place(i, Piece::Blank);
        self.place(j, p);
    }

    /// Parses algebraic square notation into a board index: the text is
    /// trimmed, the match is case-insensitive, and anything but a file letter
    /// followed by a rank digit is rejected.
    pub fn pos_to_index(pos: &str) -> (r: Result<usize, ChessError>)
        ensures
            match r {
                Ok(i) => parse_square(pos@) == Some(i as int) && i < 64,
                Err(e) => e == ChessError::PositionParse && parse_square(pos@) is None,
            },
    {
        let n = pos.unicode_len();
        let mut start: usize = 0;
        while start < n && is_space_char(pos.get_char(start))
            invariant
                start <= n,
                n == pos@.len(),
                forall|j: int| 0 <= j < start ==> is_space(pos@[j]),
            decreases n - start,
        {
            start = start + 1;
        }
        let mut end: usize = n;
        while end > start && is_space_char(pos.get_char(end - 1))
            invariant
                start <= end <= n,
                n == pos@.len(),
                forall|j: int| end <= j < n ==> is_space(pos@[j]),
            decreases end,
        {
            end = end - 1;
        }
        proof {
            lemma_ltrim_at(pos@, start as int);
            let u = pos@.subrange(start as int, n as int);
            assert(forall|j: int| end - start <= j < u.len() ==> is_space(u[j]));
            lemma_rtrim_at(u, end - start);
            assert(u.subrange(0, end - start) =~= pos@.subrange(start as int, end as int));
            assert(trimmed(pos@) == pos@.subrange(start as int, end as int));
        }
        if end - start != 2 {
            return Err(ChessError::PositionParse);
        }
        let first = pos.get_char(start);
        let second = pos.get_char(start + 1);
        proof {
            assert(trimmed(pos@)[0] == first);
            assert(trimmed(pos@)[1] == second);
        }
        let x: usize = match first {
            'a' | 'A' => 0,
            'b' | 'B' => 1,
            'c' | 'C' => 2,
            'd' | 'D' => 3,
            'e' | 'E' => 4,
            'f' | 'F' => 5,
            'g' | 'G' => 6,
            'h' | 'H' => 7,
            _ => {
                return Err(ChessError::PositionParse);
            },
        };
        let d: usize = match second {
            '1' => 1,
            '2' => 2,
            '3' => 3,
            '4' => 4,
            '5' => 5,
            '6' => 6,
            '7' => 7,
            '8' => 8,
            _ => {
                return Err(ChessError::PositionParse);
            },
        };
        let row = 8 - d;
        Ok(x + row * 8)
    }

    /// Parses two square strings and relocates from the first to the second;
    /// the board is untouched unless both parse.
    pub fn move_src_to_dst(&mut self, src: &str, dst: &str) -> (r: Result<(), ChessError>)
        ensures
            match r {
                Ok(_) => parse_square(src@) is Some && parse_square(dst@) is Some && final(self)@
                    == move_spec(old(self)@, parse_square(src@)->0, parse_square(dst@)->0),
                Err(e) => e == ChessError::PositionParse && (parse_square(src@) is None
                    || parse_square(dst@) is None) && final(self)@ == old(self)@,
            },
    {
        let src_i = match Self::pos_to_index(src) {
            Ok(i) => i,
            Err(e) => {
                return Err(e);
            },
        };
        let dst_i = match Self::pos_to_index(dst) {
            Ok(i) => i,
            Err(e) => {
                return Err(e);
            },
        };
        self.move_i_to_j(src_i, dst_i);
        Ok(())
    }

    /// Applies a move given as two whitespace-separated square tokens. A
    /// wrong token count fails with MoveParse; a malformed token fails with
    /// PositionParse; on any failure the board is unchanged.
    pub fn make_move(&mut self, move_str: &str) -> (r: Result<(), ChessError>)
        ensures
            ({
                let toks = split_ws(move_str@);
                match r {
                    Ok(_) => toks.len() == 2 && parse_square(toks[0]) is Some && parse_square(
                        toks[1],
                    ) is Some && final(self)@ == move_spec(
                        old(self)@,
                        parse_square(toks[0])->0,
                        parse_square(toks[1])->0,
                    ),
                    Err(e) => final(self)@ == old(self)@ && (e == ChessError::MoveParse
                        <==> toks.len() != 2) && (e == ChessError::PositionParse ==> toks.len() == 2
                        && (parse_square(toks[0]) is None || parse_square(toks[1]) is None)),
                }
            }),
    {
        let toks = split_whitespace_tokens(move_str);
        if toks.len() != 2 {
            return Err(ChessError::MoveParse);
        }
        let src = toks[0];
        let dst = toks[1];
        proof {
            assert(src@ == views_of(toks@)[0]);
            assert(dst@ == views_of(toks@)[1]);
        }
        self.move_src_to_dst(src, dst)
    }
}

/// The fresh board's promised layout: the kings stand on their home squares
/// and the four middle rows are empty.
pub proof fn lemma_initial_layout()
    ensures
        init_board()[60] == Piece::WhiteKing,
        init_board()[4] == Piece::BlackKing,
        forall|i: int| 16 <= i < 48 ==> init_board()[i] == Piece::Blank,
{
}

} // verus!
