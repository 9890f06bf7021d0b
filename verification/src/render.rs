use vstd::prelude::*;

use crate::board::Board;
use crate::notation::{rank_char, rank_digit_str};
use crate::piece::{glyph, Piece};

verus! {

/// The file-label line printed above and below the grid.
pub open spec fn file_labels() -> Seq<char> {
    "    a   b   c   d   e   f   g   h\n"@
}

/// The horizontal rule printed above each rank and below the last one.
pub open spec fn rule_line() -> Seq<char> {
    "  +---+---+---+---+---+---+---+---+\n"@
}

/// The first `upto` boxed cells of one displayed row: each square shows its
/// piece's glyph between vertical bars.
pub open spec fn cells_prefix(b: Seq<Piece>, row: int, upto: int) -> Seq<char>
    decreases upto,
{
    if upto <= 0 {
        Seq::empty()
    } else {
        cells_prefix(b, row, upto - 1) + seq!['|', ' ', glyph(b[row * 8 + (upto - 1)]), ' ']
    }
}

/// One displayed row: a rule, the rank digit, eight cells, and a closing bar
/// with the rank digit again.
pub open spec fn row_text(b: Seq<Piece>, row: int) -> Seq<char> {
    rule_line() + seq![rank_char(row), ' '] + cells_prefix(b, row, 8) + seq![
        '|',
        ' ',
        rank_char(row),
        '\n',
    ]
}

/// The first `upto` displayed rows, top (eighth rank) first.
pub open spec fn rows_prefix(b: Seq<Piece>, upto: int) -> Seq<char>
    decreases upto,
{
    if upto <= 0 {
        Seq::empty()
    } else {
        rows_prefix(b, upto - 1) + row_text(b, upto - 1)
    }
}

/// The full text of a rendered board.
pub open spec fn render_spec(b: Seq<Piece>) -> Seq<char> {
    file_labels() + rows_prefix(b, 8) + rule_line() + file_labels()
}

impl Board {
    /// Renders the board as a fixed-width text grid with file letters above
    /// and below and rank digits on both sides.
    pub fn render(&self) -> (text: String)
        ensures
            text@ == render_spec(self@),
    {
        let ghost b = self@;
        let mut text = String::new();
        text.append("    a   b   c   d   e   f   g   h\n");
        proof {
            assert(text@ =~= file_labels() + rows_prefix(b, 0));
        }
        let mut i: usize = 0;
        while i < 8
            invariant
                i <= 8,
                self@ == b,
                text@ == file_labels() + rows_prefix(b, i as int),
            decreases 8 - i,
        {
            text.append("  +---+---+---+---+---+---+---+---+\n");
            text.append(rank_digit_str(i));
            text.append(" ");
            proof {
                reveal_strlit(" ");
                assert(text@ =~= file_labels() + rows_prefix(b, i as int) + rule_line() + seq![
                    rank_char(i as int),
                    ' ',
                ] + cells_prefix(b, i as int, 0));
            }
            let mut j: usize = 0;
            while j < 8
                invariant
                    j <= 8,
                    i < 8,
                    self@ == b,
                    text@ == file_labels() + rows_prefix(b, i as int) + rule_line() + seq![
                        rank_char(i as int),
                        ' ',
                    ] + cells_prefix(b, i as int, j as int),
                decreases 8 - j,
            {
                text.append("| ");
                let p = self.piece_at(i * 8 + j);
                text.append(p.glyph_str());
                text.append(" ");
                proof {
                    reveal_strlit("| ");
                    reveal_strlit(" ");
                    assert(cells_prefix(b, i as int, j + 1) == cells_prefix(b, i as int, j as int)
                        + seq!['|', ' ', glyph(b[i as int * 8 + j]), ' ']);
                    assert(text@ =~= file_labels() + rows_prefix(b, i as int) + rule_line() + seq![
                        rank_char(i as int),
                        ' ',
                    ] + cells_prefix(b, i as int, j + 1));
                }
                j = j + 1;
            }
            text.append("| ");
            text.append(rank_digit_str(i));
            text.append("\n");
            proof {
                reveal_strlit("| ");
                reveal_strlit("\n");
                assert(rows_prefix(b, i + 1) == rows_prefix(b, i as int) + row_text(b, i as int));
                assert(text@ =~= file_labels() + rows_prefix(b, i + 1));
            }
            i = i + 1;
        }
        text.append("  +---+---+---+---+---+---+---+---+\n");
        text.append("    a   b   c   d   e   f   g   h\n");
        proof {
            assert(text@ =~= render_spec(b));
        }
        text
    }
}

/// Rendering reads nothing but the board's squares: two renderings of the
/// same board contents, with no mutation in between, are the same text.
pub proof fn lemma_render_deterministic(b: Seq<Piece>, s1: Seq<char>, s2: Seq<char>)
    requires
        s1 == render_spec(b),
        s2 == render_spec(b),
    ensures
        s1 == s2,
{
}

} // verus!
