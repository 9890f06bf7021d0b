use vstd::prelude::*;

verus! {

/// The failure kinds of notation handling: a malformed square string, or a
/// move string whose token count is wrong.
#[derive(Clone, Copy, Debug, PartialEq, Eq, Structural)]
pub enum ChessError {
    PositionParse,
    MoveParse,
}

} // verus!
