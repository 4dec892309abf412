//! Selecting a move out of a candidate list by its destination square.
//!
//! Legality is the rules engine's business: it produces the candidate
//! moves for a selected piece, and only what this crate reads of a move —
//! its source and destination square indices — is modeled here.

use vstd::prelude::*;

verus! {

/// A candidate move between two board squares, each given as a square
/// index in [0, 63].
#[derive(Clone, Copy, PartialEq, Eq, Structural, Debug)]
pub struct Move {
    pub from: u8,
    pub to: u8,
}

/// Find index of the first move in `moves` that goes to `to_square`, if
/// any move does.
pub fn find_move_to(moves: &Vec<Move>, to_square: u8) -> (r: Option<usize>)
    ensures
        r matches Some(i) ==> i < moves@.len() && moves@[i as int].to == to_square && (forall|
            j: int,
        |
            0 <= j < i ==> moves@[j].to != to_square),
        r is None ==> forall|j: int| 0 <= j < moves@.len() ==> moves@[j].to != to_square,
{
    let mut i: usize = 0;
    while i < moves.len()
        invariant
            i <= moves@.len(),
            forall|j: int| 0 <= j < i ==> moves@[j].to != to_square,
        decreases moves@.len() - i,
    {
        if moves[i].to == to_square {
            return Some(i);
        }
        i = i + 1;
    }
    None
}

} // verus!
