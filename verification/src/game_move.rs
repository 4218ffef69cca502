//! Move records. A move is immutable once written; its identity is its
//! content address, and it points at its game and (informationally) at the
//! move it followed.

use vstd::prelude::*;

use crate::moves::MoveType;
use crate::Address;

verus! {

/// What a proposer hands to the boundary: the author is the caller's own
/// identity and is supplied by the boundary, not by this record.
#[derive(Clone, Copy, Debug, PartialEq, Eq, Structural)]
pub struct MoveInput {
    pub game: Address,
    pub move_type: MoveType,
    pub timestamp: u32,
}

/// A move entry. `previous_move` is informational; the link index, not this
/// field, is the ordering source of truth.
#[derive(Clone, Copy, Debug, PartialEq, Eq, Structural)]
pub struct Move {
    pub game: Address,
    pub author: Address,
    pub move_type: MoveType,
    pub previous_move: Address,
    pub timestamp: u32,
}

} // verus!
