//! The move types the game accepts. Connect four has a single move kind:
//! dropping a piece into a column.

use vstd::prelude::*;

verus! {

/// A move's payload. `DropPiece` places a marker in a column; gravity
/// resolves it to the lowest open cell.
#[derive(Clone, Copy, Debug, PartialEq, Eq, Structural)]
pub enum MoveType {
    DropPiece { column: u32 },
}

/// The column carried by a move payload.
pub open spec fn column_of(move_type: MoveType) -> u32 {
    match move_type {
        MoveType::DropPiece { column } => column,
    }
}

impl MoveType {
    /// Lists one example of every move kind the game accepts.
    pub fn describe() -> (result: Vec<MoveType>)
        ensures
            result@.len() == 1,
            result@[0] == (MoveType::DropPiece { column: 0 }),
    {
        let mut kinds: Vec<MoveType> = Vec::new();
        kinds.push(MoveType::DropPiece { column: 0 });
        kinds
    }
}

} // verus!
