//! The reasons a request can fail. Validation failures are returned as typed
//! results with descriptive text; they never abort the process.

use vstd::prelude::*;

verus! {

/// Everything that can go wrong when resolving entries or validating a move.
///
/// `TurnOrder { opening: true }` names the opening rule (only the second
/// player may make the first move); `opening: false` names the alternation
/// rule (an author may not move twice in a row).
#[derive(Clone, Copy, Debug, PartialEq, Eq, Structural)]
pub enum GameError {
    /// An address could not be resolved to the expected entry.
    NotFound,
    /// A game whose two players are the same agent.
    InvalidGame,
    /// A move proposed after the game ended.
    GameOver,
    /// A move by the wrong author for this point of the chain.
    TurnOrder { opening: bool },
    /// A drop into a column outside the board.
    OutOfBounds,
    /// A drop into a column whose top cell is occupied.
    ColumnFull,
    /// A link that would fork or tangle the move chain.
    ChainIntegrity,
}

impl GameError {
    /// The human-readable text for this rejection.
    pub open spec fn message_spec(&self) -> Seq<char> {
        match self {
            GameError::NotFound => "Entry not found"@,
            GameError::InvalidGame => "Player 1 and Player 2 must be different agents."@,
            GameError::GameOver => "Game has ended"@,
            GameError::TurnOrder { opening } => {
                if *opening {
                    "Player 2 must make the first move"@
                } else {
                    "Not your turn, must wait for other player to make a move"@
                }
            },
            GameError::OutOfBounds => "Column out of bounds"@,
            GameError::ColumnFull => "Column is full"@,
            GameError::ChainIntegrity => "Move chain is malformed"@,
        }
    }

    /// The human-readable text for this rejection.
    pub fn message(&self) -> (result: &'static str)
        ensures
            result@ == self.message_spec(),
    {
        match self {
            GameError::NotFound => "Entry not found",
            GameError::InvalidGame => "Player 1 and Player 2 must be different agents.",
            GameError::GameOver => "Game has ended",
            GameError::TurnOrder { opening } => {
                if *opening {
                    "Player 2 must make the first move"
                } else {
                    "Not your turn, must wait for other player to make a move"
                }
            },
            GameError::OutOfBounds => "Column out of bounds",
            GameError::ColumnFull => "Column is full",
            GameError::ChainIntegrity => "Move chain is malformed",
        }
    }
}

} // verus!
