//! A two-player connect-four game whose authoritative state is never stored:
//! it is derived by replaying an append-only, content-addressed chain of move
//! records anchored to a game record.
//!
//! The crate is organised around that derivation:
//! - [`store`] models the entry store and link index as an explicit
//!   append-only log, and carries the raw entries;
//! - [`game`] reconstructs the ordered move sequence from the log (or from a
//!   locally held chain) and folds it into the current [`state::GameState`];
//! - [`state`] holds the grid, the fold step `evolve`, and the win and draw
//!   detectors;
//! - [`validation`] decides whether a proposed move may be appended, by the
//!   same deterministic replay every peer performs independently.

use vstd::prelude::*;

pub mod errors;
pub mod game;
pub mod game_move;
pub mod moves;
pub mod state;
pub mod store;
pub mod validation;

verus! {

/// A content address in the backing store, modelled as a plain identifier.
/// Agent identities are addresses as well.
pub type Address = usize;

} // verus!
