//! The move validator: given a candidate move, the game record and the state
//! derived from the history *excluding* that candidate, decides whether the
//! move may be appended. The checks are pure and replay-deterministic, so
//! every peer re-running them against the same state reaches the same
//! verdict.

use vstd::prelude::*;

use crate::errors::GameError;
use crate::game::Game;
use crate::game_move::Move;
use crate::moves::column_of;
use crate::moves::MoveType;
use crate::state::cell;
use crate::state::GameState;
use crate::state::GameStateModel;
use crate::state::COLUMNS;
use crate::state::ROWS;
use crate::Address;

verus! {

/// The first validation gate: the game must still be in progress.
pub open spec fn in_progress_check_spec(s: GameStateModel) -> Result<(), GameError> {
    if !s.in_progress {
        Err(GameError::GameOver)
    } else {
        Ok(())
    }
}

/// The second validation gate: the author must differ from the last recorded
/// move's author; with no moves yet, only the second player may open (the
/// creator never does).
pub open spec fn turn_check_spec(player: Address, game: Game, s: GameStateModel) -> Result<
    (),
    GameError,
> {
    if s.moves_history.len() > 0 {
        if s.moves_history.last().author == player {
            Err(GameError::TurnOrder { opening: false })
        } else {
            Ok(())
        }
    } else {
        if game.player_2 == player {
            Ok(())
        } else {
            Err(GameError::TurnOrder { opening: true })
        }
    }
}

/// The whole verdict on a candidate move, checks short-circuited in order:
/// game in progress, turn order, column on the board, column not full.
pub open spec fn valid_move_spec(m: Move, game: Game, s: GameStateModel) -> Result<
    (),
    GameError,
> {
    if !s.in_progress {
        Err(GameError::GameOver)
    } else if turn_check_spec(m.author, game, s) is Err {
        turn_check_spec(m.author, game, s)
    } else if column_of(m.move_type) >= COLUMNS {
        Err(GameError::OutOfBounds)
    } else if cell(s.grid, column_of(m.move_type) as int, (ROWS as int) - 1) != 0 {
        Err(GameError::ColumnFull)
    } else {
        Ok(())
    }
}

/// A chain every peer accepted: each move of the sequence is valid against
/// the state replayed from the moves before it.
pub open spec fn valid_chain(moves: Seq<Move>, game: Game) -> bool {
    forall|i: int|
        0 <= i < moves.len() ==> #[trigger] valid_move_spec(
            moves[i],
            game,
            crate::state::reduce_spec(moves.take(i), game),
        ) is Ok
}

/// Turn alternation: in an accepted chain, consecutive moves always have
/// distinct authors, and the opening move's author is the game's second
/// player.
pub proof fn lemma_turn_alternation(moves: Seq<Move>, game: Game)
    requires
        valid_chain(moves, game),
    ensures
        forall|n: int|
            0 <= n && n + 1 < moves.len() ==> (#[trigger] moves[n + 1]).author != moves[n].author,
        moves.len() > 0 ==> moves[0].author == game.player_2,
{
    assert forall|n: int|
        0 <= n && n + 1 < moves.len() implies (#[trigger] moves[n + 1]).author
        != moves[n].author by {
        let s = crate::state::reduce_spec(moves.take(n + 1), game);
        crate::state::lemma_reduce_history(moves.take(n + 1), game);
        assert(valid_move_spec(moves[n + 1], game, s) is Ok);
        assert(s.moves_history.last() == moves[n]);
    }
    if moves.len() > 0 {
        let s = crate::state::reduce_spec(moves.take(0), game);
        crate::state::lemma_reduce_history(moves.take(0), game);
        assert(valid_move_spec(moves[0], game, s) is Ok);
        assert(s.moves_history.len() == 0);
    }
}

/// Bounds: a drop whose column lies outside the board is rejected whatever
/// the rest of the state looks like (with the game-over or turn-order
/// reason when one of those earlier checks also fails, and with
/// `OutOfBounds` otherwise).
pub proof fn lemma_out_of_bounds_rejected(m: Move, game: Game, s: GameStateModel)
    requires
        column_of(m.move_type) >= COLUMNS,
    ensures
        valid_move_spec(m, game, s) is Err,
{
}

/// The validator discharges the replay fold's safety assumption: every move
/// of an accepted chain targets a column on the board.
pub proof fn lemma_valid_chain_in_bounds(moves: Seq<Move>, game: Game)
    requires
        valid_chain(moves, game),
    ensures
        crate::state::moves_in_bounds(moves),
{
    assert forall|i: int| 0 <= i < moves.len() implies column_of(moves[i].move_type)
        < COLUMNS by {
        assert(valid_move_spec(moves[i], game, crate::state::reduce_spec(moves.take(i), game))
            is Ok);
    }
}

/// Rejects a move proposed after the game ended.
pub fn is_game_in_progress(game_state: &GameState) -> (result: Result<(), GameError>)
    ensures
        result == in_progress_check_spec(game_state@),
{
    if !game_state.in_progress {
        Err(GameError::GameOver)
    } else {
        Ok(())
    }
}

/// Rejects a move by the wrong author: the same author twice in a row, or an
/// opening move by anyone but the second player.
pub fn is_it_players_turn(player: Address, game: &Game, game_state: &GameState) -> (result: Result<
    (),
    GameError,
>)
    ensures
        result == turn_check_spec(player, *game, game_state@),
{
    let n = game_state.moves_history.len();
    if n > 0 {
        let last_move = &game_state.moves_history[n - 1];
        if last_move.author == player {
            Err(GameError::TurnOrder { opening: false })
        } else {
            Ok(())
        }
    } else {
        if game.player_2 == player {
            Ok(())
        } else {
            Err(GameError::TurnOrder { opening: true })
        }
    }
}

impl GameState {
    /// The bounds fragment of drop legality: the column must lie on the
    /// board.
    pub fn is_column_in_bounds(&self, column: u32) -> (result: Result<(), GameError>)
        ensures
            result == (if column < COLUMNS {
                Ok::<(), GameError>(())
            } else {
                Err::<(), GameError>(GameError::OutOfBounds)
            }),
    {
        if column < COLUMNS as u32 {
            Ok(())
        } else {
            Err(GameError::OutOfBounds)
        }
    }

    /// The fullness fragment of drop legality: the column's top cell must be
    /// empty for it to receive a piece.
    pub fn is_column_not_full(&self, game_state: &GameState, column: u32) -> (result: Result<
        (),
        GameError,
    >)
        requires
            game_state.wf(),
            column < COLUMNS,
        ensures
            result == (if cell(game_state@.grid, column as int, (ROWS as int) - 1) == 0 {
                Ok::<(), GameError>(())
            } else {
                Err::<(), GameError>(GameError::ColumnFull)
            }),
    {
        if game_state.grid[(ROWS - 1) * COLUMNS + column as usize] == 0 {
            Ok(())
        } else {
            Err(GameError::ColumnFull)
        }
    }
}

impl Move {
    /// Whether this candidate move is valid given the game and the state
    /// derived from the existing moves. `Ok(())` permits append and link;
    /// an error carries the reason returned to the proposer, and every peer
    /// re-running this check against the same state reaches the identical
    /// verdict.
    pub fn is_valid(&self, game: Game, game_state: GameState) -> (result: Result<(), GameError>)
        requires
            game_state.wf(),
        ensures
            result == valid_move_spec(*self, game, game_state@),
    {
        match is_game_in_progress(&game_state) {
            Err(reason) => {
                return Err(reason);
            },
            Ok(()) => {},
        }
        match is_it_players_turn(self.author, &game, &game_state) {
            Err(reason) => {
                return Err(reason);
            },
            Ok(()) => {},
        }
        match self.move_type {
            MoveType::DropPiece { column } => {
                match game_state.is_column_in_bounds(column) {
                    Err(reason) => {
                        return Err(reason);
                    },
                    Ok(()) => {},
                }
                match game_state.is_column_not_full(&game_state, column) {
                    Err(reason) => {
                        return Err(reason);
                    },
                    Ok(()) => {},
                }
            },
        }
        Ok(())
    }
}

} // verus!
