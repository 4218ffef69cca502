//! The derived game state and the pure fold that produces it.
//!
//! The grid is a flat fixed-size array in row-major order, 7 columns by
//! 6 rows, with row 0 at the bottom:
//!
//! ```text
//!    0 1 2 3 4 5 6
//!    _ _ _ _ _ _ _
//! 5 |_|_|_|_|_|_|_|
//! 4 |_|_|_|_|_|_|_|
//! 3 |_|_|_|_|_|_|_|
//! 2 |_|_|_|_|_|_|_|
//! 1 |_|_|_|_|_|_|_|
//! 0 |_|_|_|_|_|_|_|
//! ```
//!
//! A cell holds 0 when empty, 1 for the first player's marker and 2 for the
//! second player's. State is never persisted: it is recomputed on demand by
//! replaying the move chain, and determinism of that replay is the core
//! correctness property.

use vstd::prelude::*;

use crate::game::Game;
use crate::game_move::Move;
use crate::moves::column_of;
use crate::moves::MoveType;

verus! {

pub const ROWS: usize = 6;

pub const COLUMNS: usize = 7;

pub const CELLS: usize = 42;

/// The board, flat and row-major: the cell in column `c` of row `r` sits at
/// index `r * COLUMNS + c`.
pub type Grid = Vec<u8>;

/// Index of a cell in the flat grid.
pub open spec fn cell_index(column: int, row: int) -> int {
    row * (COLUMNS as int) + column
}

/// A well-formed grid has exactly one byte per cell, each holding an empty
/// marker or one of the two players' markers.
pub open spec fn grid_wf(grid: Seq<u8>) -> bool {
    &&& grid.len() == CELLS
    &&& forall|i: int| 0 <= i < CELLS ==> grid[i] == 0 || grid[i] == 1 || grid[i] == 2
}

/// The marker in column `column` of row `row`.
pub open spec fn cell(grid: Seq<u8>, column: int, row: int) -> u8 {
    grid[cell_index(column, row)]
}

/// The lowest empty row of `column` at or above `row`, or `ROWS` when the
/// column is full from `row` upward.
pub open spec fn lowest_empty_row_from(grid: Seq<u8>, column: int, row: int) -> int
    decreases (ROWS as int) - row,
{
    if row < 0 || row >= ROWS {
        ROWS as int
    } else if cell(grid, column, row) == 0 {
        row
    } else {
        lowest_empty_row_from(grid, column, row + 1)
    }
}

/// The lowest empty row of `column`, or `ROWS` when the column is full.
pub open spec fn lowest_empty_row(grid: Seq<u8>, column: int) -> int {
    lowest_empty_row_from(grid, column, 0)
}

/// Gravity: the grid after dropping `player`'s marker into `column`. The
/// marker lands in the lowest empty cell of the column; a full column leaves
/// the grid unchanged.
pub open spec fn drop_piece_spec(grid: Seq<u8>, player: u8, column: int) -> Seq<u8> {
    let row = lowest_empty_row(grid, column);
    if row < ROWS {
        grid.update(cell_index(column, row), player)
    } else {
        grid
    }
}

/// Four of `player`'s markers stacked in `column` starting at `row`.
pub open spec fn vertical_win_at(grid: Seq<u8>, player: u8, column: int, row: int) -> bool {
    &&& cell(grid, column, row) == player
    &&& cell(grid, column, row + 1) == player
    &&& cell(grid, column, row + 2) == player
    &&& cell(grid, column, row + 3) == player
}

/// Four of `player`'s markers in `row` starting at `column`.
pub open spec fn horizontal_win_at(grid: Seq<u8>, player: u8, column: int, row: int) -> bool {
    &&& cell(grid, column, row) == player
    &&& cell(grid, column + 1, row) == player
    &&& cell(grid, column + 2, row) == player
    &&& cell(grid, column + 3, row) == player
}

/// Four of `player`'s markers on the ascending diagonal anchored at
/// (`column`, `row`), stepping one column right and one row up.
pub open spec fn ascending_win_at(grid: Seq<u8>, player: u8, column: int, row: int) -> bool {
    &&& cell(grid, column, row) == player
    &&& cell(grid, column + 1, row + 1) == player
    &&& cell(grid, column + 2, row + 2) == player
    &&& cell(grid, column + 3, row + 3) == player
}

/// Four of `player`'s markers on the descending diagonal anchored at
/// (`column`, `row`), stepping one column right and one row down.
pub open spec fn descending_win_at(grid: Seq<u8>, player: u8, column: int, row: int) -> bool {
    &&& cell(grid, column, row) == player
    &&& cell(grid, column + 1, row - 1) == player
    &&& cell(grid, column + 2, row - 2) == player
    &&& cell(grid, column + 3, row - 3) == player
}

pub open spec fn has_vertical_win(grid: Seq<u8>, player: u8) -> bool {
    exists|column: int, row: int|
        0 <= column < COLUMNS && 0 <= row <= (ROWS as int) - 4 && vertical_win_at(
            grid,
            player,
            column,
            row,
        )
}

pub open spec fn has_horizontal_win(grid: Seq<u8>, player: u8) -> bool {
    exists|column: int, row: int|
        0 <= column <= (COLUMNS as int) - 4 && 0 <= row < ROWS && horizontal_win_at(
            grid,
            player,
            column,
            row,
        )
}

pub open spec fn has_ascending_win(grid: Seq<u8>, player: u8) -> bool {
    exists|column: int, row: int|
        0 <= column <= (COLUMNS as int) - 4 && 0 <= row <= (ROWS as int) - 4 && ascending_win_at(
            grid,
            player,
            column,
            row,
        )
}

pub open spec fn has_descending_win(grid: Seq<u8>, player: u8) -> bool {
    exists|column: int, row: int|
        0 <= column <= (COLUMNS as int) - 4 && 3 <= row < ROWS && descending_win_at(
            grid,
            player,
            column,
            row,
        )
}

/// `player` has four markers in a line anywhere on the board, in any of the
/// four orientations.
pub open spec fn has_win(grid: Seq<u8>, player: u8) -> bool {
    ||| has_vertical_win(grid, player)
    ||| has_horizontal_win(grid, player)
    ||| has_ascending_win(grid, player)
    ||| has_descending_win(grid, player)
}

/// The board is drawn when every column's topmost cell is occupied. Columns
/// fill bottom-up, so this is equivalent to a full board.
pub open spec fn is_draw_grid(grid: Seq<u8>) -> bool {
    forall|column: int|
        0 <= column < COLUMNS ==> #[trigger] cell(grid, column, (ROWS as int) - 1) != 0
}

/// Per-player derived state.
#[derive(Clone, Copy, Debug, PartialEq, Eq, Structural)]
pub struct PlayerState {
    pub resigned: bool,
}

impl PlayerState {
    pub fn initial() -> (result: PlayerState)
        ensures
            result == (PlayerState { resigned: false }),
    {
        PlayerState { resigned: false }
    }
}

/// The mathematical model of a [`GameState`]: the same data over `Seq`
/// instead of `Vec`. Contracts and the replay fold are stated over this.
#[verifier::ext_equal]
pub struct GameStateModel {
    pub grid: Seq<u8>,
    pub moves_history: Seq<Move>,
    pub player_1: PlayerState,
    pub player_2: PlayerState,
    pub in_progress: bool,
}

/// The derived state of one game: the grid, the replayed move history, both
/// players' flags, and whether the game is still in progress. Recomputed on
/// demand from the chain, never persisted.
#[derive(Clone, Debug, PartialEq, Eq)]
pub struct GameState {
    pub grid: Grid,
    pub moves_history: Vec<Move>,
    pub player_1: PlayerState,
    pub player_2: PlayerState,
    pub in_progress: bool,
}

impl View for GameState {
    type V = GameStateModel;

    open spec fn view(&self) -> GameStateModel {
        GameStateModel {
            grid: self.grid@,
            moves_history: self.moves_history@,
            player_1: self.player_1,
            player_2: self.player_2,
            in_progress: self.in_progress,
        }
    }
}

/// The marker placed by the author of `m`: 1 for the game's first player,
/// 2 for anyone else (the second player, for the chains the validator
/// accepts).
pub open spec fn acting_marker(game: Game, m: Move) -> u8 {
    if game.player_1 == m.author {
        1
    } else {
        2
    }
}

/// The canonical initial state: empty grid, empty history, nobody resigned,
/// game in progress.
pub open spec fn initial_state_spec() -> GameStateModel {
    GameStateModel {
        grid: Seq::new(CELLS as nat, |i: int| 0u8),
        moves_history: Seq::empty(),
        player_1: PlayerState { resigned: false },
        player_2: PlayerState { resigned: false },
        in_progress: true,
    }
}

/// One step of the replay fold: record the move, drop the author's marker,
/// re-check the author's win (forcing the opponent's resigned flag), and
/// recompute `in_progress`.
pub open spec fn apply_move_spec(s: GameStateModel, game: Game, m: Move) -> GameStateModel {
    let marker = acting_marker(game, m);
    let grid = drop_piece_spec(s.grid, marker, column_of(m.move_type) as int);
    let player_1 = if marker == 2 {
        PlayerState { resigned: has_win(grid, 2) }
    } else {
        s.player_1
    };
    let player_2 = if marker == 1 {
        PlayerState { resigned: has_win(grid, 1) }
    } else {
        s.player_2
    };
    let in_progress = if player_1.resigned || player_2.resigned {
        false
    } else {
        !is_draw_grid(grid)
    };
    GameStateModel {
        grid,
        moves_history: s.moves_history.push(m),
        player_1,
        player_2,
        in_progress,
    }
}

/// The replay fold: the state derived from an ordered move sequence, oldest
/// first, starting from the canonical initial state.
pub open spec fn reduce_spec(moves: Seq<Move>, game: Game) -> GameStateModel
    decreases moves.len(),
{
    if moves.len() == 0 {
        initial_state_spec()
    } else {
        apply_move_spec(reduce_spec(moves.drop_last(), game), game, moves.last())
    }
}

/// Unrolls the replay fold one step from the front: folding the first `i`
/// moves and then applying move `i` is folding the first `i + 1`.
pub proof fn lemma_reduce_spec_step(moves: Seq<Move>, game: Game, i: int)
    requires
        0 <= i < moves.len(),
    ensures
        reduce_spec(moves.take(i + 1), game) == apply_move_spec(
            reduce_spec(moves.take(i), game),
            game,
            moves[i],
        ),
{
    assert(moves.take(i + 1).drop_last() =~= moves.take(i));
    assert(moves.take(i + 1).last() == moves[i]);
}

/// Every move of the sequence targets a column on the board. The replay fold
/// assumes moves were validated; this is the part of that assumption it
/// depends on for safety.
pub open spec fn moves_in_bounds(moves: Seq<Move>) -> bool {
    forall|i: int| 0 <= i < moves.len() ==> column_of(moves[i].move_type) < COLUMNS
}

impl GameState {
    /// A state whose grid is a well-formed board.
    pub open spec fn wf(&self) -> bool {
        grid_wf(self.grid@)
    }

    /// The canonical initial state.
    pub fn initial() -> (result: GameState)
        ensures
            result.wf(),
            result@ == initial_state_spec(),
    {
        let mut grid: Grid = Vec::new();
        let mut i: usize = 0;
        while i < CELLS
            invariant
                i <= CELLS,
                grid@.len() == i,
                forall|j: int| 0 <= j < i ==> grid@[j] == 0u8,
            decreases CELLS - i,
        {
            grid.push(0u8);
            i = i + 1;
        }
        let result = GameState {
            grid,
            moves_history: Vec::new(),
            player_1: PlayerState::initial(),
            player_2: PlayerState::initial(),
            in_progress: true,
        };
        proof {
            assert(result@.grid =~= initial_state_spec().grid);
            assert(result@ =~= initial_state_spec());
        }
        result
    }

    /// Gravity: scans `column` from the bottom row upward and places
    /// `player`'s marker in the first empty cell. A full column leaves the
    /// grid unchanged. The reducer only calls this on validated moves; it
    /// performs no bounds or fullness checks itself.
    pub fn drop_piece(&self, grid: Grid, player: u8, column: usize) -> (result: Grid)
        requires
            grid_wf(grid@),
            column < COLUMNS,
            player == 1 || player == 2,
        ensures
            grid_wf(result@),
            result@ == drop_piece_spec(grid@, player, column as int),
    {
        let ghost given = grid@;
        let mut grid = grid;
        let mut row: usize = 0;
        while row < ROWS && grid[row * COLUMNS + column] != 0
            invariant
                grid@ == given,
                grid_wf(grid@),
                column < COLUMNS,
                row <= ROWS,
                forall|r: int| 0 <= r < row ==> cell(grid@, column as int, r) != 0,
            decreases ROWS - row,
        {
            row = row + 1;
        }
        proof {
            lemma_lowest_empty_row_found(grid@, column as int, row as int);
        }
        if row < ROWS {
            grid.set(row * COLUMNS + column, player);
        }
        grid
    }

    /// True when every column's topmost cell is occupied: no further drop
    /// can land, so the game is drawn if nobody has resigned.
    pub fn check_draw(&self, grid: &Grid) -> (result: bool)
        requires
            grid_wf(grid@),
        ensures
            result == is_draw_grid(grid@),
    {
        let mut column: usize = 0;
        while column < COLUMNS
            invariant
                grid_wf(grid@),
                column <= COLUMNS,
                forall|c: int| 0 <= c < column ==> #[trigger] cell(grid@, c, (ROWS as int) - 1)
                    != 0,
            decreases COLUMNS - column,
        {
            if grid[(ROWS - 1) * COLUMNS + column] == 0 {
                proof {
                    assert(cell(grid@, column as int, (ROWS as int) - 1) == 0);
                }
                return false;
            }
            column = column + 1;
        }
        true
    }

    /// Vertical scan: per column, counts consecutive cells holding
    /// `player`'s marker from the bottom up, resetting on a mismatch, and
    /// reports a run of four.
    pub fn check_column_win(&self, grid: &Grid, player: u8) -> (result: bool)
        requires
            grid_wf(grid@),
        ensures
            result == has_vertical_win(grid@, player),
    {
        let mut column: usize = 0;
        while column < COLUMNS
            invariant
                grid_wf(grid@),
                column <= COLUMNS,
                forall|c: int, r: int|
                    0 <= c < column && 0 <= r <= (ROWS as int) - 4 ==> !vertical_win_at(
                        grid@,
                        player,
                        c,
                        r,
                    ),
            decreases COLUMNS - column,
        {
            let mut count: usize = 0;
            let mut row: usize = 0;
            while row < ROWS
                invariant
                    grid_wf(grid@),
                    column < COLUMNS,
                    row <= ROWS,
                    count <= 3,
                    count <= row,
                    forall|r: int| row - count <= r < row ==> cell(grid@, column as int, r)
                        == player,
                    row - count - 1 >= 0 ==> cell(grid@, column as int, row - count - 1) != player,
                    forall|r: int|
                        0 <= r <= row - 4 ==> !vertical_win_at(grid@, player, column as int, r),
                decreases ROWS - row,
            {
                if grid[row * COLUMNS + column] == player {
                    count = count + 1;
                    if count == 4 {
                        proof {
                            assert(vertical_win_at(grid@, player, column as int, row - 3));
                        }
                        return true;
                    }
                } else {
                    count = 0;
                }
                row = row + 1;
            }
            column = column + 1;
        }
        false
    }

    /// Horizontal scan: per row, counts consecutive cells holding
    /// `player`'s marker across the columns, resetting on a mismatch, and
    /// reports a run of four.
    pub fn check_row_win(&self, grid: &Grid, player: u8) -> (result: bool)
        requires
            grid_wf(grid@),
        ensures
            result == has_horizontal_win(grid@, player),
    {
        let mut row: usize = 0;
        while row < ROWS
            invariant
                grid_wf(grid@),
                row <= ROWS,
                forall|c: int, r: int|
                    0 <= c <= (COLUMNS as int) - 4 && 0 <= r < row ==> !horizontal_win_at(
                        grid@,
                        player,
                        c,
                        r,
                    ),
            decreases ROWS - row,
        {
            let mut count: usize = 0;
            let mut column: usize = 0;
            while column < COLUMNS
                invariant
                    grid_wf(grid@),
                    row < ROWS,
                    column <= COLUMNS,
                    count <= 3,
                    count <= column,
                    forall|c: int| column - count <= c < column ==> cell(grid@, c, row as int)
                        == player,
                    column - count - 1 >= 0 ==> cell(grid@, column - count - 1, row as int)
                        != player,
                    forall|c: int|
                        0 <= c <= column - 4 ==> !horizontal_win_at(grid@, player, c, row as int),
                decreases COLUMNS - column,
            {
                if grid[row * COLUMNS + column] == player {
                    count = count + 1;
                    if count == 4 {
                        proof {
                            assert(horizontal_win_at(grid@, player, column - 3, row as int));
                        }
                        return true;
                    }
                } else {
                    count = 0;
                }
                column = column + 1;
            }
            row = row + 1;
        }
        false
    }

    /// Diagonal scan: checks every admissible anchor of the ascending
    /// (one right, one up) and descending (one right, one down) diagonals.
    pub fn check_diagonal_win(&self, grid: &Grid, player: u8) -> (result: bool)
        requires
            grid_wf(grid@),
        ensures
            result == (has_ascending_win(grid@, player) || has_descending_win(grid@, player)),
    {
        let mut row: usize = 0;
        while row + 3 < ROWS
            invariant
                grid_wf(grid@),
                row <= (ROWS - 3) as usize,
                forall|c: int, r: int|
                    0 <= c <= (COLUMNS as int) - 4 && 0 <= r < row ==> !ascending_win_at(
                        grid@,
                        player,
                        c,
                        r,
                    ),
            decreases ROWS - row,
        {
            let mut column: usize = 0;
            while column + 3 < COLUMNS
                invariant
                    grid_wf(grid@),
                    row + 3 < ROWS,
                    column <= (COLUMNS - 3) as usize,
                    forall|c: int, r: int|
                        0 <= c <= (COLUMNS as int) - 4 && 0 <= r < row ==> !ascending_win_at(
                            grid@,
                            player,
                            c,
                            r,
                        ),
                    forall|c: int|
                        0 <= c < column ==> !ascending_win_at(grid@, player, c, row as int),
                decreases COLUMNS - column,
            {
                if grid[row * COLUMNS + column] == player && grid[(row + 1) * COLUMNS + column + 1]
                    == player && grid[(row + 2) * COLUMNS + column + 2] == player && grid[(row + 3)
                    * COLUMNS + column + 3] == player {
                    proof {
                        assert(ascending_win_at(grid@, player, column as int, row as int));
                    }
                    return true;
                }
                column = column + 1;
            }
            row = row + 1;
        }
        let mut row: usize = 3;
        while row < ROWS
            invariant
                grid_wf(grid@),
                3 <= row <= ROWS,
                !has_ascending_win(grid@, player),
                forall|c: int, r: int|
                    0 <= c <= (COLUMNS as int) - 4 && 3 <= r < row ==> !descending_win_at(
                        grid@,
                        player,
                        c,
                        r,
                    ),
            decreases ROWS - row,
        {
            let mut column: usize = 0;
            while column + 3 < COLUMNS
                invariant
                    grid_wf(grid@),
                    3 <= row < ROWS,
                    column <= (COLUMNS - 3) as usize,
                    !has_ascending_win(grid@, player),
                    forall|c: int, r: int|
                        0 <= c <= (COLUMNS as int) - 4 && 3 <= r < row ==> !descending_win_at(
                            grid@,
                            player,
                            c,
                            r,
                        ),
                    forall|c: int|
                        0 <= c < column ==> !descending_win_at(grid@, player, c, row as int),
                decreases COLUMNS - column,
            {
                if grid[row * COLUMNS + column] == player && grid[(row - 1) * COLUMNS + column + 1]
                    == player && grid[(row - 2) * COLUMNS + column + 2] == player && grid[(row - 3)
                    * COLUMNS + column + 3] == player {
                    proof {
                        assert(descending_win_at(grid@, player, column as int, row as int));
                    }
                    return true;
                }
                column = column + 1;
            }
            row = row + 1;
        }
        false
    }

    /// Whether `player` has four markers in a line anywhere on the board,
    /// in any of the four orientations. Short-circuits on the first hit.
    pub fn check_win(&self, grid: &Grid, player: u8) -> (result: bool)
        requires
            grid_wf(grid@),
        ensures
            result == has_win(grid@, player),
    {
        self.check_column_win(grid, player) || self.check_row_win(grid, player)
            || self.check_diagonal_win(grid, player)
    }

    /// One step of the replay fold. Given a current state, the game and a
    /// move, computes the next state: records the move, drops the author's
    /// marker, re-checks the author's win (forcing the opponent's resigned
    /// flag), and recomputes `in_progress`. Assumes the move was validated.
    pub fn evolve(&self, game: Game, next_move: &Move) -> (result: GameState)
        requires
            self.wf(),
            column_of(next_move.move_type) < COLUMNS,
        ensures
            result.wf(),
            result@ == apply_move_spec(self@, game, *next_move),
    {
        let mut moves_history = copy_vec(&self.moves_history);
        moves_history.push(*next_move);
        let mut player_1 = self.player_1;
        let mut player_2 = self.player_2;
        let grid: Grid;
        let in_progress: bool;
        match next_move.move_type {
            MoveType::DropPiece { column } => {
                if game.player_1 == next_move.author {
                    grid = self.drop_piece(copy_vec(&self.grid), 1, column as usize);
                    player_2 = PlayerState { resigned: self.check_win(&grid, 1) };
                } else {
                    grid = self.drop_piece(copy_vec(&self.grid), 2, column as usize);
                    player_1 = PlayerState { resigned: self.check_win(&grid, 2) };
                }
                if player_1.resigned || player_2.resigned {
                    in_progress = false;
                } else {
                    in_progress = !self.check_draw(&grid);
                }
            },
        }
        let result = GameState { grid, moves_history, player_1, player_2, in_progress };
        proof {
            assert(result@ =~= apply_move_spec(self@, game, *next_move));
        }
        result
    }
}

/// Determinism: the replay fold is a pure function of the ordered move
/// sequence and the game record, so two replays of identical input yield
/// identical state — on every replica, independent of evaluation order or
/// environment.
pub proof fn lemma_replay_deterministic(
    moves: Seq<Move>,
    game: Game,
    s1: GameStateModel,
    s2: GameStateModel,
)
    requires
        s1 == reduce_spec(moves, game),
        s2 == reduce_spec(moves, game),
    ensures
        s1 == s2,
{
}

/// The replay fold records exactly the moves it was given, in order.
pub proof fn lemma_reduce_history(moves: Seq<Move>, game: Game)
    ensures
        reduce_spec(moves, game).moves_history == moves,
    decreases moves.len(),
{
    if moves.len() == 0 {
        assert(reduce_spec(moves, game).moves_history =~= moves);
    } else {
        lemma_reduce_history(moves.drop_last(), game);
        assert(moves.drop_last().push(moves.last()) =~= moves);
    }
}

/// Below the lowest empty row of a column every cell is occupied, and the
/// lowest empty row itself is empty unless the column is full.
pub proof fn lemma_lowest_empty_row_properties(grid: Seq<u8>, column: int, from: int)
    requires
        grid_wf(grid),
        0 <= column < COLUMNS,
        0 <= from <= ROWS,
    ensures
        from <= lowest_empty_row_from(grid, column, from) <= ROWS,
        lowest_empty_row_from(grid, column, from) < ROWS ==> cell(
            grid,
            column,
            lowest_empty_row_from(grid, column, from),
        ) == 0,
        forall|r: int|
            from <= r < lowest_empty_row_from(grid, column, from) ==> #[trigger] cell(
                grid,
                column,
                r,
            ) != 0,
    decreases (ROWS as int) - from,
{
    if from < ROWS && cell(grid, column, from) != 0 {
        lemma_lowest_empty_row_properties(grid, column, from + 1);
    }
}

/// Gravity: a drop into a non-full column places the marker in the lowest
/// row of that column that was empty at drop time; every cell below it was
/// already occupied and stays as it was.
pub proof fn lemma_gravity(s: GameStateModel, game: Game, m: Move)
    requires
        grid_wf(s.grid),
        column_of(m.move_type) < COLUMNS,
        lowest_empty_row(s.grid, column_of(m.move_type) as int) < ROWS,
    ensures
        ({
            let column = column_of(m.move_type) as int;
            let row = lowest_empty_row(s.grid, column);
            let after = apply_move_spec(s, game, m);
            &&& cell(s.grid, column, row) == 0
            &&& cell(after.grid, column, row) == acting_marker(game, m)
            &&& forall|r: int|
                0 <= r < row ==> #[trigger] cell(after.grid, column, r) == cell(s.grid, column, r)
                    && cell(s.grid, column, r) != 0
        }),
{
    let column = column_of(m.move_type) as int;
    let row = lowest_empty_row(s.grid, column);
    lemma_lowest_empty_row_properties(s.grid, column, 0);
    assert forall|r: int| 0 <= r < row implies #[trigger] cell(after_grid(s, game, m), column, r)
        == cell(s.grid, column, r) && cell(s.grid, column, r) != 0 by {
        assert(cell_index(column, r) != cell_index(column, row));
    }
}

/// The grid after one replay step.
pub open spec fn after_grid(s: GameStateModel, game: Game, m: Move) -> Seq<u8> {
    apply_move_spec(s, game, m).grid
}

/// Occupied cells persist: a cell transitions empty to occupied only, never
/// back, so whatever a drop placed stays in place through every later step.
pub proof fn lemma_occupied_cells_persist(s: GameStateModel, game: Game, m: Move)
    requires
        grid_wf(s.grid),
        column_of(m.move_type) < COLUMNS,
    ensures
        forall|c: int, r: int|
            0 <= c < COLUMNS && 0 <= r < ROWS && cell(s.grid, c, r) != 0 ==> #[trigger] cell(
                after_grid(s, game, m),
                c,
                r,
            ) == cell(s.grid, c, r),
{
    let column = column_of(m.move_type) as int;
    lemma_lowest_empty_row_properties(s.grid, column, 0);
    let row = lowest_empty_row(s.grid, column);
    assert forall|c: int, r: int|
        0 <= c < COLUMNS && 0 <= r < ROWS && cell(s.grid, c, r) != 0 implies #[trigger] cell(
        after_grid(s, game, m),
        c,
        r,
    ) == cell(s.grid, c, r) by {
        if row < ROWS {
            assert(cell(s.grid, column, row) == 0);
            assert(cell_index(c, r) == cell_index(column, row) ==> c == column && r == row);
        }
    }
}

/// A win on the board persists through any later replay step: the cells
/// that make it up are occupied, and occupied cells never change.
pub proof fn lemma_win_persists(s: GameStateModel, game: Game, m: Move, player: u8)
    requires
        grid_wf(s.grid),
        column_of(m.move_type) < COLUMNS,
        player == 1 || player == 2,
        has_win(s.grid, player),
    ensures
        has_win(after_grid(s, game, m), player),
{
    lemma_occupied_cells_persist(s, game, m);
    let after = after_grid(s, game, m);
    if has_vertical_win(s.grid, player) {
        let (c, r) = choose|c: int, r: int|
            0 <= c < COLUMNS && 0 <= r <= (ROWS as int) - 4 && vertical_win_at(s.grid, player, c, r);
        assert(vertical_win_at(after, player, c, r));
    } else if has_horizontal_win(s.grid, player) {
        let (c, r) = choose|c: int, r: int|
            0 <= c <= (COLUMNS as int) - 4 && 0 <= r < ROWS && horizontal_win_at(
                s.grid,
                player,
                c,
                r,
            );
        assert(horizontal_win_at(after, player, c, r));
    } else if has_ascending_win(s.grid, player) {
        let (c, r) = choose|c: int, r: int|
            0 <= c <= (COLUMNS as int) - 4 && 0 <= r <= (ROWS as int) - 4 && ascending_win_at(
                s.grid,
                player,
                c,
                r,
            );
        assert(ascending_win_at(after, player, c, r));
    } else {
        let (c, r) = choose|c: int, r: int|
            0 <= c <= (COLUMNS as int) - 4 && 3 <= r < ROWS && descending_win_at(
                s.grid,
                player,
                c,
                r,
            );
        assert(descending_win_at(after, player, c, r));
    }
}

/// What holds of every state the replay fold can produce: the grid is
/// well-formed, each resigned flag stands for a win by the other player
/// still visible on the board, and `in_progress` is false exactly when a
/// resignation or a draw ended the game.
pub open spec fn state_invariant(s: GameStateModel) -> bool {
    &&& grid_wf(s.grid)
    &&& (s.player_1.resigned ==> has_win(s.grid, 2))
    &&& (s.player_2.resigned ==> has_win(s.grid, 1))
    &&& (s.in_progress <==> (!s.player_1.resigned && !s.player_2.resigned && !is_draw_grid(
        s.grid,
    )))
}

/// The canonical initial state satisfies the state invariant.
pub proof fn lemma_initial_state_invariant()
    ensures
        state_invariant(initial_state_spec()),
{
    let s = initial_state_spec();
    assert(cell(s.grid, 0, (ROWS as int) - 1) == 0);
    assert(!is_draw_grid(s.grid));
}

/// A replay step on an in-bounds move preserves the state invariant.
pub proof fn lemma_apply_preserves_invariant(s: GameStateModel, game: Game, m: Move)
    requires
        state_invariant(s),
        column_of(m.move_type) < COLUMNS,
    ensures
        state_invariant(apply_move_spec(s, game, m)),
{
    let after = apply_move_spec(s, game, m);
    let marker = acting_marker(game, m);
    let column = column_of(m.move_type) as int;
    let row = lowest_empty_row(s.grid, column);
    lemma_lowest_empty_row_properties(s.grid, column, 0);
    assert(grid_wf(after.grid)) by {
        if row < ROWS {
            assert(after.grid == s.grid.update(cell_index(column, row), marker));
            assert forall|i: int| 0 <= i < CELLS implies after.grid[i] == 0 || after.grid[i] == 1
                || after.grid[i] == 2 by {
                if i != cell_index(column, row) {
                    assert(after.grid[i] == s.grid[i]);
                }
            }
        }
    }
    if s.player_1.resigned {
        lemma_win_persists(s, game, m, 2);
    }
    if s.player_2.resigned {
        lemma_win_persists(s, game, m, 1);
    }
}

/// Every state the replay fold derives from an in-bounds move sequence
/// satisfies the state invariant: in particular a cell transitions empty to
/// occupied only, and `in_progress` turns false only on resignation or
/// draw.
pub proof fn lemma_reduce_invariant(moves: Seq<Move>, game: Game)
    requires
        moves_in_bounds(moves),
    ensures
        state_invariant(reduce_spec(moves, game)),
    decreases moves.len(),
{
    if moves.len() == 0 {
        lemma_initial_state_invariant();
    } else {
        assert(moves_in_bounds(moves.drop_last())) by {
            assert forall|i: int| 0 <= i < moves.drop_last().len() implies column_of(
                moves.drop_last()[i].move_type,
            ) < COLUMNS by {
                assert(moves.drop_last()[i] == moves[i]);
            }
        }
        lemma_reduce_invariant(moves.drop_last(), game);
        lemma_apply_preserves_invariant(reduce_spec(moves.drop_last(), game), game, moves.last());
    }
}

/// Once over, always over: a replay step never turns `in_progress` back on.
/// Together with `lemma_reduce_invariant` this is the one-way transition of
/// `in_progress` for every state the fold can reach.
pub proof fn lemma_game_over_is_final(s: GameStateModel, game: Game, m: Move)
    requires
        state_invariant(s),
        !s.in_progress,
        column_of(m.move_type) < COLUMNS,
    ensures
        !apply_move_spec(s, game, m).in_progress,
{
    let after = apply_move_spec(s, game, m);
    assert(after.grid == after_grid(s, game, m));
    if s.player_1.resigned {
        lemma_win_persists(s, game, m, 2);
        assert(has_win(after.grid, 2));
    } else if s.player_2.resigned {
        lemma_win_persists(s, game, m, 1);
        assert(has_win(after.grid, 1));
    } else {
        assert(is_draw_grid(s.grid));
        lemma_occupied_cells_persist(s, game, m);
        assert forall|c: int| 0 <= c < COLUMNS implies #[trigger] cell(
            after_grid(s, game, m),
            c,
            (ROWS as int) - 1,
        ) != 0 by {
            assert(cell(s.grid, c, (ROWS as int) - 1) != 0);
        }
        assert(is_draw_grid(after.grid));
    }
}

/// Win completeness, vertical: four of `player`'s markers stacked at any
/// admissible anchor are detected as a win.
pub proof fn lemma_win_detected_vertical(grid: Seq<u8>, player: u8, column: int, row: int)
    requires
        0 <= column < COLUMNS,
        0 <= row <= (ROWS as int) - 4,
        vertical_win_at(grid, player, column, row),
    ensures
        has_vertical_win(grid, player),
        has_win(grid, player),
{
}

/// Win completeness, horizontal: four of `player`'s markers in a row at any
/// admissible anchor are detected as a win.
pub proof fn lemma_win_detected_horizontal(grid: Seq<u8>, player: u8, column: int, row: int)
    requires
        0 <= column <= (COLUMNS as int) - 4,
        0 <= row < ROWS,
        horizontal_win_at(grid, player, column, row),
    ensures
        has_horizontal_win(grid, player),
        has_win(grid, player),
{
}

/// Win completeness, ascending diagonal: four of `player`'s markers on an
/// ascending diagonal at any admissible anchor are detected as a win.
pub proof fn lemma_win_detected_ascending(grid: Seq<u8>, player: u8, column: int, row: int)
    requires
        0 <= column <= (COLUMNS as int) - 4,
        0 <= row <= (ROWS as int) - 4,
        ascending_win_at(grid, player, column, row),
    ensures
        has_ascending_win(grid, player),
        has_win(grid, player),
{
}

/// Win completeness, descending diagonal: four of `player`'s markers on a
/// descending diagonal at any admissible anchor are detected as a win.
pub proof fn lemma_win_detected_descending(grid: Seq<u8>, player: u8, column: int, row: int)
    requires
        0 <= column <= (COLUMNS as int) - 4,
        3 <= row < ROWS,
        descending_win_at(grid, player, column, row),
    ensures
        has_descending_win(grid, player),
        has_win(grid, player),
{
}

/// A replay step ends the game by draw exactly when it leaves the top row
/// fully occupied with neither resigned flag set; the resigned flags are in
/// turn how a win is recorded, so "no win ends it" and "no earlier
/// resignation stands" are both captured by the flags.
pub proof fn lemma_draw_ends_game(s: GameStateModel, game: Game, m: Move)
    ensures
        ({
            let after = apply_move_spec(s, game, m);
            (!after.in_progress && !after.player_1.resigned && !after.player_2.resigned) <==> (
            is_draw_grid(after.grid) && !after.player_1.resigned && !after.player_2.resigned)
        }),
{
}

/// An element-wise copy of a vector of plain values.
fn copy_vec<T: Copy>(v: &Vec<T>) -> (result: Vec<T>)
    ensures
        result@ == v@,
{
    let mut result: Vec<T> = Vec::new();
    let mut i: usize = 0;
    while i < v.len()
        invariant
            i <= v@.len(),
            result@ == v@.take(i as int),
        decreases v@.len() - i,
    {
        result.push(v[i]);
        proof {
            assert(result@ =~= v@.take(i + 1));
        }
        i = i + 1;
    }
    proof {
        assert(v@.take(v@.len() as int) =~= v@);
    }
    result
}

/// When every row below `row` is occupied, and `row` itself is empty unless
/// it is off the top of the board, then `row` is where a dropped marker
/// lands.
proof fn lemma_lowest_empty_row_found(grid: Seq<u8>, column: int, row: int)
    requires
        grid_wf(grid),
        0 <= column < COLUMNS,
        0 <= row <= ROWS,
        forall|r: int| 0 <= r < row ==> cell(grid, column, r) != 0,
        row < ROWS ==> cell(grid, column, row) == 0,
    ensures
        lowest_empty_row(grid, column) == (if row < ROWS {
            row
        } else {
            ROWS as int
        }),
{
    lemma_lowest_empty_row_from_found(grid, column, 0, row);
}

proof fn lemma_lowest_empty_row_from_found(grid: Seq<u8>, column: int, from: int, row: int)
    requires
        grid_wf(grid),
        0 <= column < COLUMNS,
        0 <= from <= row <= ROWS,
        forall|r: int| from <= r < row ==> cell(grid, column, r) != 0,
        row < ROWS ==> cell(grid, column, row) == 0,
    ensures
        lowest_empty_row_from(grid, column, from) == (if row < ROWS {
            row
        } else {
            ROWS as int
        }),
    decreases row - from,
{
    if from < row {
        lemma_lowest_empty_row_from_found(grid, column, from + 1, row);
    }
}

} // verus!
