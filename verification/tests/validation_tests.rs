use connect_four::errors::GameError;
use connect_four::game::Game;
use connect_four::game_move::Move;
use connect_four::moves::MoveType;
use connect_four::state::GameState;
use connect_four::state::COLUMNS;
use connect_four::state::ROWS;

const CREATOR: usize = 10;
const OPPONENT: usize = 20;

fn game() -> Game {
    Game { player_1: CREATOR, player_2: OPPONENT, created_at: 7 }
}

fn drop_by(author: usize, column: u32) -> Move {
    Move {
        game: 0,
        author,
        move_type: MoveType::DropPiece { column },
        previous_move: 0,
        timestamp: 0,
    }
}

fn play(state: GameState, moves: &[Move]) -> GameState {
    let mut state = state;
    for next_move in moves {
        assert_eq!(next_move.is_valid(game(), state.clone()), Ok(()));
        state = state.evolve(game(), next_move);
    }
    state
}

#[test]
fn game_creation_requires_distinct_players() {
    assert_eq!(game().is_valid(), Ok(()));
    let bad = Game { player_1: CREATOR, player_2: CREATOR, created_at: 7 };
    assert_eq!(bad.is_valid(), Err(GameError::InvalidGame));
}

#[test]
fn opening_move_must_come_from_second_player() {
    let state = GameState::initial();
    assert_eq!(drop_by(OPPONENT, 3).is_valid(game(), state.clone()), Ok(()));
    assert_eq!(
        drop_by(CREATOR, 3).is_valid(game(), state),
        Err(GameError::TurnOrder { opening: true })
    );
}

#[test]
fn scenario_same_author_twice_rejected_with_turn_order() {
    let state = play(GameState::initial(), &[drop_by(OPPONENT, 3)]);
    assert_eq!(
        drop_by(OPPONENT, 3).is_valid(game(), state.clone()),
        Err(GameError::TurnOrder { opening: false })
    );
    assert_eq!(drop_by(CREATOR, 3).is_valid(game(), state), Ok(()));
}

#[test]
fn scenario_four_across_the_bottom_row_wins() {
    let columns = [0u32, 0, 1, 1, 2, 2, 3];
    let moves: Vec<Move> = columns
        .iter()
        .enumerate()
        .map(|(i, &column)| drop_by(if i % 2 == 0 { OPPONENT } else { CREATOR }, column))
        .collect();
    let state = play(GameState::initial(), &moves);
    for column in 0..4usize {
        assert_eq!(state.grid[column], 2);
    }
    assert!(state.check_win(&state.grid, 2));
    assert!(!state.check_win(&state.grid, 1));
    assert!(state.player_1.resigned);
    assert!(!state.player_2.resigned);
    assert!(!state.in_progress);
}

#[test]
fn moves_after_the_game_ended_are_rejected() {
    let columns = [0u32, 0, 1, 1, 2, 2, 3];
    let moves: Vec<Move> = columns
        .iter()
        .enumerate()
        .map(|(i, &column)| drop_by(if i % 2 == 0 { OPPONENT } else { CREATOR }, column))
        .collect();
    let state = play(GameState::initial(), &moves);
    assert_eq!(drop_by(CREATOR, 5).is_valid(game(), state), Err(GameError::GameOver));
}

#[test]
fn scenario_forty_two_drops_without_a_run_end_in_a_draw() {
    let mut columns: Vec<u32> = Vec::new();
    columns.extend_from_slice(&[0, 2, 2, 0, 0, 2, 2, 0, 0, 2, 2, 0]);
    columns.extend_from_slice(&[1, 3, 3, 1, 1, 3, 3, 1, 1, 3, 3, 1]);
    for column in [4u32, 5, 6] {
        for _ in 0..ROWS {
            columns.push(column);
        }
    }
    assert_eq!(columns.len(), 42);
    let moves: Vec<Move> = columns
        .iter()
        .enumerate()
        .map(|(i, &column)| drop_by(if i % 2 == 0 { OPPONENT } else { CREATOR }, column))
        .collect();
    let state = play(GameState::initial(), &moves);
    assert!(state.check_draw(&state.grid));
    assert!(!state.check_win(&state.grid, 1));
    assert!(!state.check_win(&state.grid, 2));
    assert!(!state.player_1.resigned);
    assert!(!state.player_2.resigned);
    assert!(!state.in_progress);
    assert_eq!(state.moves_history.len(), 42);
}

#[test]
fn scenario_seventh_drop_into_a_full_column_rejected() {
    let columns = [6u32, 6, 6, 6, 6, 6];
    let moves: Vec<Move> = columns
        .iter()
        .enumerate()
        .map(|(i, &column)| drop_by(if i % 2 == 0 { OPPONENT } else { CREATOR }, column))
        .collect();
    let state = play(GameState::initial(), &moves);
    assert!(state.in_progress);
    assert_eq!(drop_by(OPPONENT, 6).is_valid(game(), state), Err(GameError::ColumnFull));
}

#[test]
fn out_of_bounds_column_rejected_regardless_of_state() {
    let state = GameState::initial();
    assert_eq!(drop_by(OPPONENT, 7).is_valid(game(), state.clone()), Err(GameError::OutOfBounds));
    assert_eq!(
        drop_by(OPPONENT, u32::MAX).is_valid(game(), state.clone()),
        Err(GameError::OutOfBounds)
    );
    let state = play(state, &[drop_by(OPPONENT, 3)]);
    assert_eq!(drop_by(CREATOR, 7).is_valid(game(), state), Err(GameError::OutOfBounds));
}

#[test]
fn bounds_fragment_answers_for_each_column() {
    let state = GameState::initial();
    for column in 0..COLUMNS as u32 {
        assert_eq!(state.is_column_in_bounds(column), Ok(()));
    }
    assert_eq!(state.is_column_in_bounds(COLUMNS as u32), Err(GameError::OutOfBounds));
}

#[test]
fn fullness_fragment_reads_the_top_cell() {
    let state = play(
        GameState::initial(),
        &[
            drop_by(OPPONENT, 1),
            drop_by(CREATOR, 1),
            drop_by(OPPONENT, 1),
            drop_by(CREATOR, 1),
            drop_by(OPPONENT, 1),
            drop_by(CREATOR, 1),
        ],
    );
    assert_eq!(state.is_column_not_full(&state, 1), Err(GameError::ColumnFull));
    assert_eq!(state.is_column_not_full(&state, 0), Ok(()));
}

#[test]
fn gravity_stacks_and_never_vacates_cells() {
    let mut state = GameState::initial();
    let authors = [OPPONENT, CREATOR, OPPONENT, CREATOR, OPPONENT, CREATOR];
    for (i, &author) in authors.iter().enumerate() {
        let next_move = drop_by(author, 2);
        assert_eq!(next_move.is_valid(game(), state.clone()), Ok(()));
        let next = state.evolve(game(), &next_move);
        assert_eq!(next.grid[i * COLUMNS + 2], if i % 2 == 0 { 2 } else { 1 });
        for index in 0..state.grid.len() {
            if state.grid[index] != 0 {
                assert_eq!(next.grid[index], state.grid[index]);
            }
        }
        state = next;
    }
}

#[test]
fn rejection_reasons_carry_descriptive_text() {
    assert_eq!(GameError::GameOver.message(), "Game has ended");
    assert_eq!(
        GameError::TurnOrder { opening: false }.message(),
        "Not your turn, must wait for other player to make a move"
    );
    assert_eq!(
        GameError::TurnOrder { opening: true }.message(),
        "Player 2 must make the first move"
    );
    assert_eq!(GameError::OutOfBounds.message(), "Column out of bounds");
    assert_eq!(GameError::ColumnFull.message(), "Column is full");
    assert_eq!(
        GameError::InvalidGame.message(),
        "Player 1 and Player 2 must be different agents."
    );
    assert_eq!(GameError::NotFound.message(), "Entry not found");
    assert_eq!(GameError::ChainIntegrity.message(), "Move chain is malformed");
}
