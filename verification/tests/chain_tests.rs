use connect_four::errors::GameError;
use connect_four::game::get_game;
use connect_four::game::get_game_local_chain;
use connect_four::game::get_moves;
use connect_four::game::get_moves_local_chain;
use connect_four::game::get_state;
use connect_four::game::get_state_local_chain;
use connect_four::game::propose_move;
use connect_four::game::reduce;
use connect_four::game::Game;
use connect_four::game_move::Move;
use connect_four::moves::MoveType;
use connect_four::store::ChainEntry;
use connect_four::store::Entry;
use connect_four::store::EntryStore;

const CREATOR: usize = 10;
const OPPONENT: usize = 20;

fn game() -> Game {
    Game { player_1: CREATOR, player_2: OPPONENT, created_at: 7 }
}

fn move_record(author: usize, column: u32, game_address: usize, previous: usize) -> Move {
    Move {
        game: game_address,
        author,
        move_type: MoveType::DropPiece { column },
        previous_move: previous,
        timestamp: 0,
    }
}

/// A store holding one game with two linked moves; returns the store, the
/// game address and the two moves.
fn two_move_store() -> (EntryStore, usize, Move, Move) {
    let mut store = EntryStore::new();
    let game_address = store.put(Entry::Game(game()));
    let first = move_record(OPPONENT, 3, game_address, game_address);
    let first_address = store.put(Entry::MoveEntry(first));
    assert_eq!(store.link(game_address, first_address), Ok(()));
    let second = move_record(CREATOR, 3, game_address, first_address);
    let second_address = store.put(Entry::MoveEntry(second));
    assert_eq!(store.link(first_address, second_address), Ok(()));
    (store, game_address, first, second)
}

#[test]
fn store_resolves_what_it_assigned() {
    let mut store = EntryStore::new();
    assert_eq!(store.get(0), Err(GameError::NotFound));
    let game_address = store.put(Entry::Game(game()));
    assert_eq!(store.get(game_address), Ok(Entry::Game(game())));
    assert_eq!(store.link_from(game_address), None);
    let first = store.put(Entry::MoveEntry(move_record(OPPONENT, 0, game_address, game_address)));
    assert_eq!(store.link(game_address, first), Ok(()));
    assert_eq!(store.link_from(game_address), Some(first));
}

#[test]
fn traversal_returns_moves_oldest_first() {
    let (store, game_address, first, second) = two_move_store();
    assert_eq!(get_moves(&store, game_address), Ok(vec![first, second]));
}

#[test]
fn traversal_of_a_game_without_moves_is_empty() {
    let mut store = EntryStore::new();
    let game_address = store.put(Entry::Game(game()));
    assert_eq!(get_moves(&store, game_address), Ok(Vec::new()));
}

#[test]
fn traversal_fails_when_a_link_leads_to_a_non_move() {
    let mut store = EntryStore::new();
    let game_address = store.put(Entry::Game(game()));
    let stray = store.put(Entry::Game(game()));
    assert_eq!(store.link(game_address, stray), Ok(()));
    assert_eq!(get_moves(&store, game_address), Err(GameError::NotFound));
}

#[test]
fn unknown_addresses_resolve_to_not_found() {
    let store = EntryStore::new();
    assert_eq!(get_game(&store, 0), Err(GameError::NotFound));
    assert_eq!(get_state(&store, 0), Err(GameError::NotFound));
    let (store, game_address, _, _) = two_move_store();
    assert_eq!(get_game(&store, game_address + 1), Err(GameError::NotFound));
}

#[test]
fn forks_and_backward_links_are_rejected() {
    let mut store = EntryStore::new();
    let game_address = store.put(Entry::Game(game()));
    let first = store.put(Entry::MoveEntry(move_record(OPPONENT, 0, game_address, game_address)));
    let second = store.put(Entry::MoveEntry(move_record(CREATOR, 1, game_address, first)));
    assert_eq!(store.link(game_address, first), Ok(()));
    assert_eq!(store.link(game_address, second), Err(GameError::ChainIntegrity));
    assert_eq!(store.link(second, first), Err(GameError::ChainIntegrity));
    assert_eq!(store.link(game_address, second + 1), Err(GameError::NotFound));
}

#[test]
fn derived_state_matches_a_direct_replay() {
    let (store, game_address, first, second) = two_move_store();
    let derived = get_state(&store, game_address).expect("state should derive");
    let replayed = reduce(&vec![first, second], game());
    assert_eq!(derived, replayed);
    assert_eq!(derived.moves_history, vec![first, second]);
    assert_eq!(derived.grid[3], 2);
    assert_eq!(derived.grid[7 + 3], 1);
    assert!(derived.in_progress);
}

#[test]
fn querying_state_twice_returns_identical_results() {
    let (store, game_address, _, _) = two_move_store();
    let once = get_state(&store, game_address);
    let again = get_state(&store, game_address);
    assert_eq!(once, again);
}

#[test]
fn replaying_the_same_moves_twice_is_deterministic() {
    let moves = vec![
        move_record(OPPONENT, 3, 0, 0),
        move_record(CREATOR, 2, 0, 1),
        move_record(OPPONENT, 3, 0, 2),
    ];
    let once = reduce(&moves, game());
    let again = reduce(&moves, game());
    assert_eq!(once, again);
}

#[test]
fn local_chain_filters_this_games_moves_in_order() {
    let game_address = 0;
    let other_game = 90;
    let first = move_record(OPPONENT, 3, game_address, game_address);
    let second = move_record(CREATOR, 3, game_address, 1);
    let foreign = move_record(OPPONENT, 5, other_game, other_game);
    let local_chain = vec![
        ChainEntry { address: 3, entry: Entry::MoveEntry(second) },
        ChainEntry { address: 2, entry: Entry::MoveEntry(foreign) },
        ChainEntry { address: 1, entry: Entry::MoveEntry(first) },
        ChainEntry { address: game_address, entry: Entry::Game(game()) },
    ];
    assert_eq!(get_moves_local_chain(&local_chain, game_address), Ok(vec![first, second]));
    assert_eq!(get_game_local_chain(&local_chain, game_address), Ok(game()));
    assert_eq!(get_game_local_chain(&local_chain, 50), Err(GameError::NotFound));
    let derived = get_state_local_chain(&local_chain, game_address).expect("state should derive");
    assert_eq!(derived, reduce(&vec![first, second], game()));
}

#[test]
fn accepted_proposals_are_appended_and_linked() {
    let mut store = EntryStore::new();
    let game_address = store.put(Entry::Game(game()));
    let first = move_record(OPPONENT, 3, game_address, game_address);
    let first_address = propose_move(&mut store, first).expect("a legal opening is accepted");
    let second = move_record(CREATOR, 4, game_address, first_address);
    propose_move(&mut store, second).expect("a legal reply is accepted");
    assert_eq!(get_moves(&store, game_address), Ok(vec![first, second]));
    let state = get_state(&store, game_address).expect("state should derive");
    assert_eq!(state.moves_history, vec![first, second]);
    assert_eq!(state.grid[3], 2);
    assert_eq!(state.grid[4], 1);
}

#[test]
fn rejected_proposals_leave_the_store_untouched() {
    let mut store = EntryStore::new();
    let game_address = store.put(Entry::Game(game()));
    let first = move_record(OPPONENT, 3, game_address, game_address);
    propose_move(&mut store, first).expect("a legal opening is accepted");
    let snapshot = store.clone();
    let same_author = move_record(OPPONENT, 3, game_address, 1);
    assert_eq!(
        propose_move(&mut store, same_author),
        Err(GameError::TurnOrder { opening: false })
    );
    let wide = move_record(CREATOR, 9, game_address, 1);
    assert_eq!(propose_move(&mut store, wide), Err(GameError::OutOfBounds));
    assert_eq!(store, snapshot);
    let mut empty = EntryStore::new();
    let orphan = move_record(OPPONENT, 0, 5, 0);
    assert_eq!(propose_move(&mut empty, orphan), Err(GameError::NotFound));
}

#[test]
fn local_chain_without_the_game_entry_is_not_found() {
    let first = move_record(OPPONENT, 3, 0, 0);
    let local_chain = vec![ChainEntry { address: 1, entry: Entry::MoveEntry(first) }];
    assert_eq!(get_state_local_chain(&local_chain, 0), Err(GameError::NotFound));
}
