//! Game records, and the derivation of current state from the chain of move
//! records: traversal of the link index, and the fold that replays the moves.

use vstd::prelude::*;

use vstd::pervasive::arbitrary;

use crate::errors::GameError;
use crate::game_move::Move;
use crate::state::moves_in_bounds;
use crate::state::reduce_spec;
use crate::state::GameState;
use crate::state::GameStateModel;
use crate::store::ChainEntry;
use crate::store::Entry;
use crate::store::EntryStore;
use crate::Address;

verus! {

/// A game record. Created once and immutable; creation requires two distinct
/// players.
#[derive(Clone, Copy, Debug, PartialEq, Eq, Structural)]
pub struct Game {
    pub player_1: Address,
    pub player_2: Address,
    pub created_at: u32,
}

impl Game {
    /// The creation rule for a game entry: the two players must be different
    /// agents. Modification and deletion are rejected by the boundary
    /// outright and never reach this rule.
    pub fn is_valid(&self) -> (result: Result<(), GameError>)
        ensures
            result == (if self.player_1 == self.player_2 {
                Err::<(), GameError>(GameError::InvalidGame)
            } else {
                Ok::<(), GameError>(())
            }),
    {
        if self.player_1 == self.player_2 {
            Err(GameError::InvalidGame)
        } else {
            Ok(())
        }
    }
}

/// The addresses reached from `from` by repeatedly following the single
/// outgoing link, oldest first, `from` itself excluded. In a well-formed
/// store every link points forward, so the walk stops; a link that points
/// backwards or outside the store ends the walk early and never arises
/// under [`EntryStore::wf`].
pub open spec fn chain_addresses(links: Seq<Option<Address>>, from: int) -> Seq<int>
    decreases links.len() - from,
{
    if 0 <= from < links.len() {
        match links[from] {
            Some(next) => {
                if from < next < links.len() {
                    seq![next as int] + chain_addresses(links, next as int)
                } else {
                    Seq::empty()
                }
            },
            None => Seq::empty(),
        }
    } else {
        Seq::empty()
    }
}

/// Every address of the walk resolves to a move entry.
pub open spec fn chain_resolves(entries: Seq<Entry>, addresses: Seq<int>) -> bool {
    forall|i: int| 0 <= i < addresses.len() ==> entries[#[trigger] addresses[i]] is MoveEntry
}

/// The move held by a move entry.
pub open spec fn entry_move(entry: Entry) -> Move {
    match entry {
        Entry::MoveEntry(m) => m,
        Entry::Game(_) => arbitrary(),
    }
}

/// The moves the walked addresses resolve to, in walk order.
pub open spec fn chain_moves(entries: Seq<Entry>, addresses: Seq<int>) -> Seq<Move> {
    addresses.map(|i: int, a: int| entry_move(entries[a]))
}

/// The game entry at `address`, or `NotFound` when the address does not
/// resolve to one.
pub open spec fn game_at(entries: Seq<Entry>, address: int) -> Result<Game, GameError> {
    if 0 <= address < entries.len() {
        match entries[address] {
            Entry::Game(g) => Ok(g),
            Entry::MoveEntry(_) => Err(GameError::NotFound),
        }
    } else {
        Err(GameError::NotFound)
    }
}

/// What querying a game's current state over the store yields: `NotFound`
/// when the chain does not resolve or the address holds no game entry, and
/// otherwise the replay of the chain's moves.
pub open spec fn state_query_spec(
    entries: Seq<Entry>,
    links: Seq<Option<Address>>,
    address: int,
) -> Result<GameStateModel, GameError> {
    let addresses = chain_addresses(links, address);
    if !chain_resolves(entries, addresses) {
        Err(GameError::NotFound)
    } else {
        match game_at(entries, address) {
            Ok(game) => Ok(reduce_spec(chain_moves(entries, addresses), game)),
            Err(reason) => Err(reason),
        }
    }
}

/// Idempotent read: querying a game's state is a pure function of the
/// store's contents, so two queries with no new entries in between return
/// identical results.
pub proof fn lemma_query_idempotent(
    entries: Seq<Entry>,
    links: Seq<Option<Address>>,
    address: int,
    q1: Result<GameStateModel, GameError>,
    q2: Result<GameStateModel, GameError>,
)
    requires
        q1 == state_query_spec(entries, links, address),
        q2 == state_query_spec(entries, links, address),
    ensures
        q1 == q2,
{
}

/// Traverses the linked list rooted at a game to find all its moves, oldest
/// first. Fails with `NotFound` when a visited address does not resolve to a
/// move entry.
pub fn get_moves(store: &EntryStore, game_address: Address) -> (result: Result<Vec<Move>, GameError>)
    requires
        store.wf(),
    ensures
        ({
            let addresses = chain_addresses(store.links@, game_address as int);
            if chain_resolves(store.entries@, addresses) {
                result matches Ok(moves) && moves@ == chain_moves(store.entries@, addresses)
            } else {
                result == Err::<Vec<Move>, GameError>(GameError::NotFound)
            }
        }),
{
    let ghost addresses = chain_addresses(store.links@, game_address as int);
    let mut moves: Vec<Move> = Vec::new();
    if game_address >= store.entries.len() {
        proof {
            assert(addresses =~= Seq::<int>::empty());
            assert(moves@ =~= chain_moves(store.entries@, addresses));
        }
        return Ok(moves);
    }
    let ghost mut walked: Seq<int> = Seq::empty();
    let mut cur: Address = game_address;
    proof {
        assert(addresses =~= walked + chain_addresses(store.links@, cur as int));
        assert(moves@ =~= chain_moves(store.entries@, walked));
    }
    loop
        invariant
            store.wf(),
            cur < store.entries@.len(),
            addresses == chain_addresses(store.links@, game_address as int),
            addresses == walked + chain_addresses(store.links@, cur as int),
            chain_resolves(store.entries@, walked),
            moves@ == chain_moves(store.entries@, walked),
        decreases store.entries@.len() - cur,
    {
        match store.link_from(cur) {
            None => {
                proof {
                    assert(chain_addresses(store.links@, cur as int) =~= Seq::<int>::empty());
                    assert(addresses =~= walked);
                }
                return Ok(moves);
            },
            Some(next) => {
                proof {
                    assert(chain_addresses(store.links@, cur as int) =~= seq![next as int]
                        + chain_addresses(store.links@, next as int));
                }
                let entry = store.entries[next];
                match entry {
                    Entry::MoveEntry(m) => {
                        moves.push(m);
                        proof {
                            walked = walked + seq![next as int];
                            assert(addresses =~= walked + chain_addresses(
                                store.links@,
                                next as int,
                            ));
                            assert(moves@ =~= chain_moves(store.entries@, walked));
                        }
                        cur = next;
                    },
                    Entry::Game(_) => {
                        proof {
                            assert(addresses[walked.len() as int] == next as int);
                            assert(!chain_resolves(store.entries@, addresses));
                        }
                        return Err(GameError::NotFound);
                    },
                }
            },
        }
    }
}

/// Resolves a game address to its game entry.
pub fn get_game(store: &EntryStore, game_address: Address) -> (result: Result<Game, GameError>)
    ensures
        result == game_at(store.entries@, game_address as int),
{
    match store.get(game_address) {
        Ok(entry) => match entry {
            Entry::Game(g) => Ok(g),
            Entry::MoveEntry(_) => Err(GameError::NotFound),
        },
        Err(reason) => Err(reason),
    }
}

/// The replay fold: applies the ordered moves, oldest first, to the
/// canonical initial state. Identical input yields identical output on
/// every replica; there is no other source of state.
pub fn reduce(moves: &Vec<Move>, game: Game) -> (result: GameState)
    requires
        moves_in_bounds(moves@),
    ensures
        result.wf(),
        result@ == reduce_spec(moves@, game),
{
    let mut state = GameState::initial();
    let mut i: usize = 0;
    proof {
        assert(moves@.take(0) =~= Seq::<Move>::empty());
    }
    while i < moves.len()
        invariant
            moves_in_bounds(moves@),
            i <= moves@.len(),
            state.wf(),
            state@ == reduce_spec(moves@.take(i as int), game),
        decreases moves@.len() - i,
    {
        proof {
            crate::state::lemma_reduce_spec_step(moves@, game, i as int);
        }
        state = state.evolve(game, &moves[i]);
        i = i + 1;
    }
    proof {
        assert(moves@.take(moves@.len() as int) =~= moves@);
    }
    state
}

/// Derives a game's current state from the store: traverses the chain,
/// resolves the game entry, and replays the moves.
pub fn get_state(store: &EntryStore, game_address: Address) -> (result: Result<
    GameState,
    GameError,
>)
    requires
        store.wf(),
        chain_resolves(store.entries@, chain_addresses(store.links@, game_address as int))
            ==> moves_in_bounds(
            chain_moves(store.entries@, chain_addresses(store.links@, game_address as int)),
        ),
    ensures
        (match state_query_spec(store.entries@, store.links@, game_address as int) {
            Ok(model) => result matches Ok(state) && state.wf() && state@ == model,
            Err(reason) => result == Err::<GameState, GameError>(reason),
        }),
{
    let moves = match get_moves(store, game_address) {
        Ok(moves) => moves,
        Err(reason) => {
            return Err(reason);
        },
    };
    let game = match get_game(store, game_address) {
        Ok(game) => game,
        Err(reason) => {
            return Err(reason);
        },
    };
    Ok(reduce(&moves, game))
}

/// Where a new move must be linked from: the end of the chain rooted at
/// `from`, or `from` itself when the chain is empty.
pub open spec fn chain_tail(links: Seq<Option<Address>>, from: int) -> int {
    let addresses = chain_addresses(links, from);
    if addresses.len() == 0 {
        from
    } else {
        addresses.last()
    }
}

/// The full proposal flow, run identically by every peer: re-derive the
/// game's current state from the store, validate the candidate move against
/// it, and on acceptance append the move entry and link it to the end of
/// the chain. A rejection returns the reason and leaves the store
/// untouched.
pub fn propose_move(store: &mut EntryStore, proposed: Move) -> (result: Result<Address, GameError>)
    requires
        old(store).wf(),
        chain_resolves(
            old(store).entries@,
            chain_addresses(old(store).links@, proposed.game as int),
        ) ==> moves_in_bounds(
            chain_moves(
                old(store).entries@,
                chain_addresses(old(store).links@, proposed.game as int),
            ),
        ),
    ensures
        final(store).wf(),
        ({
            let entries0 = old(store).entries@;
            let links0 = old(store).links@;
            let entries1 = final(store).entries@;
            let links1 = final(store).links@;
            let q = state_query_spec(entries0, links0, proposed.game as int);
            match q {
                Err(reason) => result == Err::<Address, GameError>(reason) && entries1 == entries0
                    && links1 == links0,
                Ok(model) => {
                    let game = (match game_at(entries0, proposed.game as int) {
                        Ok(game) => game,
                        Err(_) => arbitrary(),
                    });
                    match crate::validation::valid_move_spec(proposed, game, model) {
                        Err(reason) => result == Err::<Address, GameError>(reason) && entries1
                            == entries0 && links1 == links0,
                        Ok(()) => result matches Ok(address) && address == entries0.len()
                            && entries1 == entries0.push(Entry::MoveEntry(proposed)) && links1
                            == links0.push(None::<Address>).update(
                            chain_tail(links0, proposed.game as int),
                            Some(address),
                        ),
                    }
                },
            }
        }),
{
    let game_address = proposed.game;
    let state = match get_state(store, game_address) {
        Ok(state) => state,
        Err(reason) => {
            return Err(reason);
        },
    };
    let game = match get_game(store, game_address) {
        Ok(game) => game,
        Err(reason) => {
            proof {
                assert(false);
            }
            return Err(reason);
        },
    };
    match proposed.is_valid(game, state) {
        Err(reason) => {
            return Err(reason);
        },
        Ok(()) => {},
    }
    let mut tail: Address = game_address;
    loop
        invariant
            store.wf(),
            tail < store.entries@.len(),
            chain_tail(store.links@, game_address as int) == chain_tail(store.links@, tail as int),
        ensures
            tail < store.entries@.len(),
            store.links@[tail as int] is None,
            tail as int == chain_tail(store.links@, game_address as int),
        decreases store.entries@.len() - tail,
    {
        match store.link_from(tail) {
            None => {
                proof {
                    assert(chain_addresses(store.links@, tail as int) =~= Seq::<int>::empty());
                }
                break ;
            },
            Some(next) => {
                proof {
                    assert(chain_addresses(store.links@, tail as int) =~= seq![next as int]
                        + chain_addresses(store.links@, next as int));
                    if chain_addresses(store.links@, next as int).len() == 0 {
                        assert(chain_addresses(store.links@, tail as int).last() == next as int);
                    } else {
                        assert(chain_addresses(store.links@, tail as int).last()
                            == chain_addresses(store.links@, next as int).last());
                    }
                }
                tail = next;
            },
        }
    }
    let address = store.put(Entry::MoveEntry(proposed));
    match store.link(tail, address) {
        Ok(()) => Ok(address),
        Err(_) => {
            proof {
                assert(false);
            }
            Err(GameError::ChainIntegrity)
        },
    }
}

/// The moves of one game found in a locally held, reverse-chronological
/// history, returned in chronological order: matches are collected walking
/// the history from its oldest end.
pub open spec fn local_chain_moves(chain: Seq<ChainEntry>, game_address: Address) -> Seq<Move>
    decreases chain.len(),
{
    if chain.len() == 0 {
        Seq::empty()
    } else {
        let rest = local_chain_moves(chain.drop_first(), game_address);
        match chain.first().entry {
            Entry::MoveEntry(m) => {
                if m.game == game_address {
                    rest.push(m)
                } else {
                    rest
                }
            },
            Entry::Game(_) => rest,
        }
    }
}

/// The first game entry held at `game_address` in a locally held history,
/// if any.
pub open spec fn local_chain_game(chain: Seq<ChainEntry>, game_address: Address) -> Option<Game>
    decreases chain.len(),
{
    if chain.len() == 0 {
        None
    } else {
        match chain.first().entry {
            Entry::Game(g) => {
                if chain.first().address == game_address {
                    Some(g)
                } else {
                    local_chain_game(chain.drop_first(), game_address)
                }
            },
            Entry::MoveEntry(_) => local_chain_game(chain.drop_first(), game_address),
        }
    }
}

/// What querying a game's current state over a locally held history yields.
pub open spec fn local_state_query_spec(
    chain: Seq<ChainEntry>,
    game_address: Address,
) -> Result<GameStateModel, GameError> {
    match local_chain_game(chain, game_address) {
        Some(game) => Ok(reduce_spec(local_chain_moves(chain, game_address), game)),
        None => Err(GameError::NotFound),
    }
}

/// Filters a locally held, reverse-chronological history down to the move
/// entries of the target game, in chronological order.
pub fn get_moves_local_chain(local_chain: &Vec<ChainEntry>, game_address: Address) -> (result:
    Result<Vec<Move>, GameError>)
    ensures
        result matches Ok(moves) && moves@ == local_chain_moves(local_chain@, game_address),
{
    let mut moves: Vec<Move> = Vec::new();
    let mut i: usize = local_chain.len();
    proof {
        assert(local_chain@.subrange(local_chain@.len() as int, local_chain@.len() as int)
            =~= Seq::<ChainEntry>::empty());
    }
    while i > 0
        invariant
            i <= local_chain@.len(),
            moves@ == local_chain_moves(
                local_chain@.subrange(i as int, local_chain@.len() as int),
                game_address,
            ),
        decreases i,
    {
        i = i - 1;
        proof {
            let suffix = local_chain@.subrange(i as int, local_chain@.len() as int);
            assert(suffix.drop_first() =~= local_chain@.subrange(
                i as int + 1,
                local_chain@.len() as int,
            ));
            assert(suffix.first() == local_chain@[i as int]);
        }
        let entry = local_chain[i];
        match entry.entry {
            Entry::MoveEntry(m) => {
                if m.game == game_address {
                    moves.push(m);
                }
            },
            Entry::Game(_) => {},
        }
    }
    proof {
        assert(local_chain@.subrange(0, local_chain@.len() as int) =~= local_chain@);
    }
    Ok(moves)
}

/// Locates the one game entry at `game_address` in a locally held history,
/// failing with `NotFound` when it is absent.
pub fn get_game_local_chain(local_chain: &Vec<ChainEntry>, game_address: Address) -> (result:
    Result<Game, GameError>)
    ensures
        result == (match local_chain_game(local_chain@, game_address) {
            Some(game) => Ok::<Game, GameError>(game),
            None => Err::<Game, GameError>(GameError::NotFound),
        }),
{
    let mut i: usize = 0;
    proof {
        assert(local_chain@.subrange(0, local_chain@.len() as int) =~= local_chain@);
    }
    while i < local_chain.len()
        invariant
            i <= local_chain@.len(),
            local_chain_game(local_chain@, game_address) == local_chain_game(
                local_chain@.subrange(i as int, local_chain@.len() as int),
                game_address,
            ),
        decreases local_chain@.len() - i,
    {
        proof {
            let suffix = local_chain@.subrange(i as int, local_chain@.len() as int);
            assert(suffix.drop_first() =~= local_chain@.subrange(
                i as int + 1,
                local_chain@.len() as int,
            ));
            assert(suffix.first() == local_chain@[i as int]);
        }
        let entry = local_chain[i];
        match entry.entry {
            Entry::Game(g) => {
                if entry.address == game_address {
                    return Ok(g);
                }
            },
            Entry::MoveEntry(_) => {},
        }
        i = i + 1;
    }
    proof {
        assert(local_chain@.subrange(local_chain@.len() as int, local_chain@.len() as int)
            =~= Seq::<ChainEntry>::empty());
    }
    Err(GameError::NotFound)
}

/// Derives a game's current state from a locally held history: filters the
/// moves, locates the game entry, and replays the moves.
pub fn get_state_local_chain(local_chain: &Vec<ChainEntry>, game_address: Address) -> (result:
    Result<GameState, GameError>)
    requires
        moves_in_bounds(local_chain_moves(local_chain@, game_address)),
    ensures
        (match local_state_query_spec(local_chain@, game_address) {
            Ok(model) => result matches Ok(state) && state.wf() && state@ == model,
            Err(reason) => result == Err::<GameState, GameError>(reason),
        }),
{
    let moves = match get_moves_local_chain(local_chain, game_address) {
        Ok(moves) => moves,
        Err(reason) => {
            proof {
                assert(false);
            }
            return Err(reason);
        },
    };
    let game = match get_game_local_chain(local_chain, game_address) {
        Ok(game) => game,
        Err(reason) => {
            return Err(reason);
        },
    };
    Ok(reduce(&moves, game))
}

} // verus!
