//! An explicit model of the backing store: content-addressed immutable
//! entries plus a link index of directed edges, kept as an append-only log.
//!
//! Entries are immutable once written and addresses are assigned in append
//! order, so every link points from an older entry to a newer one. The store
//! keeps at most one outgoing link per entry: the move chain is linear, and
//! an attempt to add a second outgoing link (a fork) is rejected with
//! `ChainIntegrity` rather than resolved.

use vstd::prelude::*;

use crate::errors::GameError;
use crate::game::Game;
use crate::game_move::Move;
use crate::Address;

verus! {

/// An immutable entry in the backing store.
#[derive(Clone, Copy, Debug, PartialEq, Eq, Structural)]
pub enum Entry {
    Game(Game),
    MoveEntry(Move),
}

/// An entry as it appears in a locally held history: the entry together with
/// its content address.
#[derive(Clone, Copy, Debug, PartialEq, Eq, Structural)]
pub struct ChainEntry {
    pub address: Address,
    pub entry: Entry,
}

/// The append-only log standing for the entry store and the link index.
/// `links[a]` is the single outgoing edge of the entry at address `a`, if
/// any.
#[derive(Clone, Debug, PartialEq, Eq)]
pub struct EntryStore {
    pub entries: Vec<Entry>,
    pub links: Vec<Option<Address>>,
}

impl EntryStore {
    /// One link slot per entry, and every link points forward in append
    /// order: from an older entry to a strictly newer one. Forward links
    /// make every chain acyclic by construction.
    pub open spec fn wf(&self) -> bool {
        &&& self.links@.len() == self.entries@.len()
        &&& forall|i: int|
            0 <= i < self.links@.len() ==> (match #[trigger] self.links@[i] {
                Some(j) => i < j < self.entries@.len(),
                None => true,
            })
    }

    /// An empty store.
    pub fn new() -> (result: EntryStore)
        ensures
            result.wf(),
            result.entries@ == Seq::<Entry>::empty(),
            result.links@ == Seq::<Option<Address>>::empty(),
    {
        EntryStore { entries: Vec::new(), links: Vec::new() }
    }

    /// Appends an immutable entry and returns its address. The new entry has
    /// no outgoing link yet.
    pub fn put(&mut self, entry: Entry) -> (address: Address)
        requires
            old(self).wf(),
        ensures
            final(self).wf(),
            address == old(self).entries@.len(),
            final(self).entries@ == old(self).entries@.push(entry),
            final(self).links@ == old(self).links@.push(None::<Address>),
    {
        let address = self.entries.len();
        self.entries.push(entry);
        self.links.push(None);
        address
    }

    /// Adds the directed edge `from -> to` to the link index. Fails with
    /// `NotFound` when either address does not resolve, and with
    /// `ChainIntegrity` when the edge would fork the chain (a second
    /// outgoing link) or point backwards in append order. On failure the
    /// store is unchanged.
    pub fn link(&mut self, from: Address, to: Address) -> (result: Result<(), GameError>)
        requires
            old(self).wf(),
        ensures
            final(self).wf(),
            final(self).entries@ == old(self).entries@,
            (from >= old(self).entries@.len() || to >= old(self).entries@.len()) ==> result
                == Err::<(), GameError>(GameError::NotFound) && final(self).links@ == old(
                self,
            ).links@,
            (from < old(self).entries@.len() && to < old(self).entries@.len() && (to <= from || old(
                self,
            ).links@[from as int] is Some)) ==> result == Err::<(), GameError>(
                GameError::ChainIntegrity,
            ) && final(self).links@ == old(self).links@,
            (from < old(self).entries@.len() && to < old(self).entries@.len() && from < to && old(
                self,
            ).links@[from as int] is None) ==> result == Ok::<(), GameError>(()) && final(self).links@
                == old(self).links@.update(from as int, Some(to)),
    {
        if from >= self.entries.len() || to >= self.entries.len() {
            return Err(GameError::NotFound);
        }
        if to <= from {
            return Err(GameError::ChainIntegrity);
        }
        let existing = self.links[from];
        match existing {
            Some(_) => Err(GameError::ChainIntegrity),
            None => {
                self.links.set(from, Some(to));
                Ok(())
            },
        }
    }

    /// Resolves an address to its entry, failing with `NotFound` for an
    /// address the store has never assigned.
    pub fn get(&self, address: Address) -> (result: Result<Entry, GameError>)
        ensures
            result == (if address < self.entries@.len() {
                Ok::<Entry, GameError>(self.entries@[address as int])
            } else {
                Err::<Entry, GameError>(GameError::NotFound)
            }),
    {
        if address < self.entries.len() {
            Ok(self.entries[address])
        } else {
            Err(GameError::NotFound)
        }
    }

    /// The single outgoing edge of the entry at `address`, if any: the link
    /// index queried by source address.
    pub fn link_from(&self, address: Address) -> (result: Option<Address>)
        ensures
            result == (if address < self.links@.len() {
                self.links@[address as int]
            } else {
                None::<Address>
            }),
    {
        if address < self.links.len() {
            self.links[address]
        } else {
            None
        }
    }
}

} // verus!
