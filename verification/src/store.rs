//! The aggregate store: point reads and point writes of members' current
//! aggregates, keyed by member id.

use crate::data::Aggregate;
use std::collections::HashMap;
use vstd::prelude::*;

verus! {

broadcast use vstd::std_specs::hash::group_hash_axioms;

/// Current-state storage for member aggregates. Its view is the map from
/// member id to that member's aggregate.
pub struct AggregateStore {
    accounts: HashMap<u64, Aggregate>,
}

impl View for AggregateStore {
    type V = Map<u64, Aggregate>;

    closed spec fn view(&self) -> Map<u64, Aggregate> {
        self.accounts@
    }
}

impl AggregateStore {
    /// An empty store.
    pub fn new() -> (store: AggregateStore)
        ensures
            store@ == Map::<u64, Aggregate>::empty(),
    {
        AggregateStore { accounts: HashMap::new() }
    }

    /// Registers a member at account creation, or overwrites its aggregate
    /// if the id is already taken. Mutations never come through here: they
    /// go through the transaction coordinator.
    pub fn register(&mut self, member_id: u64, aggregate: Aggregate)
        ensures
            final(self)@ == old(self)@.insert(member_id, aggregate),
    {
        self.accounts.insert(member_id, aggregate);
    }

    /// Point lookup of a member's current aggregate; no side effects.
    /// An unknown id is a normal absent result.
    pub fn read(&self, member_id: u64) -> (r: Option<Aggregate>)
        ensures
            r == if self@.contains_key(member_id) {
                Some(self@[member_id])
            } else {
                None::<Aggregate>
            },
    {
        match self.accounts.get(&member_id) {
            Some(aggregate) => Some(*aggregate),
            None => None,
        }
    }

    /// Unconditional overwrite of both fields of an existing member's
    /// aggregate in one operation, even when only one of them changed.
    /// An unknown id is reported as `None` and writes nothing.
    pub fn write(&mut self, member_id: u64, aggregate: Aggregate) -> (r: Option<Aggregate>)
        ensures
            old(self)@.contains_key(member_id) ==> r == Some(aggregate) && final(self)@ == old(
                self,
            )@.insert(member_id, aggregate),
            !old(self)@.contains_key(member_id) ==> r == None::<Aggregate> && final(self)@ == old(
                self,
            )@,
    {
        if self.accounts.contains_key(&member_id) {
            self.accounts.insert(member_id, aggregate);
            Some(aggregate)
        } else {
            None
        }
    }
}

} // verus!
