//! The ledger writer: append-only storage for the audit trail.
//!
//! The ledger exposes appends and reads, nothing else: no entry is ever
//! updated or deleted, so the sequence view only ever grows at the end.

use crate::data::LedgerEntry;
use vstd::prelude::*;

verus! {

/// The append-only audit ledger. Its view is the sequence of entries in
/// commit order; an entry's ledger id is its position in that sequence.
pub struct Ledger {
    entries: Vec<LedgerEntry>,
}

impl View for Ledger {
    type V = Seq<LedgerEntry>;

    closed spec fn view(&self) -> Seq<LedgerEntry> {
        self.entries@
    }
}

impl Ledger {
    /// An empty ledger.
    pub fn new() -> (ledger: Ledger)
        ensures
            ledger@ == Seq::<LedgerEntry>::empty(),
    {
        Ledger { entries: Vec::new() }
    }

    /// Appends one immutable entry and returns its ledger id: its position,
    /// which no later operation can change.
    pub fn append(&mut self, entry: LedgerEntry) -> (ledger_id: usize)
        ensures
            final(self)@ == old(self)@.push(entry),
            ledger_id == old(self)@.len(),
    {
        let ledger_id = self.entries.len();
        self.entries.push(entry);
        ledger_id
    }

    /// How many entries the ledger holds in all.
    pub fn len(&self) -> (n: usize)
        ensures
            n == self@.len(),
    {
        self.entries.len()
    }

    /// Reads the entry with a given ledger id.
    pub fn entry(&self, ledger_id: usize) -> (entry: LedgerEntry)
        requires
            ledger_id < self@.len(),
        ensures
            entry == self@[ledger_id as int],
    {
        self.entries[ledger_id]
    }
}

} // verus!
