//! The plain data the accounting core works on: the member aggregate, the
//! ledger entry, and the error taxonomy of a mutation.

use vstd::prelude::*;

verus! {

/// Which field of the aggregate a ledger entry records a change to.
#[derive(Clone, Copy, Debug, PartialEq, Eq, Structural)]
pub enum EntryKind {
    Balance,
    Integral,
}

/// Whether a magnitude is added to or subtracted from the current value.
#[derive(Clone, Copy, Debug, PartialEq, Eq, Structural)]
pub enum Direction {
    Increment,
    Decrement,
}

/// The current state of one member account.
///
/// `balance` is a currency amount in minor units (so that arithmetic is
/// exact); `integral` is the loyalty-point counter. A decrement may drive
/// either field negative: the core places no floor on them, and records the
/// change in the ledger like any other. Only a value that would not fit in
/// `i64` at all is rejected, as a [`MutationError::Overflow`].
#[derive(Clone, Copy, Debug, PartialEq, Eq, Structural)]
pub struct Aggregate {
    pub balance: i64,
    pub integral: i64,
}

/// One immutable audit record: a single change of one field of one member's
/// aggregate. The magnitude is non-negative by type; the sign of the change
/// is carried by `direction`. An entry's identity is its position in the
/// ledger, assigned at append time; entries are never updated or deleted.
#[derive(Clone, Copy, Debug, PartialEq, Eq, Structural)]
pub struct LedgerEntry {
    pub member_id: u64,
    pub kind: EntryKind,
    pub direction: Direction,
    pub amount: u64,
}

/// Why a mutation was refused. A refused mutation has no effect at all:
/// no ledger entry and no aggregate change.
///
/// `Overflow` is the one constraint this core enforces: a resulting balance
/// or integral that does not fit in `i64`. (A member id that does not exist
/// is not an error: the mutation entry points report it as an absent result.)
#[derive(Clone, Copy, Debug, PartialEq, Eq, Structural)]
pub enum MutationError {
    Overflow,
}

} // verus!
