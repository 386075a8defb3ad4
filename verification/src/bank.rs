//! The transaction coordinator and the mutation entry points.
//!
//! [`Bank`] holds the aggregate store and the audit ledger and is the only
//! way to mutate a member's balance or integral. One mutation reads the
//! aggregate, computes both resulting field values, appends one ledger entry
//! per present delta, and overwrites the aggregate once — all or nothing: an
//! absent member or a value that does not fit leaves every committed state
//! exactly as it was, with not a single ledger entry persisted.
//!
//! The decision part of a mutation stands alone as [`plan_delta`], a function
//! from plain values to plain values: a caller that keeps its aggregates in
//! an external transactional store can read, plan, append the planned
//! entries, write the planned aggregate, and commit — or roll the whole unit
//! of work back on any storage failure.

use crate::data::{Aggregate, Direction, EntryKind, LedgerEntry, MutationError};
use crate::ledger::Ledger;
use crate::model::{
    count_for, delta_count, deltas_fit, fits_i64, planned_entries, shifted, step,
    updated_aggregate, LedgerView,
};
use crate::store::AggregateStore;
use vstd::prelude::*;

verus! {

/// A current value moved by a non-negative magnitude, signed by direction,
/// refused when the result does not fit in `i64`.
pub fn checked_shift(value: i64, magnitude: u64, direction: Direction) -> (r: Option<i64>)
    ensures
        r == if fits_i64(shifted(value, magnitude, direction)) {
            Some(shifted(value, magnitude, direction) as i64)
        } else {
            None::<i64>
        },
{
    let wide: i128 = match direction {
        Direction::Increment => value as i128 + magnitude as i128,
        Direction::Decrement => value as i128 - magnitude as i128,
    };
    if i64::MIN as i128 <= wide && wide <= i64::MAX as i128 {
        Some(wide as i64)
    } else {
        None
    }
}

/// The decision step of one mutation, from plain values to plain values:
/// given the just-read aggregate, it either plans the whole unit of work —
/// the aggregate to write back and the audit entries to append, in order —
/// or refuses it because a resulting value would not fit in `i64`.
pub fn plan_delta(
    member_id: u64,
    current: Aggregate,
    balance_delta: Option<u64>,
    integral_delta: Option<u64>,
    direction: Direction,
) -> (r: Result<(Aggregate, Vec<LedgerEntry>), MutationError>)
    ensures
        r is Ok <==> deltas_fit(current, balance_delta, integral_delta, direction),
        r matches Ok(plan) ==> {
            &&& plan.0 == updated_aggregate(current, balance_delta, integral_delta, direction)
            &&& plan.1@ == planned_entries(member_id, balance_delta, integral_delta, direction)
        },
        r is Err ==> r == Err::<(Aggregate, Vec<LedgerEntry>), MutationError>(
            MutationError::Overflow,
        ),
{
    let new_balance = match balance_delta {
        Some(d) => match checked_shift(current.balance, d, direction) {
            Some(v) => v,
            None => { return Err(MutationError::Overflow); },
        },
        None => current.balance,
    };
    let new_integral = match integral_delta {
        Some(d) => match checked_shift(current.integral, d, direction) {
            Some(v) => v,
            None => { return Err(MutationError::Overflow); },
        },
        None => current.integral,
    };
    let mut planned: Vec<LedgerEntry> = Vec::new();
    if let Some(d) = balance_delta {
        planned.push(
            LedgerEntry { member_id, kind: EntryKind::Balance, direction, amount: d },
        );
    }
    if let Some(d) = integral_delta {
        planned.push(
            LedgerEntry { member_id, kind: EntryKind::Integral, direction, amount: d },
        );
    }
    proof {
        assert(planned@ =~= planned_entries(member_id, balance_delta, integral_delta, direction));
    }
    Ok((Aggregate { balance: new_balance, integral: new_integral }, planned))
}

/// The transaction coordinator: the aggregate store and the audit ledger,
/// mutated only together. Its view is the abstract [`LedgerView`] state.
pub struct Bank {
    store: AggregateStore,
    ledger: Ledger,
}

impl View for Bank {
    type V = LedgerView;

    closed spec fn view(&self) -> LedgerView {
        LedgerView { accounts: self.store@, entries: self.ledger@ }
    }
}

impl Bank {
    /// A bank with no members and an empty ledger.
    pub fn new() -> (bank: Bank)
        ensures
            bank@.accounts == Map::<u64, Aggregate>::empty(),
            bank@.entries == Seq::<LedgerEntry>::empty(),
    {
        Bank { store: AggregateStore::new(), ledger: Ledger::new() }
    }

    /// Registers a member at account creation (or overwrites the aggregate
    /// of a taken id). Registration is not a mutation: it writes no ledger
    /// entry.
    pub fn register(&mut self, member_id: u64, aggregate: Aggregate)
        ensures
            final(self)@.accounts == old(self)@.accounts.insert(member_id, aggregate),
            final(self)@.entries == old(self)@.entries,
    {
        self.store.register(member_id, aggregate);
    }

    /// A member's current aggregate; an unknown id is a normal absent result.
    pub fn read_aggregate(&self, member_id: u64) -> (r: Option<Aggregate>)
        ensures
            r == if self@.accounts.contains_key(member_id) {
                Some(self@.accounts[member_id])
            } else {
                None::<Aggregate>
            },
    {
        self.store.read(member_id)
    }

    /// How many entries the whole ledger holds.
    pub fn ledger_len(&self) -> (n: usize)
        ensures
            n == self@.entries.len(),
    {
        self.ledger.len()
    }

    /// Reads the ledger entry with a given ledger id (its position).
    pub fn ledger_entry(&self, ledger_id: usize) -> (entry: LedgerEntry)
        requires
            ledger_id < self@.entries.len(),
        ensures
            entry == self@.entries[ledger_id as int],
    {
        self.ledger.entry(ledger_id)
    }

    /// One atomic mutation of one member: the single parameterized operation
    /// behind [`Bank::increment_transaction`] and
    /// [`Bank::decrement_transaction`].
    ///
    /// The contract pins the whole call to the model: the state after it and
    /// the returned value are exactly those of [`step`]. The named clauses
    /// spell the consequences out: exactly which inputs commit, that an
    /// absent member or a refused mutation leaves the committed state
    /// untouched (no partial ledger write ever survives), and that a commit
    /// rewrites the one aggregate and appends one audit entry per present
    /// delta — raising no other member's entry count.
    pub fn apply_delta(
        &mut self,
        member_id: u64,
        balance_delta: Option<u64>,
        integral_delta: Option<u64>,
        direction: Direction,
    ) -> (r: Result<Option<Aggregate>, MutationError>)
        ensures
            final(self)@ == step(old(self)@, member_id, balance_delta, integral_delta,
                direction).post,
            r == step(old(self)@, member_id, balance_delta, integral_delta, direction).outcome,
            r == Ok::<Option<Aggregate>, MutationError>(None) <==> !old(self)@.accounts.contains_key(member_id),
            r is Err <==> old(self)@.accounts.contains_key(member_id) && !deltas_fit(
                old(self)@.accounts[member_id],
                balance_delta,
                integral_delta,
                direction,
            ),
            r is Err ==> r == Err::<Option<Aggregate>, MutationError>(MutationError::Overflow),
            (r is Err || r == Ok::<Option<Aggregate>, MutationError>(None)) ==> final(self)@ == old(self)@,
            r matches Ok(Some(updated)) ==> {
                &&& updated == updated_aggregate(
                    old(self)@.accounts[member_id],
                    balance_delta,
                    integral_delta,
                    direction,
                )
                &&& final(self)@.accounts == old(self)@.accounts.insert(member_id, updated)
                &&& final(self)@.entries == old(self)@.entries + planned_entries(
                    member_id,
                    balance_delta,
                    integral_delta,
                    direction,
                )
                &&& final(self)@.entries.len() == old(self)@.entries.len() + delta_count(
                    balance_delta,
                    integral_delta,
                )
                &&& count_for(final(self)@.entries, member_id) == count_for(
                    old(self)@.entries,
                    member_id,
                ) + delta_count(balance_delta, integral_delta)
                &&& forall|other: u64|
                    other != member_id ==> count_for(final(self)@.entries, other) == count_for(
                        old(self)@.entries,
                        other,
                    )
            },
    {
        let current = match self.store.read(member_id) {
            Some(aggregate) => aggregate,
            None => { return Ok(None); },
        };
        let (updated, planned) = match plan_delta(
            member_id,
            current,
            balance_delta,
            integral_delta,
            direction,
        ) {
            Ok(plan) => plan,
            Err(refusal) => { return Err(refusal); },
        };
        let ghost pre = self@;
        let ghost planned_view = planned@;
        let mut i: usize = 0;
        while i < planned.len()
            invariant
                i <= planned.len(),
                planned@ == planned_view,
                self@.accounts == pre.accounts,
                self@.entries == pre.entries + planned_view.take(i as int),
            decreases planned.len() - i,
        {
            self.ledger.append(planned[i]);
            proof {
                assert(pre.entries + planned_view.take(i as int) + seq![planned_view[i as int]]
                    =~= pre.entries + planned_view.take(i + 1));
            }
            i = i + 1;
        }
        let _ = self.store.write(member_id, updated);
        proof {
            assert(planned_view.take(planned_view.len() as int) =~= planned_view);
            crate::model::lemma_count_for_concat(
                pre.entries,
                planned_entries(member_id, balance_delta, integral_delta, direction),
                member_id,
            );
            crate::model::lemma_planned_entry_counts(
                member_id,
                balance_delta,
                integral_delta,
                direction,
            );
            assert forall|other: u64| other != member_id implies count_for(self@.entries, other)
                == count_for(pre.entries, other) by {
                crate::model::lemma_count_for_concat(
                    pre.entries,
                    planned_entries(member_id, balance_delta, integral_delta, direction),
                    other,
                );
            }
        }
        Ok(Some(updated))
    }

    /// Adds the given non-negative magnitudes to a member's balance and
    /// integral — the balance in minor currency units — writing one audit
    /// entry per present magnitude, atomically with the aggregate update.
    pub fn increment_transaction(
        &mut self,
        member_id: u64,
        balance: Option<u64>,
        integral: Option<u64>,
    ) -> (r: Result<Option<Aggregate>, MutationError>)
        ensures
            final(self)@ == step(old(self)@, member_id, balance, integral,
                Direction::Increment).post,
            r == step(old(self)@, member_id, balance, integral, Direction::Increment).outcome,
            r == Ok::<Option<Aggregate>, MutationError>(None) <==> !old(self)@.accounts.contains_key(member_id),
            (r is Err || r == Ok::<Option<Aggregate>, MutationError>(None)) ==> final(self)@ == old(self)@,
            r matches Ok(Some(updated)) ==> {
                &&& (balance matches Some(d) ==> updated.balance == old(
                    self,
                )@.accounts[member_id].balance + d)
                &&& (balance is None ==> updated.balance == old(
                    self,
                )@.accounts[member_id].balance)
                &&& (integral matches Some(d) ==> updated.integral == old(
                    self,
                )@.accounts[member_id].integral + d)
                &&& (integral is None ==> updated.integral == old(
                    self,
                )@.accounts[member_id].integral)
                &&& final(self)@.accounts == old(self)@.accounts.insert(member_id, updated)
                &&& count_for(final(self)@.entries, member_id) == count_for(
                    old(self)@.entries,
                    member_id,
                ) + delta_count(balance, integral)
                &&& forall|other: u64|
                    other != member_id ==> count_for(final(self)@.entries, other) == count_for(
                        old(self)@.entries,
                        other,
                    )
            },
    {
        self.apply_delta(member_id, balance, integral, Direction::Increment)
    }

    /// Subtracts the given non-negative magnitudes from a member's balance
    /// and integral, writing one audit entry per present magnitude,
    /// atomically with the aggregate update. No floor is enforced: a
    /// decrement may drive a field negative, and only a result that does not
    /// fit in `i64` is refused.
    pub fn decrement_transaction(
        &mut self,
        member_id: u64,
        balance: Option<u64>,
        integral: Option<u64>,
    ) -> (r: Result<Option<Aggregate>, MutationError>)
        ensures
            final(self)@ == step(old(self)@, member_id, balance, integral,
                Direction::Decrement).post,
            r == step(old(self)@, member_id, balance, integral, Direction::Decrement).outcome,
            r == Ok::<Option<Aggregate>, MutationError>(None) <==> !old(self)@.accounts.contains_key(member_id),
            (r is Err || r == Ok::<Option<Aggregate>, MutationError>(None)) ==> final(self)@ == old(self)@,
            r matches Ok(Some(updated)) ==> {
                &&& (balance matches Some(d) ==> updated.balance == old(
                    self,
                )@.accounts[member_id].balance - d)
                &&& (balance is None ==> updated.balance == old(
                    self,
                )@.accounts[member_id].balance)
                &&& (integral matches Some(d) ==> updated.integral == old(
                    self,
                )@.accounts[member_id].integral - d)
                &&& (integral is None ==> updated.integral == old(
                    self,
                )@.accounts[member_id].integral)
                &&& final(self)@.accounts == old(self)@.accounts.insert(member_id, updated)
                &&& count_for(final(self)@.entries, member_id) == count_for(
                    old(self)@.entries,
                    member_id,
                ) + delta_count(balance, integral)
                &&& forall|other: u64|
                    other != member_id ==> count_for(final(self)@.entries, other) == count_for(
                        old(self)@.entries,
                        other,
                    )
            },
    {
        self.apply_delta(member_id, balance, integral, Direction::Decrement)
    }
}

} // verus!
