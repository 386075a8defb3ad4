//! The mathematical model of the accounting core.
//!
//! [`LedgerView`] is the abstract state: a map from member id to aggregate,
//! and the sequence of ledger entries committed so far. [`step`] says, in one
//! place, what a single mutation does to that state and what it returns; the
//! executable coordinator in [`crate::bank`] is proved to realize `step`
//! exactly, and the proofs in [`crate::laws`] are stated over it.

use crate::data::{Aggregate, Direction, EntryKind, LedgerEntry, MutationError};
use vstd::prelude::*;

verus! {

/// The abstract state of the whole subsystem: every member's current
/// aggregate, and the full append-only audit ledger in commit order.
#[verifier::ext_equal]
pub ghost struct LedgerView {
    pub accounts: Map<u64, Aggregate>,
    pub entries: Seq<LedgerEntry>,
}

/// What one mutation did: the state after it, and the value it returned.
/// `Ok(None)` reports an absent member; `Ok(Some(a))` reports the updated
/// aggregate; `Err(_)` reports a refused mutation.
#[verifier::ext_equal]
pub ghost struct StepResult {
    pub post: LedgerView,
    pub outcome: Result<Option<Aggregate>, MutationError>,
}

/// A current value moved by a non-negative magnitude, signed by direction.
pub open spec fn shifted(value: i64, magnitude: u64, direction: Direction) -> int {
    match direction {
        Direction::Increment => value + magnitude,
        Direction::Decrement => value - magnitude,
    }
}

/// Whether a mathematical value is representable as an `i64`.
pub open spec fn fits_i64(value: int) -> bool {
    i64::MIN <= value <= i64::MAX
}

/// The balance after a mutation: shifted when a balance delta is present,
/// the just-read current value otherwise.
pub open spec fn applied_balance(
    current: Aggregate,
    balance_delta: Option<u64>,
    direction: Direction,
) -> int {
    match balance_delta {
        Some(d) => shifted(current.balance, d, direction),
        None => current.balance as int,
    }
}

/// The integral after a mutation, by the same rule as [`applied_balance`].
pub open spec fn applied_integral(
    current: Aggregate,
    integral_delta: Option<u64>,
    direction: Direction,
) -> int {
    match integral_delta {
        Some(d) => shifted(current.integral, d, direction),
        None => current.integral as int,
    }
}

/// Whether both resulting field values are representable, i.e. whether the
/// mutation commits rather than aborting with an overflow.
pub open spec fn deltas_fit(
    current: Aggregate,
    balance_delta: Option<u64>,
    integral_delta: Option<u64>,
    direction: Direction,
) -> bool {
    &&& fits_i64(applied_balance(current, balance_delta, direction))
    &&& fits_i64(applied_integral(current, integral_delta, direction))
}

/// The aggregate a committed mutation leaves behind.
pub open spec fn updated_aggregate(
    current: Aggregate,
    balance_delta: Option<u64>,
    integral_delta: Option<u64>,
    direction: Direction,
) -> Aggregate {
    Aggregate {
        balance: applied_balance(current, balance_delta, direction) as i64,
        integral: applied_integral(current, integral_delta, direction) as i64,
    }
}

/// How many ledger entries a mutation with these deltas appends: one per
/// present delta.
pub open spec fn delta_count(balance_delta: Option<u64>, integral_delta: Option<u64>) -> int {
    (if balance_delta is Some { 1int } else { 0int })
        + (if integral_delta is Some { 1int } else { 0int })
}

/// The audit records a committed mutation appends, in order: the balance
/// entry first when a balance delta is present, then the integral entry when
/// an integral delta is present.
pub open spec fn planned_entries(
    member_id: u64,
    balance_delta: Option<u64>,
    integral_delta: Option<u64>,
    direction: Direction,
) -> Seq<LedgerEntry> {
    let balance_part = match balance_delta {
        Some(d) => seq![
            LedgerEntry { member_id, kind: EntryKind::Balance, direction, amount: d },
        ],
        None => Seq::<LedgerEntry>::empty(),
    };
    let integral_part = match integral_delta {
        Some(d) => seq![
            LedgerEntry { member_id, kind: EntryKind::Integral, direction, amount: d },
        ],
        None => Seq::<LedgerEntry>::empty(),
    };
    balance_part + integral_part
}

/// What one mutation does, all in one place.
///
/// An absent member is a normal outcome: the state is untouched and `Ok(None)`
/// comes back. A present member whose resulting values fit commits: the
/// aggregate map is overwritten at that one id (both fields written, the
/// untouched field keeping its just-read value) and the planned audit entries
/// are appended, together. Any other case refuses the mutation and leaves the
/// state exactly as it was: no partial effect ever shows.
pub open spec fn step(
    pre: LedgerView,
    member_id: u64,
    balance_delta: Option<u64>,
    integral_delta: Option<u64>,
    direction: Direction,
) -> StepResult {
    if !pre.accounts.contains_key(member_id) {
        StepResult { post: pre, outcome: Ok(None) }
    } else {
        let current = pre.accounts[member_id];
        if !deltas_fit(current, balance_delta, integral_delta, direction) {
            StepResult { post: pre, outcome: Err(MutationError::Overflow) }
        } else {
            let updated = updated_aggregate(current, balance_delta, integral_delta, direction);
            StepResult {
                post: LedgerView {
                    accounts: pre.accounts.insert(member_id, updated),
                    entries: pre.entries + planned_entries(
                        member_id,
                        balance_delta,
                        integral_delta,
                        direction,
                    ),
                },
                outcome: Ok(Some(updated)),
            }
        }
    }
}

/// A magnitude as the signed change it stands for, the sign carried by the
/// direction.
pub open spec fn signed_magnitude(magnitude: u64, direction: Direction) -> int {
    match direction {
        Direction::Increment => magnitude as int,
        Direction::Decrement => -(magnitude as int),
    }
}

/// The signed change one ledger entry records.
pub open spec fn entry_shift(entry: LedgerEntry) -> int {
    signed_magnitude(entry.amount, entry.direction)
}

/// The algebraic sum of all changes a ledger records for one field of one
/// member, in commit order.
pub open spec fn field_sum(entries: Seq<LedgerEntry>, member_id: u64, kind: EntryKind) -> int
    decreases entries.len(),
{
    if entries.len() == 0 {
        0
    } else {
        field_sum(entries.drop_last(), member_id, kind) + (if entries.last().member_id == member_id
            && entries.last().kind == kind {
            entry_shift(entries.last())
        } else {
            0int
        })
    }
}

/// A field's ledger sum distributes over concatenation of ledgers.
pub proof fn lemma_field_sum_concat(
    left: Seq<LedgerEntry>,
    right: Seq<LedgerEntry>,
    member_id: u64,
    kind: EntryKind,
)
    ensures
        field_sum(left + right, member_id, kind) == field_sum(left, member_id, kind) + field_sum(
            right,
            member_id,
            kind,
        ),
    decreases right.len(),
{
    if right.len() == 0 {
        assert(left + right =~= left);
    } else {
        lemma_field_sum_concat(left, right.drop_last(), member_id, kind);
        assert((left + right).drop_last() =~= left + right.drop_last());
    }
}

/// What the entries of one mutation sum to: for the mutated member, exactly
/// the signed balance delta on the balance field and the signed integral
/// delta on the integral field; for any other member, nothing.
pub proof fn lemma_planned_entry_sums(
    member_id: u64,
    balance_delta: Option<u64>,
    integral_delta: Option<u64>,
    direction: Direction,
)
    ensures
        ({
            let planned = planned_entries(member_id, balance_delta, integral_delta, direction);
            &&& field_sum(planned, member_id, EntryKind::Balance) == (match balance_delta {
                Some(d) => signed_magnitude(d, direction),
                None => 0int,
            })
            &&& field_sum(planned, member_id, EntryKind::Integral) == (match integral_delta {
                Some(d) => signed_magnitude(d, direction),
                None => 0int,
            })
            &&& forall|other: u64, kind: EntryKind|
                other != member_id ==> #[trigger] field_sum(planned, other, kind) == 0
        }),
{
    let planned = planned_entries(member_id, balance_delta, integral_delta, direction);
    assert forall|other: u64, kind: EntryKind| other != member_id implies #[trigger] field_sum(
        planned,
        other,
        kind,
    ) == 0 by {
        lemma_field_sum_foreign_member(planned, member_id, other, kind);
    }
    if planned.len() == 2 {
        assert(planned.drop_last() =~= planned.take(1));
        assert(planned.take(1).drop_last() =~= Seq::<LedgerEntry>::empty());
        assert(planned.take(1).last() == planned[0]);
        assert(field_sum(Seq::<LedgerEntry>::empty(), member_id, EntryKind::Balance) == 0);
        assert(field_sum(Seq::<LedgerEntry>::empty(), member_id, EntryKind::Integral) == 0);
        assert(field_sum(planned.take(1), member_id, EntryKind::Balance) == entry_shift(
            planned[0],
        ));
        assert(field_sum(planned.take(1), member_id, EntryKind::Integral) == 0);
        assert(field_sum(planned, member_id, EntryKind::Balance) == field_sum(
            planned.take(1),
            member_id,
            EntryKind::Balance,
        ));
        assert(field_sum(planned, member_id, EntryKind::Integral) == entry_shift(planned[1]));
    } else if planned.len() == 1 {
        assert(planned.drop_last() =~= Seq::<LedgerEntry>::empty());
        assert(field_sum(Seq::<LedgerEntry>::empty(), member_id, EntryKind::Balance) == 0);
        assert(field_sum(Seq::<LedgerEntry>::empty(), member_id, EntryKind::Integral) == 0);
        assert(field_sum(planned, member_id, EntryKind::Balance) == (
        if planned.last().kind == EntryKind::Balance {
            entry_shift(planned.last())
        } else {
            0int
        }));
        assert(field_sum(planned, member_id, EntryKind::Integral) == (
        if planned.last().kind == EntryKind::Integral {
            entry_shift(planned.last())
        } else {
            0int
        }));
    }
}

/// A ledger whose entries all belong to one member sums to nothing for any
/// other member.
pub proof fn lemma_field_sum_foreign_member(
    entries: Seq<LedgerEntry>,
    member_id: u64,
    other: u64,
    kind: EntryKind,
)
    requires
        forall|i: int| 0 <= i < entries.len() ==> entries[i].member_id == member_id,
        other != member_id,
    ensures
        field_sum(entries, other, kind) == 0,
    decreases entries.len(),
{
    if entries.len() > 0 {
        lemma_field_sum_foreign_member(entries.drop_last(), member_id, other, kind);
    }
}

/// How many ledger entries a given member owns in a ledger.
pub open spec fn count_for(entries: Seq<LedgerEntry>, member_id: u64) -> nat
    decreases entries.len(),
{
    if entries.len() == 0 {
        0
    } else {
        count_for(entries.drop_last(), member_id) + (if entries.last().member_id == member_id {
            1nat
        } else {
            0nat
        })
    }
}

/// A member's count distributes over concatenation of ledgers.
pub proof fn lemma_count_for_concat(
    left: Seq<LedgerEntry>,
    right: Seq<LedgerEntry>,
    member_id: u64,
)
    ensures
        count_for(left + right, member_id) == count_for(left, member_id) + count_for(
            right,
            member_id,
        ),
    decreases right.len(),
{
    if right.len() == 0 {
        assert(left + right =~= left);
    } else {
        lemma_count_for_concat(left, right.drop_last(), member_id);
        assert((left + right).drop_last() =~= left + right.drop_last());
    }
}

/// The entries one mutation plans all belong to the mutated member: that
/// member gains exactly one count per present delta, and every other member
/// gains none.
pub proof fn lemma_planned_entry_counts(
    member_id: u64,
    balance_delta: Option<u64>,
    integral_delta: Option<u64>,
    direction: Direction,
)
    ensures
        planned_entries(member_id, balance_delta, integral_delta, direction).len() == delta_count(
            balance_delta,
            integral_delta,
        ),
        count_for(planned_entries(member_id, balance_delta, integral_delta, direction), member_id)
            == delta_count(balance_delta, integral_delta),
        forall|other: u64|
            other != member_id ==> count_for(
                planned_entries(member_id, balance_delta, integral_delta, direction),
                other,
            ) == 0,
{
    let planned = planned_entries(member_id, balance_delta, integral_delta, direction);
    assert forall|other: u64| #![auto] true implies count_for(planned, other) == (
    if other == member_id {
        delta_count(balance_delta, integral_delta)
    } else {
        0int
    }) by {
        lemma_count_for_single_member(planned, member_id, other);
    }
}

/// In a ledger whose entries all belong to `member_id`, that member owns
/// every entry and any other member owns none.
pub proof fn lemma_count_for_single_member(
    entries: Seq<LedgerEntry>,
    member_id: u64,
    other: u64,
)
    requires
        forall|i: int| 0 <= i < entries.len() ==> entries[i].member_id == member_id,
    ensures
        count_for(entries, member_id) == entries.len(),
        other != member_id ==> count_for(entries, other) == 0,
    decreases entries.len(),
{
    if entries.len() > 0 {
        lemma_count_for_single_member(entries.drop_last(), member_id, other);
    }
}

} // verus!
