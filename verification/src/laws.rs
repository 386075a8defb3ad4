//! Global consistency statements of the accounting core, proved once over
//! the model that every mutation is pinned to.
//!
//! Each law is stated over [`step`], and the coordinator's contracts say that
//! [`crate::bank::Bank::apply_delta`] and the two mutation entry points
//! realize `step` exactly, so each law holds of the executable code as well.

use crate::data::{Direction, EntryKind, LedgerEntry};
use crate::model::{
    count_for, field_sum, lemma_count_for_concat, lemma_field_sum_concat,
    lemma_planned_entry_counts, lemma_planned_entry_sums, planned_entries, step, LedgerView,
};
use vstd::prelude::*;

verus! {

/// A mutation of a member id that does not exist reports an absent result —
/// and nothing but an absent member is ever reported so — and leaves the
/// whole state untouched: no aggregate changes, and the ledger entry count
/// of that id, of every other id, and of the ledger as a whole stay as they
/// were.
pub proof fn lemma_absent_member_unchanged(
    pre: LedgerView,
    member_id: u64,
    balance_delta: Option<u64>,
    integral_delta: Option<u64>,
    direction: Direction,
)
    ensures
        step(pre, member_id, balance_delta, integral_delta, direction).outcome == Ok::<
            _,
            crate::data::MutationError,
        >(None::<crate::data::Aggregate>) <==> !pre.accounts.contains_key(member_id),
        !pre.accounts.contains_key(member_id) ==> step(
            pre,
            member_id,
            balance_delta,
            integral_delta,
            direction,
        ).post == pre,
{
}

/// A mutation that fails reports the failure and has no effect at all: the
/// aggregate map and the ledger both equal their pre-call values, so no
/// partial write — in particular no ledger entry without its aggregate
/// update — ever survives.
pub proof fn lemma_failed_mutation_unchanged(
    pre: LedgerView,
    member_id: u64,
    balance_delta: Option<u64>,
    integral_delta: Option<u64>,
    direction: Direction,
)
    ensures
        step(pre, member_id, balance_delta, integral_delta, direction).outcome is Err ==> step(
            pre,
            member_id,
            balance_delta,
            integral_delta,
            direction,
        ).post == pre,
{
}

/// No lost update: two balance increments of the same member, serialized in
/// either order, both commit and compound — the final balance is the start
/// balance plus both magnitudes, exactly two ledger entries are added for
/// that member and none for any other, and the final aggregate does not
/// depend on the order.
pub proof fn lemma_serialized_increments(pre: LedgerView, member_id: u64, d1: u64, d2: u64)
    requires
        pre.accounts.contains_key(member_id),
        pre.accounts[member_id].balance + d1 + d2 <= i64::MAX,
    ensures
        ({
            let first = step(pre, member_id, Some(d1), None, Direction::Increment);
            let second = step(first.post, member_id, Some(d2), None, Direction::Increment);
            let swapped_first = step(pre, member_id, Some(d2), None, Direction::Increment);
            let swapped_second = step(
                swapped_first.post,
                member_id,
                Some(d1),
                None,
                Direction::Increment,
            );
            &&& first.outcome is Ok && second.outcome is Ok
            &&& second.post.accounts[member_id].balance == pre.accounts[member_id].balance + d1
                + d2
            &&& second.post.accounts[member_id].integral == pre.accounts[member_id].integral
            &&& second.post.entries.len() == pre.entries.len() + 2
            &&& count_for(second.post.entries, member_id) == count_for(pre.entries, member_id) + 2
            &&& forall|other: u64|
                other != member_id ==> count_for(second.post.entries, other) == count_for(
                    pre.entries,
                    other,
                )
            &&& swapped_second.post.accounts[member_id] == second.post.accounts[member_id]
        }),
{
    let first = step(pre, member_id, Some(d1), None, Direction::Increment);
    let second = step(first.post, member_id, Some(d2), None, Direction::Increment);
    let first_planned = planned_entries(member_id, Some(d1), None, Direction::Increment);
    let second_planned = planned_entries(member_id, Some(d2), None, Direction::Increment);
    assert(second.post.entries == pre.entries + first_planned + second_planned);
    lemma_planned_entry_counts(member_id, Some(d1), None, Direction::Increment);
    lemma_planned_entry_counts(member_id, Some(d2), None, Direction::Increment);
    lemma_count_for_concat(pre.entries, first_planned, member_id);
    lemma_count_for_concat(pre.entries + first_planned, second_planned, member_id);
    assert forall|other: u64| other != member_id implies count_for(second.post.entries, other)
        == count_for(pre.entries, other) by {
        lemma_count_for_concat(pre.entries, first_planned, other);
        lemma_count_for_concat(pre.entries + first_planned, second_planned, other);
    }
}

/// Round trip: decrementing a member's balance by a magnitude and then
/// incrementing it by the same magnitude restores every aggregate exactly,
/// and adds exactly the two audit entries — the decrement, then the
/// increment — to the ledger.
pub proof fn lemma_round_trip(pre: LedgerView, member_id: u64, magnitude: u64)
    requires
        pre.accounts.contains_key(member_id),
        i64::MIN <= pre.accounts[member_id].balance - magnitude,
    ensures
        ({
            let down = step(pre, member_id, Some(magnitude), None, Direction::Decrement);
            let up = step(down.post, member_id, Some(magnitude), None, Direction::Increment);
            &&& down.outcome is Ok && up.outcome is Ok
            &&& up.post.accounts == pre.accounts
            &&& up.post.entries == pre.entries + seq![
                LedgerEntry {
                    member_id,
                    kind: EntryKind::Balance,
                    direction: Direction::Decrement,
                    amount: magnitude,
                },
                LedgerEntry {
                    member_id,
                    kind: EntryKind::Balance,
                    direction: Direction::Increment,
                    amount: magnitude,
                },
            ]
            &&& count_for(up.post.entries, member_id) == count_for(pre.entries, member_id) + 2
        }),
{
    let down = step(pre, member_id, Some(magnitude), None, Direction::Decrement);
    let up = step(down.post, member_id, Some(magnitude), None, Direction::Increment);
    assert(up.post.accounts[member_id] == pre.accounts[member_id]);
    assert(up.post.accounts =~= pre.accounts);
    let p_down = planned_entries(member_id, Some(magnitude), None, Direction::Decrement);
    let p_up = planned_entries(member_id, Some(magnitude), None, Direction::Increment);
    assert(pre.entries + p_down + p_up =~= pre.entries + seq![
        LedgerEntry {
            member_id,
            kind: EntryKind::Balance,
            direction: Direction::Decrement,
            amount: magnitude,
        },
        LedgerEntry {
            member_id,
            kind: EntryKind::Balance,
            direction: Direction::Increment,
            amount: magnitude,
        },
    ]);
    lemma_planned_entry_counts(member_id, Some(magnitude), None, Direction::Decrement);
    lemma_planned_entry_counts(member_id, Some(magnitude), None, Direction::Increment);
    lemma_count_for_concat(pre.entries, p_down, member_id);
    lemma_count_for_concat(pre.entries + p_down, p_up, member_id);
}

/// The audit trail accounts for every change: a committed mutation moves a
/// member's aggregate fields by exactly what its new ledger entries sum to,
/// so the difference between an aggregate field and that member's signed
/// ledger sum — fixed when the account is registered — is invariant under
/// mutations; and no other member's aggregate or ledger sums move at all.
pub proof fn lemma_audit_trail_accounts_for_changes(
    pre: LedgerView,
    member_id: u64,
    balance_delta: Option<u64>,
    integral_delta: Option<u64>,
    direction: Direction,
)
    ensures
        ({
            let s = step(pre, member_id, balance_delta, integral_delta, direction);
            s.outcome matches Ok(Some(updated)) ==> {
                &&& updated.balance - field_sum(s.post.entries, member_id, EntryKind::Balance)
                    == pre.accounts[member_id].balance - field_sum(
                    pre.entries,
                    member_id,
                    EntryKind::Balance,
                )
                &&& updated.integral - field_sum(s.post.entries, member_id, EntryKind::Integral)
                    == pre.accounts[member_id].integral - field_sum(
                    pre.entries,
                    member_id,
                    EntryKind::Integral,
                )
                &&& forall|other: u64, kind: EntryKind|
                    other != member_id ==> #[trigger] field_sum(s.post.entries, other, kind)
                        == field_sum(pre.entries, other, kind)
                &&& forall|other: u64|
                    other != member_id && pre.accounts.contains_key(other)
                        ==> #[trigger] s.post.accounts[other] == pre.accounts[other]
            }
        }),
{
    let s = step(pre, member_id, balance_delta, integral_delta, direction);
    if s.outcome matches Ok(Some(_)) {
        let planned = planned_entries(member_id, balance_delta, integral_delta, direction);
        let current = pre.accounts[member_id];
        let updated = crate::model::updated_aggregate(
            current,
            balance_delta,
            integral_delta,
            direction,
        );
        lemma_planned_entry_sums(member_id, balance_delta, integral_delta, direction);
        lemma_field_sum_concat(pre.entries, planned, member_id, EntryKind::Balance);
        lemma_field_sum_concat(pre.entries, planned, member_id, EntryKind::Integral);
        assert(updated.balance - current.balance == field_sum(
            planned,
            member_id,
            EntryKind::Balance,
        ));
        assert(updated.integral - current.integral == field_sum(
            planned,
            member_id,
            EntryKind::Integral,
        ));
        assert forall|other: u64, kind: EntryKind| other != member_id implies #[trigger] field_sum(
            s.post.entries,
            other,
            kind,
        ) == field_sum(pre.entries, other, kind) by {
            lemma_field_sum_concat(pre.entries, planned, other, kind);
        }
    }
}

/// Mutations of two distinct members are fully independent: serialized in
/// either order, each reports the same outcome, the resulting aggregates are
/// the same, and every member ends with the same ledger entry count.
pub proof fn lemma_distinct_members_independent(
    pre: LedgerView,
    first_id: u64,
    first_balance: Option<u64>,
    first_integral: Option<u64>,
    first_direction: Direction,
    second_id: u64,
    second_balance: Option<u64>,
    second_integral: Option<u64>,
    second_direction: Direction,
)
    requires
        first_id != second_id,
    ensures
        ({
            let first_alone = step(pre, first_id, first_balance, first_integral, first_direction);
            let then_second = step(
                first_alone.post,
                second_id,
                second_balance,
                second_integral,
                second_direction,
            );
            let second_alone = step(
                pre,
                second_id,
                second_balance,
                second_integral,
                second_direction,
            );
            let then_first = step(
                second_alone.post,
                first_id,
                first_balance,
                first_integral,
                first_direction,
            );
            &&& first_alone.outcome == then_first.outcome
            &&& second_alone.outcome == then_second.outcome
            &&& then_second.post.accounts == then_first.post.accounts
            &&& forall|member: u64|
                #[trigger] count_for(then_second.post.entries, member) == count_for(
                    then_first.post.entries,
                    member,
                )
        }),
{
    let first_alone = step(pre, first_id, first_balance, first_integral, first_direction);
    let then_second = step(
        first_alone.post,
        second_id,
        second_balance,
        second_integral,
        second_direction,
    );
    let second_alone = step(pre, second_id, second_balance, second_integral, second_direction);
    let then_first = step(
        second_alone.post,
        first_id,
        first_balance,
        first_integral,
        first_direction,
    );
    assert(then_second.post.accounts =~= then_first.post.accounts);
    let first_planned = planned_entries(first_id, first_balance, first_integral, first_direction);
    let second_planned = planned_entries(
        second_id,
        second_balance,
        second_integral,
        second_direction,
    );
    let first_commits = first_alone.outcome matches Ok(Some(_));
    let second_commits = second_alone.outcome matches Ok(Some(_));
    assert forall|member: u64| #[trigger] count_for(then_second.post.entries, member) == count_for(
        then_first.post.entries,
        member,
    ) by {
        if first_commits && second_commits {
            lemma_count_for_concat(pre.entries, first_planned, member);
            lemma_count_for_concat(pre.entries + first_planned, second_planned, member);
            lemma_count_for_concat(pre.entries, second_planned, member);
            lemma_count_for_concat(pre.entries + second_planned, first_planned, member);
        }
    }
}

} // verus!
