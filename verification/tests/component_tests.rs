use member_ledger::bank::{checked_shift, plan_delta};
use member_ledger::data::{Aggregate, Direction, EntryKind, LedgerEntry, MutationError};
use member_ledger::ledger::Ledger;
use member_ledger::store::AggregateStore;

#[test]
fn store_read_and_write() {
    let mut store = AggregateStore::new();
    assert_eq!(store.read(1), None);
    store.register(1, Aggregate { balance: 5, integral: 6 });
    assert_eq!(store.read(1), Some(Aggregate { balance: 5, integral: 6 }));
    let written = store.write(1, Aggregate { balance: 7, integral: 8 });
    assert_eq!(written, Some(Aggregate { balance: 7, integral: 8 }));
    assert_eq!(store.read(1), Some(Aggregate { balance: 7, integral: 8 }));
}

#[test]
fn store_write_of_unknown_id_is_not_found() {
    let mut store = AggregateStore::new();
    store.register(1, Aggregate { balance: 5, integral: 6 });
    assert_eq!(store.write(2, Aggregate { balance: 9, integral: 9 }), None);
    assert_eq!(store.read(2), None);
    assert_eq!(store.read(1), Some(Aggregate { balance: 5, integral: 6 }));
}

#[test]
fn ledger_append_assigns_positions() {
    let mut ledger = Ledger::new();
    let a = LedgerEntry {
        member_id: 1,
        kind: EntryKind::Balance,
        direction: Direction::Increment,
        amount: 10,
    };
    let b = LedgerEntry {
        member_id: 2,
        kind: EntryKind::Integral,
        direction: Direction::Decrement,
        amount: 3,
    };
    assert_eq!(ledger.append(a), 0);
    assert_eq!(ledger.append(b), 1);
    assert_eq!(ledger.len(), 2);
    assert_eq!(ledger.entry(0), a);
    assert_eq!(ledger.entry(1), b);
}

#[test]
fn checked_shift_signs_and_limits() {
    assert_eq!(checked_shift(10, 4, Direction::Increment), Some(14));
    assert_eq!(checked_shift(10, 4, Direction::Decrement), Some(6));
    assert_eq!(checked_shift(-3, 10, Direction::Decrement), Some(-13));
    assert_eq!(checked_shift(i64::MAX, 1, Direction::Increment), None);
    assert_eq!(checked_shift(i64::MIN, 1, Direction::Decrement), None);
    assert_eq!(checked_shift(i64::MAX, 0, Direction::Increment), Some(i64::MAX));
}

#[test]
fn plan_delta_plans_both_writes() {
    let current = Aggregate { balance: 10, integral: 3 };
    let planned = plan_delta(5, current, Some(4), Some(2), Direction::Decrement);
    let (updated, entries) = planned.unwrap();
    assert_eq!(updated, Aggregate { balance: 6, integral: 1 });
    assert_eq!(
        entries,
        vec![
            LedgerEntry {
                member_id: 5,
                kind: EntryKind::Balance,
                direction: Direction::Decrement,
                amount: 4,
            },
            LedgerEntry {
                member_id: 5,
                kind: EntryKind::Integral,
                direction: Direction::Decrement,
                amount: 2,
            },
        ]
    );
}

#[test]
fn plan_delta_refuses_an_unrepresentable_result() {
    let current = Aggregate { balance: 0, integral: i64::MAX };
    assert_eq!(
        plan_delta(5, current, Some(1), Some(1), Direction::Increment),
        Err(MutationError::Overflow)
    );
}
