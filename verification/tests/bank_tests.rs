use member_ledger::bank::Bank;
use member_ledger::data::{Aggregate, Direction, EntryKind, LedgerEntry, MutationError};

fn bank_with(member_id: u64, balance: i64, integral: i64) -> Bank {
    let mut bank = Bank::new();
    bank.register(member_id, Aggregate { balance, integral });
    bank
}

fn entries_of(bank: &Bank, member_id: u64) -> Vec<LedgerEntry> {
    let mut found = Vec::new();
    let mut i = 0;
    while i < bank.ledger_len() {
        let entry = bank.ledger_entry(i);
        if entry.member_id == member_id {
            found.push(entry);
        }
        i += 1;
    }
    found
}

#[test]
fn increment_existing_balance() {
    let mut bank = bank_with(1, 500, 10);
    let r = bank.increment_transaction(1, Some(100), None);
    assert_eq!(r, Ok(Some(Aggregate { balance: 600, integral: 10 })));
    assert_eq!(bank.read_aggregate(1), Some(Aggregate { balance: 600, integral: 10 }));
    assert_eq!(bank.ledger_len(), 1);
    assert_eq!(
        bank.ledger_entry(0),
        LedgerEntry {
            member_id: 1,
            kind: EntryKind::Balance,
            direction: Direction::Increment,
            amount: 100,
        }
    );
}

#[test]
fn scenario_member_seven_balance_increment() {
    // id 7 starts at a balance of 10000 minor units and an integral of 50;
    // incrementing the balance by 2500 leaves 12500 and the integral untouched,
    // and appends exactly one balance entry for member 7.
    let mut bank = bank_with(7, 10000, 50);
    let r = bank.increment_transaction(7, Some(2500), None);
    assert_eq!(r, Ok(Some(Aggregate { balance: 12500, integral: 50 })));
    assert_eq!(bank.read_aggregate(7), Some(Aggregate { balance: 12500, integral: 50 }));
    assert_eq!(bank.ledger_len(), 1);
    assert_eq!(
        bank.ledger_entry(0),
        LedgerEntry {
            member_id: 7,
            kind: EntryKind::Balance,
            direction: Direction::Increment,
            amount: 2500,
        }
    );
}

#[test]
fn scenario_member_ninety_nine_absent() {
    // id 99 does not exist: the decrement reports an absent result and the
    // ledger gains no row at all.
    let mut bank = bank_with(7, 10000, 50);
    let r = bank.decrement_transaction(99, Some(1000), None);
    assert_eq!(r, Ok(None));
    assert_eq!(bank.ledger_len(), 0);
    assert_eq!(bank.read_aggregate(7), Some(Aggregate { balance: 10000, integral: 50 }));
    assert_eq!(bank.read_aggregate(99), None);
}

#[test]
fn absent_member_increment_leaves_ledger_unchanged() {
    let mut bank = bank_with(4, 80, 0);
    bank.increment_transaction(4, Some(5), None).unwrap();
    let before = bank.ledger_len();
    assert_eq!(bank.increment_transaction(12, Some(5), None), Ok(None));
    assert_eq!(bank.decrement_transaction(12, None, Some(5)), Ok(None));
    assert_eq!(bank.ledger_len(), before);
}

#[test]
fn round_trip_restores_balance() {
    let mut bank = bank_with(3, 1000, 5);
    let down = bank.decrement_transaction(3, Some(250), None);
    assert_eq!(down, Ok(Some(Aggregate { balance: 750, integral: 5 })));
    let up = bank.increment_transaction(3, Some(250), None);
    assert_eq!(up, Ok(Some(Aggregate { balance: 1000, integral: 5 })));
    assert_eq!(bank.read_aggregate(3), Some(Aggregate { balance: 1000, integral: 5 }));
    assert_eq!(bank.ledger_len(), 2);
    assert_eq!(
        bank.ledger_entry(0),
        LedgerEntry {
            member_id: 3,
            kind: EntryKind::Balance,
            direction: Direction::Decrement,
            amount: 250,
        }
    );
    assert_eq!(
        bank.ledger_entry(1),
        LedgerEntry {
            member_id: 3,
            kind: EntryKind::Balance,
            direction: Direction::Increment,
            amount: 250,
        }
    );
}

#[test]
fn serialized_increments_compound() {
    // Two increments of the same member, one after the other, both take
    // effect: no update is lost, and exactly two ledger entries appear.
    let mut bank = bank_with(5, 100, 0);
    bank.increment_transaction(5, Some(7), None).unwrap();
    let r = bank.increment_transaction(5, Some(8), None);
    assert_eq!(r, Ok(Some(Aggregate { balance: 115, integral: 0 })));
    assert_eq!(bank.ledger_len(), 2);
    assert_eq!(entries_of(&bank, 5).len(), 2);
}

#[test]
fn overflow_is_refused_without_effect() {
    let mut bank = bank_with(2, i64::MAX, 9);
    let r = bank.increment_transaction(2, Some(1), None);
    assert_eq!(r, Err(MutationError::Overflow));
    assert_eq!(bank.read_aggregate(2), Some(Aggregate { balance: i64::MAX, integral: 9 }));
    assert_eq!(bank.ledger_len(), 0);
}

#[test]
fn overflow_on_second_field_persists_no_entry_for_the_first() {
    // The balance delta alone would fit, but the integral delta does not:
    // the whole mutation is refused and not even the balance entry survives.
    let mut bank = bank_with(8, 100, i64::MIN);
    let r = bank.decrement_transaction(8, Some(30), Some(1));
    assert_eq!(r, Err(MutationError::Overflow));
    assert_eq!(bank.read_aggregate(8), Some(Aggregate { balance: 100, integral: i64::MIN }));
    assert_eq!(bank.ledger_len(), 0);
}

#[test]
fn both_deltas_append_balance_entry_first() {
    let mut bank = bank_with(6, 40, 4);
    let r = bank.increment_transaction(6, Some(5), Some(3));
    assert_eq!(r, Ok(Some(Aggregate { balance: 45, integral: 7 })));
    assert_eq!(bank.ledger_len(), 2);
    assert_eq!(
        bank.ledger_entry(0),
        LedgerEntry {
            member_id: 6,
            kind: EntryKind::Balance,
            direction: Direction::Increment,
            amount: 5,
        }
    );
    assert_eq!(
        bank.ledger_entry(1),
        LedgerEntry {
            member_id: 6,
            kind: EntryKind::Integral,
            direction: Direction::Increment,
            amount: 3,
        }
    );
}

#[test]
fn both_deltas_absent_returns_current_aggregate() {
    let mut bank = bank_with(9, 77, 3);
    let r = bank.increment_transaction(9, None, None);
    assert_eq!(r, Ok(Some(Aggregate { balance: 77, integral: 3 })));
    assert_eq!(bank.ledger_len(), 0);
}

#[test]
fn decrement_may_drive_a_field_negative() {
    // No floor is enforced: a decrement below zero commits and is recorded
    // like any other change.
    let mut bank = bank_with(10, 10, 0);
    let r = bank.decrement_transaction(10, Some(25), Some(4));
    assert_eq!(r, Ok(Some(Aggregate { balance: -15, integral: -4 })));
    assert_eq!(bank.ledger_len(), 2);
}

#[test]
fn ledger_sums_account_for_aggregate_changes() {
    // The signed sum of a member's ledger entries equals how far the
    // aggregate has moved from its registered value.
    let mut bank = bank_with(1, 1000, 10);
    bank.increment_transaction(1, Some(5), Some(2)).unwrap();
    bank.decrement_transaction(1, Some(3), None).unwrap();
    assert_eq!(bank.read_aggregate(1), Some(Aggregate { balance: 1002, integral: 12 }));
    let mut balance_sum: i64 = 0;
    let mut integral_sum: i64 = 0;
    for entry in entries_of(&bank, 1) {
        let shift = match entry.direction {
            Direction::Increment => entry.amount as i64,
            Direction::Decrement => -(entry.amount as i64),
        };
        match entry.kind {
            EntryKind::Balance => balance_sum += shift,
            EntryKind::Integral => integral_sum += shift,
        }
    }
    assert_eq!(balance_sum, 2);
    assert_eq!(integral_sum, 2);
}

#[test]
fn distinct_members_do_not_interfere() {
    let mut bank = Bank::new();
    bank.register(21, Aggregate { balance: 100, integral: 1 });
    bank.register(22, Aggregate { balance: 200, integral: 2 });
    bank.increment_transaction(21, Some(50), Some(5)).unwrap();
    assert_eq!(bank.read_aggregate(22), Some(Aggregate { balance: 200, integral: 2 }));
    assert_eq!(entries_of(&bank, 21).len(), 2);
    assert_eq!(entries_of(&bank, 22).len(), 0);
}
