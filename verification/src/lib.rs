//! Member balance and loyalty-point accounting with an immutable audit ledger.
//!
//! A member account (an [`data::Aggregate`]) carries a monetary balance and an
//! integral (loyalty-point) counter. Every change to either field goes through
//! the transaction coordinator ([`bank::Bank`]), which applies the change and
//! appends one audit record per changed field to an append-only ledger, all as
//! one atomic unit: either the aggregate write and every ledger append take
//! effect together, or nothing changes at all.
//!
//! Balances are held in minor currency units as `i64` so that ledger
//! arithmetic is exact; conversion to and from a display currency is the
//! caller's concern.
//!
//! The intended behaviour of a mutation is written once, as the specification
//! function [`model::step`]; the executable coordinator is proved to follow it
//! exactly, and [`laws`] proves the global consistency statements (atomicity
//! under failure, no lost updates under serialization, round trips) from it.

pub mod bank;
pub mod data;
pub mod laws;
pub mod ledger;
pub mod model;
pub mod store;
