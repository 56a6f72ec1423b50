//! A deferred-settlement escrow registry. Phone-number strings are bound to
//! account identities; native value, fungible-token deposits and
//! non-fungible-token deposits aimed at a phone that nobody has claimed yet
//! wait in per-phone escrow ledgers, and the moment the phone is allocated to
//! an account all three ledgers are drained into outbound transfers to it.

pub mod contract;
pub mod laws;
pub mod table;
pub mod types;
