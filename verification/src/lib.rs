//! An in-memory warehouse-management test double: a ledger of inventory and
//! dispatch records with an atomic check-and-deduct allocation step, and the
//! line-oriented wire protocol that drives it.
pub mod codec;
pub mod protocol;
pub mod ledger;
