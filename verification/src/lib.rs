//! A balance bridge between a high-precision execution environment and two
//! coarse-grained native currency ledgers.
//!
//! The environment sees one unified balance per account. The value actually
//! lives in a native ledger, at a precision coarser by a factor of
//! [`bridge::POW_9`], plus a small per-account remainder kept in a separate
//! store. This crate holds the arithmetic that splits a requested balance
//! change into a coarse-ledger mutation and a remainder mutation without
//! losing or fabricating value, the stores the split is applied to, and the
//! account-level read, write and transfer operations on top of them.

pub mod account;
pub mod bridge;
pub mod state;
pub mod store;
