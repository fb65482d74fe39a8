//! A policy-gated transfer-authorization engine.
//!
//! A set of composable spending rules (rate limits, authorization
//! signatures, program and balance constraints, sweep conditions) is bound
//! into an immutable, hash-committed rule set.  A boolean policy tree over
//! the per-rule outcomes decides whether a proposed transfer is authorized,
//! and a bounded rolling-window spend ledger tracks spending history per
//! funding instrument.

pub mod controller;
pub mod delegate;
pub mod errors;
pub mod hashing;
pub mod rule;
pub mod ruleauthconstr;
pub mod rulemaxbal;
pub mod ruleprogconstr;
pub mod ruleratelimiter;
pub mod rulesweep;
pub mod sol;
pub mod spend;
pub mod tree;

use vstd::prelude::*;

verus! {

/// Number of bytes in a rule-set fingerprint.
pub const HASH_BYTES: usize = 32;

} // verus!
