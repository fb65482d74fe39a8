//! Error taxonomy of the authorization engine.
//!
//! Every failure path is a named, typed outcome.  Rule-evaluation failures
//! (policy errors) are recorded as a cleared outcome bit and are not
//! immediately fatal; structural, sequencing and resource errors are fatal.

use vstd::prelude::*;

verus! {

/// Errors raised by the rule-set and spend-request machinery.
#[derive(Clone, Copy, Debug, PartialEq, Eq, Structural)]
pub enum TreasuryError {
    /// Unclassified failure.
    Unknown,
    /// An amount is out of range.
    AmountOutOfRange,
    /// A rule was added or processed past the declared rule count.
    RuleOutOfRange,
    /// The spend ledger has no free slot for a new funding instrument.
    SpendRequestNoSpace,
    /// The policy tree evaluated the outcome bitmask to false.
    RuleEvalFalse,
    /// A rule-set key does not match.
    RulesKeyDoesNotMatch,
    /// A rule could not be serialized.
    RulesFailedToSerialize,
    /// An unknown rule kind was named.
    RuleUnknown,
    /// A fingerprint has the wrong length or does not match.
    BadHash,
    /// A rule could not be appended to the accumulator.
    RuleAddFail,
    /// A rate limiter's maximum spend must be positive.
    RateLimiterMaxSpendCannotBeZero,
    /// A rate limiter's window must span at least 100 time units.
    RateLimiterDeltaSlotMustBeGreaterThan100,
    /// The required authorizer did not sign.
    RuleAuthorizerConstraintMustMatch,
    /// The caller program does not match the required program.
    RuleProgramConstraintMustMatch,
    /// The logical clock ran backwards for a rate-limited instrument.
    RuleRateLimiterSlotOutOfOrder,
    /// The candidate spend reaches the rate limiter's maximum.
    RuleRateLimiterCannotExceedSpendLimit,
    /// The sweep destination holds less than the required minimum.
    RuleSweepNotEnoughFunds,
    /// The transfer destination is not the sweep destination.
    RuleSweepWrongDestination,
    /// The observed balance exceeds the configured maximum.
    RuleMaxBalanceExceeded,
    /// A balance is insufficient.
    BalanceInsufficient,
}

/// Errors raised while decoding a serialized policy tree.
#[derive(Clone, Copy, Debug, PartialEq, Eq, Structural)]
pub enum BooleanTreeError {
    /// The leaf indices do not cover the declared range contiguously.
    Unknown,
    /// The encoding ended before a complete node was read.
    FailedToRead,
    /// An internal node's operator byte is neither 0 nor 1.
    BadBoolean,
    /// Bytes remain after a complete tree was parsed.
    IndexOutOfRange,
}

/// Union of the two error families, for operations that both decode a
/// policy tree and drive the rule machinery.
#[derive(Clone, Copy, Debug, PartialEq, Eq, Structural)]
pub enum EngineError {
    /// A rule-machinery failure.
    Treasury(TreasuryError),
    /// A policy-tree decoding failure.
    Tree(BooleanTreeError),
}

} // verus!
