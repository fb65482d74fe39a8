use safejar::errors::TreasuryError;
use safejar::rule::{
    RuleAccumulator, RuleDescriptor, RULE_AUTHORIZATION_CONSTRAINT, RULE_BALANCE_CONSTRAINT,
    RULE_PROGRAM_CONSTRAINT, RULE_RATE_LIMITER, RULE_SWEEP,
};
use safejar::ruleauthconstr::{AuthorizationConstraint, AuthorizationConstraintOnly};
use safejar::rulemaxbal::BalanceConstraint;
use safejar::ruleprogconstr::ProgramConstraint;
use safejar::ruleratelimiter::RateLimiter;
use safejar::rulesweep::Sweep;
use safejar::spend::{SpendState, TransferContext};

fn key(v: u8) -> [u8; 32] {
    [v; 32]
}

fn ctx(mint: [u8; 32], amount: u64, slot: u64) -> TransferContext {
    TransferContext::new(&mint, &key(11), &key(12), &key(13), &key(14), &amount, &slot)
}

#[test]
fn rule_ids_are_stable() {
    let rl = RuleDescriptor::RateLimiter(RateLimiter::new(&key(1), 10, 500).unwrap());
    let ac = RuleDescriptor::AuthorizationConstraint(AuthorizationConstraint::new(&key(2), None));
    let pc = RuleDescriptor::ProgramConstraint(ProgramConstraint::new(&key(3)));
    let bc = RuleDescriptor::BalanceConstraint(BalanceConstraint::new(&key(4), 0, 5));
    let sw = RuleDescriptor::Sweep(Sweep::new(&key(5), &key(6), 0, 0));
    assert_eq!(rl.id(), RULE_RATE_LIMITER);
    assert_eq!(ac.id(), RULE_AUTHORIZATION_CONSTRAINT);
    assert_eq!(pc.id(), RULE_PROGRAM_CONSTRAINT);
    assert_eq!(bc.id(), RULE_BALANCE_CONSTRAINT);
    assert_eq!(sw.id(), RULE_SWEEP);
}

#[test]
fn rate_limiter_constructor_rejects_bad_parameters() {
    assert_eq!(
        RateLimiter::new(&key(1), 0, 500).unwrap_err(),
        TreasuryError::RateLimiterMaxSpendCannotBeZero
    );
    assert_eq!(
        RateLimiter::new(&key(1), 10, 99).unwrap_err(),
        TreasuryError::RateLimiterDeltaSlotMustBeGreaterThan100
    );
    assert!(RateLimiter::new(&key(1), 1, 100).is_ok());
}

#[test]
fn canonical_bytes_have_fixed_field_order() {
    let mint = key(9);
    let rl = RateLimiter::new(&mint, 750_000, 500).unwrap();
    let mut expect = mint.to_vec();
    expect.extend_from_slice(&750_000u64.to_le_bytes());
    expect.extend_from_slice(&500u64.to_le_bytes());
    assert_eq!(rl.canonical_bytes(), expect);

    let ac = AuthorizationConstraint::new(&key(2), Some(key(2)));
    assert_eq!(ac.canonical_bytes(), key(2).to_vec());

    let pc = ProgramConstraint::new(&key(3));
    assert_eq!(pc.canonical_bytes(), key(3).to_vec());

    let bc = BalanceConstraint::new(&key(4), 77, 1234);
    let mut expect = key(4).to_vec();
    expect.extend_from_slice(&1234u64.to_le_bytes());
    assert_eq!(bc.canonical_bytes(), expect);

    let sw = Sweep::new(&key(5), &key(6), 77, 4321);
    let mut expect = key(5).to_vec();
    expect.extend_from_slice(&4321u64.to_le_bytes());
    assert_eq!(sw.canonical_bytes(), expect);
}

#[test]
fn observed_values_never_enter_canonical_bytes() {
    let a = BalanceConstraint::new(&key(4), 0, 9).canonical_bytes();
    let b = BalanceConstraint::new(&key(4), 1_000_000, 9).canonical_bytes();
    assert_eq!(a, b);
    let a = Sweep::new(&key(5), &key(6), 0, 9).canonical_bytes();
    let b = Sweep::new(&key(5), &key(7), 55, 9).canonical_bytes();
    assert_eq!(a, b);
    let a = AuthorizationConstraint::new(&key(2), None).canonical_bytes();
    let b = AuthorizationConstraint::new(&key(2), Some(key(2))).canonical_bytes();
    assert_eq!(a, b);
}

#[test]
fn accumulator_binds_tree_bytes_with_real_digest() {
    let tree = vec![255u8, 1, 0, 1];
    let controller = key(7);
    let ra = RuleAccumulator::new(&controller, &tree).unwrap();
    assert_eq!(ra.count, 2);
    assert_eq!(ra.index, 0);
    assert_eq!(ra.controller, controller);
    let mut input = vec![0u8; 32];
    input.extend_from_slice(&tree);
    let expect = anchor_lang::solana_program::hash::hash(&input).to_bytes();
    assert_eq!(ra.hash, expect);
}

#[test]
fn accumulator_rejects_bad_tree() {
    assert!(RuleAccumulator::new(&key(7), &[255u8, 1, 0, 1, 9]).is_err());
    assert!(RuleAccumulator::new(&key(7), &[]).is_err());
}

#[test]
fn accumulator_add_folds_index_prev_and_rule_bytes() {
    let tree = vec![0u8];
    let mut ra = RuleAccumulator::new(&key(7), &tree).unwrap();
    let prev = ra.hash;
    let rule = RuleDescriptor::ProgramConstraint(ProgramConstraint::new(&key(3)));
    ra.add(&rule).unwrap();
    let mut input = vec![0u8];
    input.extend_from_slice(&prev);
    input.extend_from_slice(&key(3));
    let expect = anchor_lang::solana_program::hash::hash(&input).to_bytes();
    assert_eq!(ra.hash, expect);
    assert_eq!(ra.index, 1);
}

#[test]
fn accumulator_is_deterministic_and_order_sensitive() {
    let tree = vec![255u8, 1, 0, 1];
    let r0 = RuleDescriptor::ProgramConstraint(ProgramConstraint::new(&key(3)));
    let r1 = RuleDescriptor::AuthorizationConstraint(AuthorizationConstraint::new(&key(2), None));

    let mut a = RuleAccumulator::new(&key(7), &tree).unwrap();
    a.add(&r0).unwrap();
    a.add(&r1).unwrap();

    let mut b = RuleAccumulator::new(&key(7), &tree).unwrap();
    b.add(&r0).unwrap();
    b.add(&r1).unwrap();
    assert_eq!(a.hash, b.hash, "same rules in the same order commit identically");

    let mut c = RuleAccumulator::new(&key(7), &tree).unwrap();
    c.add(&r1).unwrap();
    c.add(&r0).unwrap();
    assert_ne!(a.hash, c.hash, "swapping two distinct rules changes the fingerprint");
}

#[test]
fn accumulator_add_past_declared_count_fails() {
    let tree = vec![0u8];
    let mut ra = RuleAccumulator::new(&key(7), &tree).unwrap();
    let rule = RuleDescriptor::ProgramConstraint(ProgramConstraint::new(&key(3)));
    ra.add(&rule).unwrap();
    let before = ra.hash;
    assert_eq!(ra.add(&rule).unwrap_err(), TreasuryError::RuleOutOfRange);
    assert_eq!(ra.hash, before);
    assert_eq!(ra.index, 1);
}

#[test]
fn authorization_constraint_requires_observed_signer() {
    let mut state = SpendState::new(1);
    let c = ctx(key(1), 5, 1000);
    let signed = AuthorizationConstraintOnly { required_authorizer: key(2) }.ac(true);
    let unsigned = AuthorizationConstraintOnly { required_authorizer: key(2) }.ac(false);
    assert!(signed.process(&mut state, &c).is_ok());
    assert_eq!(
        unsigned.process(&mut state, &c).unwrap_err(),
        TreasuryError::RuleAuthorizerConstraintMustMatch
    );
}

#[test]
fn program_constraint_compares_caller() {
    let mut state = SpendState::new(1);
    let c = ctx(key(1), 5, 1000);
    assert!(ProgramConstraint::new(&key(11)).process(&mut state, &c).is_ok());
    assert_eq!(
        ProgramConstraint::new(&key(12)).process(&mut state, &c).unwrap_err(),
        TreasuryError::RuleProgramConstraintMustMatch
    );
}

#[test]
fn balance_constraint_compares_observed_balance() {
    let mut state = SpendState::new(1);
    let c = ctx(key(1), 5, 1000);
    assert!(BalanceConstraint::new(&key(1), 100, 100).process(&mut state, &c).is_ok());
    assert_eq!(
        BalanceConstraint::new(&key(1), 101, 100).process(&mut state, &c).unwrap_err(),
        TreasuryError::RuleMaxBalanceExceeded
    );
}

#[test]
fn sweep_checks_destination_and_minimum() {
    let mut state = SpendState::new(1);
    let c = ctx(key(1), 5, 1000);
    assert!(Sweep::new(&key(14), &key(1), 50, 50).process(&mut state, &c).is_ok());
    assert_eq!(
        Sweep::new(&key(15), &key(1), 50, 50).process(&mut state, &c).unwrap_err(),
        TreasuryError::RuleSweepWrongDestination
    );
    assert_eq!(
        Sweep::new(&key(14), &key(1), 49, 50).process(&mut state, &c).unwrap_err(),
        TreasuryError::RuleSweepNotEnoughFunds
    );
}

#[test]
fn rate_limiter_window_scenario() {
    let mint = key(3);
    let rl = RateLimiter::new(&mint, 750_000, 500).unwrap();
    let mut state = SpendState::new(4);

    // first spend of 93750 at time T succeeds and is recorded
    let c1 = ctx(mint, 93_750, 1000);
    assert!(rl.process(&mut state, &c1).is_ok());
    state.update(&c1).unwrap();
    assert_eq!(state.list[0].mint, mint);
    assert_eq!(state.list[0].last_spend, 93_750);
    assert_eq!(state.list[0].last_slot, 1000);

    // a second spend at T+1 succeeds: 93750 + 93750 stays below the cap
    let c2 = ctx(mint, 93_750, 1001);
    assert!(rl.process(&mut state, &c2).is_ok());
    state.update(&c2).unwrap();

    // once the in-window sum reaches the cap, the next spend fails
    let c3 = ctx(mint, 656_250, 1002);
    assert_eq!(
        rl.process(&mut state, &c3).unwrap_err(),
        TreasuryError::RuleRateLimiterCannotExceedSpendLimit
    );

    // the clock may not run backwards
    let c4 = ctx(mint, 1, 900);
    assert_eq!(
        rl.process(&mut state, &c4).unwrap_err(),
        TreasuryError::RuleRateLimiterSlotOutOfOrder
    );

    // at T_last + window the history expires and a fresh spend succeeds
    let c5 = ctx(mint, 700_000, 1001 + 500);
    assert!(rl.process(&mut state, &c5).is_ok());
}

#[test]
fn rate_limiter_fails_closed_without_capacity() {
    let mint_a = key(3);
    let mint_b = key(4);
    let rl = RateLimiter::new(&mint_b, 750_000, 500).unwrap();
    let mut state = SpendState::new(1);
    // bind the only slot to another instrument
    state.update(&ctx(mint_a, 1, 1000)).unwrap();
    assert_eq!(
        rl.process(&mut state, &ctx(mint_b, 1, 1001)).unwrap_err(),
        TreasuryError::SpendRequestNoSpace
    );
}
