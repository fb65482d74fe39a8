use safejar::controller::Controller;
use safejar::delegate::Delegation;
use safejar::errors::{EngineError, TreasuryError};
use safejar::hashing::hash_is_equal;
use safejar::rule::{RuleAccumulator, RuleDescriptor};
use safejar::ruleauthconstr::AuthorizationConstraint;
use safejar::ruleratelimiter::RateLimiter;
use safejar::rulesweep::Sweep;
use safejar::spend::{SpendRequest, SpendState, SpendStateSlot, TransferContext};

fn key(v: u8) -> [u8; 32] {
    [v; 32]
}

fn fresh_request() -> SpendRequest {
    SpendRequest {
        delegation: [0u8; 32],
        state: SpendState::new(0),
        context: TransferContext::new(&[0u8; 32], &[0u8; 32], &[0u8; 32], &[0u8; 32], &[0u8; 32], &0, &0),
        result: 0,
        index: 0,
        count: 0,
        tree: Vec::new(),
        hash: [0u8; 32],
    }
}

fn fresh_delegation(fingerprint: [u8; 32], count: u8, slots: u8) -> Delegation {
    let mut d = Delegation {
        bump: 0,
        controller: [0u8; 32],
        rule_set_count: 0,
        rule_set_hash: [0u8; 32],
        state: SpendState::new(0),
        requested_slot: 0,
    };
    d.init(&key(7), 1, count, &fingerprint, 0, slots).unwrap();
    d
}

#[test]
fn hash_is_equal_compares_byte_for_byte() {
    assert!(hash_is_equal(&[1, 2, 3], &[1, 2, 3]));
    assert!(!hash_is_equal(&[1, 2, 3], &[1, 2, 4]));
    assert!(!hash_is_equal(&[1, 2], &[1, 2, 3]));
    assert!(hash_is_equal(&[], &[]));
}

#[test]
fn controller_init_resets_delegation_count() {
    let mut c = Controller { bump: 0, owner: [0u8; 32], rules: key(9), delegation_count: 55 };
    c.init(&3, &key(8));
    assert_eq!(c.bump, 3);
    assert_eq!(c.owner, key(8));
    assert_eq!(c.delegation_count, 0);
    assert_eq!(c.rules, key(9));
}

#[test]
fn delegation_init_rejects_short_fingerprint() {
    let mut d = Delegation {
        bump: 0,
        controller: [0u8; 32],
        rule_set_count: 0,
        rule_set_hash: [0u8; 32],
        state: SpendState::new(0),
        requested_slot: 0,
    };
    assert_eq!(d.init(&key(7), 1, 2, &[1, 2, 3], 0, 4).unwrap_err(), TreasuryError::BadHash);
    assert!(d.init(&key(7), 1, 2, &key(5), 77, 4).is_ok());
    assert_eq!(d.rule_set_hash, key(5));
    assert_eq!(d.rule_set_count, 2);
    assert_eq!(d.requested_slot, 77);
    assert_eq!(d.state.list.len(), 4);
}

#[test]
fn ledger_scan_is_deterministic_and_bounded() {
    let mut state = SpendState::new(2);
    let a = key(1);
    let b = key(2);
    let c = key(3);
    assert_eq!(state.find(&a).unwrap(), 0);
    assert_eq!(state.list[0].mint, a);
    // a second lookup for the same instrument lands on the same slot
    assert_eq!(state.find(&a).unwrap(), 0);
    assert_eq!(state.find(&b).unwrap(), 1);
    assert_eq!(state.find(&c).unwrap_err(), TreasuryError::SpendRequestNoSpace);
}

#[test]
fn ledger_clean_resets_stale_slots() {
    let mut state = SpendState::new(2);
    let c1 = TransferContext::new(&key(1), &key(11), &key(12), &key(13), &key(14), &10, &100);
    let c2 = TransferContext::new(&key(2), &key(11), &key(12), &key(13), &key(14), &20, &900);
    state.update(&c1).unwrap();
    state.update(&c2).unwrap();
    state.clean(500);
    assert_eq!(state.list[0].mint, [0u8; 32]);
    assert_eq!(state.list[0].last_spend, 0);
    assert_eq!(state.list[1].mint, key(2));
    assert_eq!(state.list[1].last_spend, 20);
}

#[test]
fn slot_blank_test_matches_zero_sentinel() {
    let s = SpendStateSlot::new();
    assert!(s.is_blank());
    let mut t = s;
    t.mint = key(1);
    assert!(!t.is_blank());
}

#[test]
fn sweep_commit_leaves_rate_history_unchanged() {
    let mint = key(3);
    let mut state = SpendState::new(2);
    let spend = TransferContext::new(&mint, &key(11), &key(12), &key(13), &key(14), &40, &100);
    state.update(&spend).unwrap();
    assert_eq!(state.list[0].last_spend, 40);

    let mut sweep = TransferContext::new(&mint, &key(11), &key(12), &key(13), &key(14), &999, &200);
    sweep.is_sweep = true;
    state.update(&sweep).unwrap();
    assert_eq!(state.list[0].last_spend, 40, "a sweep must not touch the recorded spend");
    assert_eq!(state.list[0].last_slot, 100, "a sweep must not touch the recorded time");
}

#[test]
fn request_init_snapshots_and_reserves() {
    let tree = vec![255u8, 1, 0, 1];
    let mint = key(3);
    let state = SpendState::new(2);
    let ctx = TransferContext::new(&mint, &key(11), &key(12), &key(13), &key(14), &5, &100);
    let mut req = fresh_request();
    req.init(&key(9), &state, &ctx, &tree).unwrap();
    assert_eq!(req.delegation, key(9));
    assert_eq!(req.count, 2);
    assert_eq!(req.index, 0);
    assert_eq!(req.result, 0);
    assert_eq!(req.tree, tree);
    assert_eq!(req.state.list[0].mint, mint);
    assert_eq!(req.state.list[0].index, 1, "creating a request reserves the slot");
    let mut input = vec![0u8; 32];
    input.extend_from_slice(&tree);
    let expect = anchor_lang::solana_program::hash::hash(&input).to_bytes();
    assert_eq!(req.hash, expect, "the request binds itself to the exact tree bytes");
}

#[test]
fn request_init_rejects_bad_tree_and_full_ledger() {
    let mint = key(3);
    let ctx = TransferContext::new(&mint, &key(11), &key(12), &key(13), &key(14), &5, &100);
    let mut req = fresh_request();
    assert_eq!(
        req.init(&key(9), &SpendState::new(2), &ctx, &vec![255u8, 9, 0, 1]).unwrap_err(),
        EngineError::Tree(safejar::errors::BooleanTreeError::BadBoolean)
    );
    let mut full = SpendState::new(1);
    full.update(&TransferContext::new(&key(4), &key(11), &key(12), &key(13), &key(14), &1, &1))
        .unwrap();
    assert_eq!(
        req.init(&key(9), &full, &ctx, &vec![0u8]).unwrap_err(),
        EngineError::Treasury(TreasuryError::SpendRequestNoSpace)
    );
}

#[test]
fn request_process_past_count_fails() {
    let mut req = fresh_request();
    req.init(
        &key(9),
        &SpendState::new(1),
        &TransferContext::new(&key(3), &key(11), &key(12), &key(13), &key(14), &5, &100),
        &vec![0u8],
    )
    .unwrap();
    let rule = RuleDescriptor::AuthorizationConstraint(AuthorizationConstraint::new(&key(2), None));
    assert!(req.process(&rule).is_ok());
    assert_eq!(req.process(&rule).unwrap_err(), TreasuryError::RuleOutOfRange);
}

#[test]
fn request_records_failed_rule_as_cleared_bit() {
    let mut req = fresh_request();
    req.init(
        &key(9),
        &SpendState::new(1),
        &TransferContext::new(&key(3), &key(11), &key(12), &key(13), &key(14), &5, &100),
        &vec![255u8, 0, 0, 1],
    )
    .unwrap();
    let failing =
        RuleDescriptor::AuthorizationConstraint(AuthorizationConstraint::new(&key(2), None));
    let passing = RuleDescriptor::AuthorizationConstraint(
        AuthorizationConstraint::new(&key(2), Some(key(2))),
    );
    assert!(req.process(&failing).is_ok(), "a failed rule does not abort the request");
    assert!(req.process(&passing).is_ok());
    assert_eq!(req.result, 0b10);
    assert_eq!(req.index, 2);
}

#[test]
fn sweep_rule_marks_request_as_sweep() {
    let mut req = fresh_request();
    req.init(
        &key(9),
        &SpendState::new(1),
        &TransferContext::new(&key(3), &key(11), &key(12), &key(13), &key(14), &5, &100),
        &vec![0u8],
    )
    .unwrap();
    assert!(!req.context.is_sweep);
    let sweep = RuleDescriptor::Sweep(Sweep::new(&key(14), &key(3), 50, 10));
    assert!(req.process(&sweep).is_ok());
    assert!(req.context.is_sweep);
}

#[test]
fn out_of_order_processing_fails_fingerprint_check() {
    let tree = vec![255u8, 1, 0, 1];
    let r0 = RuleDescriptor::ProgramConstraint(safejar::ruleprogconstr::ProgramConstraint::new(
        &key(11),
    ));
    let r1 = RuleDescriptor::AuthorizationConstraint(
        AuthorizationConstraint::new(&key(2), Some(key(2))),
    );
    let mut ra = RuleAccumulator::new(&key(7), &tree).unwrap();
    ra.add(&r0).unwrap();
    ra.add(&r1).unwrap();
    let mut delegation = fresh_delegation(ra.hash, ra.count, 2);

    let ctx = TransferContext::new(&key(3), &key(11), &key(12), &key(13), &key(14), &5, &100);
    let mut req = fresh_request();
    req.init(&delegation.controller, &delegation.state, &ctx, &tree).unwrap();
    // both rules pass on their own, but they are processed out of order
    assert!(req.process(&r1).is_ok());
    assert!(req.process(&r0).is_ok());
    assert_eq!(req.result, 0b11);
    assert_eq!(
        req.complete(&mut delegation).unwrap_err(),
        EngineError::Treasury(TreasuryError::BadHash)
    );
}

#[test]
fn incomplete_processing_cannot_complete() {
    let tree = vec![255u8, 1, 0, 1];
    let r0 = RuleDescriptor::ProgramConstraint(safejar::ruleprogconstr::ProgramConstraint::new(
        &key(11),
    ));
    let ra = RuleAccumulator::new(&key(7), &tree).unwrap();
    let mut delegation = fresh_delegation(ra.hash, ra.count, 2);
    let ctx = TransferContext::new(&key(3), &key(11), &key(12), &key(13), &key(14), &5, &100);
    let mut req = fresh_request();
    req.init(&delegation.controller, &delegation.state, &ctx, &tree).unwrap();
    assert!(req.process(&r0).is_ok());
    assert_eq!(
        req.complete(&mut delegation).unwrap_err(),
        EngineError::Treasury(TreasuryError::RuleOutOfRange)
    );
}

#[test]
fn end_to_end_and_policy() {
    // rule set: [RateLimiter(max=10, window=500), AuthorizationConstraint(A)], AND-combined
    let tree = vec![255u8, 1, 0, 1];
    let mint = key(3);
    let signer_a = key(2);
    let rl = RuleDescriptor::RateLimiter(RateLimiter::new(&mint, 10, 500).unwrap());
    let ac_signed = RuleDescriptor::AuthorizationConstraint(
        AuthorizationConstraint::new(&signer_a, Some(signer_a)),
    );
    let ac_unsigned =
        RuleDescriptor::AuthorizationConstraint(AuthorizationConstraint::new(&signer_a, None));

    let mut ra = RuleAccumulator::new(&key(7), &tree).unwrap();
    ra.add(&rl).unwrap();
    ra.add(&ac_signed).unwrap();

    let ctx = TransferContext::new(&mint, &key(11), &key(12), &key(13), &key(14), &5, &100);

    // without A's authorization: bitmask 0b01, AND(0, 1) is false, completion is rejected
    let mut delegation = fresh_delegation(ra.hash, ra.count, 2);
    let mut req = fresh_request();
    req.init(&delegation.controller, &delegation.state, &ctx, &tree).unwrap();
    assert!(req.process(&rl).is_ok());
    assert!(req.process(&ac_unsigned).is_ok());
    assert_eq!(req.result, 0b01);
    assert_eq!(
        req.complete(&mut delegation).unwrap_err(),
        EngineError::Treasury(TreasuryError::RuleEvalFalse)
    );
    assert_eq!(delegation.state.list[0].last_spend, 0, "no effect is committed on rejection");

    // with A's authorization: bitmask 0b11, the tree accepts, the ledger updates
    let mut delegation = fresh_delegation(ra.hash, ra.count, 2);
    let mut req = fresh_request();
    req.init(&delegation.controller, &delegation.state, &ctx, &tree).unwrap();
    assert!(req.process(&rl).is_ok());
    assert!(req.process(&ac_signed).is_ok());
    assert_eq!(req.result, 0b11);
    assert!(req.complete(&mut delegation).is_ok());
    assert_eq!(delegation.state.list[0].mint, mint);
    assert_eq!(delegation.state.list[0].last_spend, 5);
    assert_eq!(delegation.state.list[0].last_slot, 100);
}

#[test]
fn completion_requires_matching_fingerprint_even_when_tree_accepts() {
    let tree = vec![0u8];
    let r0 = RuleDescriptor::ProgramConstraint(safejar::ruleprogconstr::ProgramConstraint::new(
        &key(11),
    ));
    // the delegation committed a fingerprint including r0; the request never folds it
    let mut with_rule = RuleAccumulator::new(&key(7), &tree).unwrap();
    with_rule.add(&r0).unwrap();
    let mut delegation = fresh_delegation(with_rule.hash, with_rule.count, 2);

    let ctx = TransferContext::new(&key(3), &key(11), &key(12), &key(13), &key(14), &5, &100);
    let mut req = fresh_request();
    req.init(&delegation.controller, &delegation.state, &ctx, &tree).unwrap();
    let passing = RuleDescriptor::AuthorizationConstraint(
        AuthorizationConstraint::new(&key(2), Some(key(2))),
    );
    assert!(req.process(&passing).is_ok());
    assert_eq!(req.result, 0b1);
    assert_eq!(
        req.complete(&mut delegation).unwrap_err(),
        EngineError::Treasury(TreasuryError::BadHash)
    );
}

#[test]
fn transfer_plan_zero_amount_means_whole_balance() {
    assert_eq!(safejar::controller::transfer_plan(0, 700), (700, true));
    assert_eq!(safejar::controller::transfer_plan(700, 700), (700, true));
    assert_eq!(safejar::controller::transfer_plan(300, 700), (300, false));
}

#[test]
fn subsidy_split_returns_exact_change() {
    assert_eq!(safejar::sol::subsidy_split(1000, 250), Ok((250, 750)));
    assert_eq!(safejar::sol::subsidy_split(1000, 1000), Ok((1000, 0)));
    assert_eq!(
        safejar::sol::subsidy_split(999, 1000),
        Err(TreasuryError::BalanceInsufficient)
    );
}
