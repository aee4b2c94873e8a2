use chainlink_feed::median::median;
use chainlink_feed::store::FeedModule;
use chainlink_feed::types::{Error, Limits, OracleMeta, Round};

const FUND: u64 = 99;
const MIN_RESERVE: u64 = 100;

fn test_limits() -> Limits {
    Limits {
        fund_account: FUND,
        minimum_reserve: MIN_RESERVE,
        string_limit: 30,
        oracle_count_limit: 10,
        pruning_window: 3,
        existential_deposit: 1,
    }
}

fn new_test_module() -> FeedModule {
    let mut m = FeedModule::new(test_limits());
    m.deposit(FUND, 100 * MIN_RESERVE).expect("endowing the fund should work");
    m
}

fn default_feed(m: &mut FeedModule, count_bounds: (u32, u32), delay: u64) {
    assert!(m
        .create_feed(
            1,
            20,
            10,
            (10, 1_000),
            count_bounds,
            5,
            b"desc".to_vec(),
            delay,
            vec![(1, 4), (2, 4), (3, 4)],
            0,
        )
        .is_ok());
}

#[test]
fn median_of_singleton_and_equal_values() {
    let mut values = vec![7u64];
    assert_eq!(median(&mut values), 7);
    let mut values = vec![5u64, 5, 5, 5];
    assert_eq!(median(&mut values), 5);
}

#[test]
fn median_saturates_on_overflowing_middle_pair() {
    // the sum of the two middle elements clamps to the maximum, so the
    // "average" drops to half the maximum — below the minimum of the input
    let mut values = vec![u64::MAX, u64::MAX];
    assert_eq!(median(&mut values), u64::MAX / 2);
}

#[test]
fn round_zero_is_seeded_and_not_prunable() {
    let mut m = new_test_module();
    default_feed(&mut m, (2, 3), 0);
    let round = m.round(0, 0).expect("round zero should be present");
    assert_eq!(
        round,
        Round {
            started_at: 0,
            answer: Some(0),
            updated_at: Some(0),
            answered_in_round: Some(0),
        }
    );
    assert_eq!(m.prune(1, 0, 0, 5), Err(Error::CannotPruneRoundZero));
    assert_eq!(m.prune(1, 0, 2, 1), Err(Error::CannotPruneRoundZero));
}

#[test]
fn quorum_scenario_two_of_three_oracles() {
    // count bounds (2, 3): two equal submissions settle round 1 on that value
    let mut m = new_test_module();
    default_feed(&mut m, (2, 3), 0);
    assert!(m.submit(1, 0, 1, 500, 0).is_ok());
    let mid = m.round(0, 1).expect("round should be open");
    assert_eq!(mid.answer, None, "one submission is below the minimum count");
    assert!(m.submit(2, 0, 1, 500, 0).is_ok());
    let round = m.round(0, 1).expect("round should be present");
    assert_eq!(round.answer, Some(500));
    let feed = m.feed_config(0).expect("feed should be there");
    assert_eq!(feed.first_valid_round, Some(1));
    assert_eq!(feed.latest_round, 1);
}

#[test]
fn round_closes_at_maximum_count() {
    // count bounds (1, 2): the second submission reaches the maximum, the
    // details vanish and the round stops accepting submissions
    let mut m = new_test_module();
    default_feed(&mut m, (1, 2), 0);
    assert!(m.submit(1, 0, 1, 500, 0).is_ok());
    assert!(m.round_details(0, 1).is_some());
    assert!(m.submit(2, 0, 1, 600, 0).is_ok());
    assert!(m.round_details(0, 1).is_none(), "details should be gone at the maximum count");
    assert_eq!(m.submit(3, 0, 1, 700, 0), Err(Error::NotAcceptingSubmissions));
}

#[test]
fn reporting_order_is_enforced() {
    let mut m = new_test_module();
    default_feed(&mut m, (2, 3), 0);
    assert!(m.submit(1, 0, 1, 500, 0).is_ok());
    assert_eq!(m.submit(1, 0, 1, 500, 0), Err(Error::ReportingOrder));
    assert_eq!(m.submit(1, 0, 0, 500, 0), Err(Error::ReportingOrder));
}

#[test]
fn submitting_next_round_while_current_unanswered_fails() {
    // timeout 0 disables timing out; while round 1 has too few submissions
    // to answer, no oracle may open round 2
    let mut m = new_test_module();
    assert!(m
        .create_feed(
            1,
            20,
            0,
            (10, 1_000),
            (2, 3),
            5,
            b"desc".to_vec(),
            0,
            vec![(1, 4), (2, 4), (3, 4)],
            0,
        )
        .is_ok());
    assert!(m.submit(1, 0, 1, 500, 0).is_ok());
    assert_eq!(m.submit(2, 0, 2, 500, 0), Err(Error::RoundNotSupersedable));
    // answering round 1 makes it supersedable: round 2 opens
    assert!(m.submit(2, 0, 1, 500, 0).is_ok());
    assert!(m.submit(3, 0, 2, 500, 0).is_ok());
}

#[test]
fn requesting_unanswered_round_fails() {
    // timeout 0 disables timing out, so an unanswered round can never be
    // superseded by a requester
    let mut m = new_test_module();
    assert!(m
        .create_feed(
            1,
            20,
            0,
            (10, 1_000),
            (2, 3),
            5,
            b"desc".to_vec(),
            0,
            vec![(1, 4), (2, 4), (3, 4)],
            0,
        )
        .is_ok());
    assert!(m.set_requester(1, 0, 22, 0).is_ok());
    assert!(m.request_new_round(22, 0, 0).is_ok());
    assert_eq!(m.request_new_round(22, 0, 5), Err(Error::RoundNotSupersedable));
}

#[test]
fn requester_delay_is_enforced() {
    // delay 2: after starting round 1, the requester may only start a round
    // again once the candidate round exceeds round 3
    let mut m = new_test_module();
    default_feed(&mut m, (2, 3), 0);
    assert!(m.set_requester(1, 0, 22, 2).is_ok());
    assert!(m.request_new_round(22, 0, 0).is_ok());
    // answer rounds 1 and 2 so they are supersedable
    assert!(m.submit(1, 0, 1, 500, 0).is_ok());
    assert!(m.submit(2, 0, 1, 500, 0).is_ok());
    assert!(m.submit(1, 0, 2, 500, 0).is_ok());
    assert!(m.submit(2, 0, 2, 500, 0).is_ok());
    // candidate round 3 is not greater than 1 + 2: still too early
    assert_eq!(m.request_new_round(22, 0, 0), Err(Error::CannotRequestRoundYet));
    // answer round 3
    assert!(m.submit(1, 0, 3, 500, 0).is_ok());
    assert!(m.submit(2, 0, 3, 500, 0).is_ok());
    // candidate round 4 is greater than 1 + 2: allowed, and opens round 4
    assert!(m.request_new_round(22, 0, 0).is_ok());
    assert!(m.round(0, 4).is_some());
    assert!(m.round_details(0, 4).is_some());
}

#[test]
fn timed_out_round_inherits_predecessor_answer() {
    let mut m = new_test_module();
    // timeout 1: a round becomes timed out two blocks after it starts
    assert!(m
        .create_feed(
            1,
            20,
            1,
            (10, 1_000),
            (2, 3),
            5,
            b"desc".to_vec(),
            0,
            vec![(1, 4), (2, 4), (3, 4)],
            0,
        )
        .is_ok());
    // answer round 1 at block 1
    assert!(m.submit(1, 0, 1, 500, 1).is_ok());
    assert!(m.submit(2, 0, 1, 500, 1).is_ok());
    // round 2 starts at block 1 with one submission and never answers
    assert!(m.submit(3, 0, 2, 600, 1).is_ok());
    // at block 5 round 2 is timed out; opening round 3 force-closes it
    assert!(m.submit(1, 0, 3, 700, 5).is_ok());
    let closed = m.round(0, 2).expect("round 2 should still be present");
    assert_eq!(closed.answer, Some(500), "round 2 inherits round 1's answer");
    assert_eq!(closed.answered_in_round, Some(1));
    assert_eq!(closed.updated_at, Some(5));
    assert!(m.round_details(0, 2).is_none(), "closing removes the details");
}

#[test]
fn submission_value_bounds_are_enforced() {
    let mut m = new_test_module();
    default_feed(&mut m, (2, 3), 0);
    assert_eq!(m.submit(1, 0, 1, 9, 0), Err(Error::SubmissionBelowMinimum));
    assert_eq!(m.submit(1, 0, 1, 1_001, 0), Err(Error::SubmissionAboveMaximum));
}

#[test]
fn oracle_authorization_errors() {
    let mut m = new_test_module();
    default_feed(&mut m, (2, 3), 0);
    // not an oracle at all
    assert_eq!(m.submit(9, 0, 1, 500, 0), Err(Error::NotOracle));
    // an unknown feed means no oracle status either: the authorization
    // check comes first
    assert_eq!(m.submit(1, 5, 1, 500, 0), Err(Error::NotOracle));
    // advance to round 2 so a late-joining oracle has a starting round of 1
    assert!(m.submit(1, 0, 1, 500, 0).is_ok());
    assert!(m.submit(2, 0, 1, 500, 0).is_ok());
    assert!(m.change_oracles(1, 0, vec![], vec![(6, 9)]).is_ok());
    // oracle 6 may not report for rounds before its starting round
    assert_eq!(m.submit(6, 0, 0, 500, 0), Err(Error::OracleNotEnabled));
    // a disabled oracle may not report beyond its ending round
    assert!(m.change_oracles(1, 0, vec![3], vec![]).is_ok());
    assert_eq!(m.submit(3, 0, 2, 500, 0), Err(Error::OracleDisabled));
}

#[test]
fn oracle_set_change_errors() {
    let mut m = new_test_module();
    default_feed(&mut m, (2, 3), 0);
    assert_eq!(
        m.change_oracles(9, 0, vec![], vec![]),
        Err(Error::NotFeedOwner)
    );
    assert_eq!(
        m.change_oracles(1, 0, vec![7], vec![]),
        Err(Error::OracleNotFound)
    );
    // re-adding an enabled oracle
    assert_eq!(
        m.change_oracles(1, 0, vec![], vec![(2, 4)]),
        Err(Error::AlreadyEnabled)
    );
    // re-adding with a different admin
    assert_eq!(
        m.change_oracles(1, 0, vec![2], vec![(2, 8)]),
        Err(Error::OwnerCannotChangeAdmin)
    );
    // disabling twice in separate calls
    assert!(m.change_oracles(1, 0, vec![2], vec![]).is_ok());
    assert_eq!(
        m.change_oracles(1, 0, vec![2], vec![]),
        Err(Error::OracleDisabled)
    );
    // exceeding the oracle ceiling (limit is 10, 2 enabled + 9 new)
    let many: Vec<(u64, u64)> = (20..29).map(|o| (o, 4)).collect();
    assert_eq!(
        m.change_oracles(1, 0, vec![], many),
        Err(Error::OraclesLimitExceeded)
    );
}

#[test]
fn feed_creation_errors() {
    let mut m = new_test_module();
    // description longer than the limit of 30
    assert_eq!(
        m.create_feed(1, 20, 10, (10, 1_000), (2, 3), 5, vec![b'x'; 31], 0, vec![(1, 4)], 0),
        Err(Error::DescriptionTooLong)
    );
    // more oracles than the ceiling of 10
    let many: Vec<(u64, u64)> = (1..=11).map(|o| (o, 4)).collect();
    assert_eq!(
        m.create_feed(1, 20, 10, (10, 1_000), (2, 3), 5, b"desc".to_vec(), 0, many, 0),
        Err(Error::OraclesLimitExceeded)
    );
}

#[test]
fn update_future_rounds_errors() {
    let mut m = new_test_module();
    default_feed(&mut m, (2, 3), 0);
    assert_eq!(
        m.update_future_rounds(1, 0, 20, (3, 2), 0, 10),
        Err(Error::WrongBounds)
    );
    assert_eq!(
        m.update_future_rounds(1, 5, 20, (2, 3), 0, 10),
        Err(Error::FeedNotFound)
    );
    assert_eq!(
        m.update_future_rounds(9, 0, 20, (2, 3), 0, 10),
        Err(Error::NotFeedOwner)
    );
    // max count above the number of oracles
    assert_eq!(
        m.update_future_rounds(1, 0, 20, (2, 4), 0, 10),
        Err(Error::MaxExceededTotal)
    );
    // restart delay not below the number of oracles
    assert_eq!(
        m.update_future_rounds(1, 0, 20, (2, 3), 3, 10),
        Err(Error::DelayExceededTotal)
    );
}

#[test]
fn transfer_permission_errors() {
    let mut m = new_test_module();
    default_feed(&mut m, (2, 3), 0);
    assert_eq!(m.transfer_ownership(9, 0, 42), Err(Error::NotFeedOwner));
    assert!(m.transfer_ownership(1, 0, 42).is_ok());
    assert_eq!(m.accept_ownership(9, 0), Err(Error::NotPendingOwner));
    assert_eq!(m.transfer_admin(9, 1, 42), Err(Error::NotAdmin));
    assert!(m.transfer_admin(4, 1, 42).is_ok());
    assert_eq!(m.accept_admin(9, 1), Err(Error::NotPendingAdmin));
    assert_eq!(m.transfer_admin(4, 7, 42), Err(Error::OracleNotFound));
    assert_eq!(m.transfer_pallet_admin(9, 42), Err(Error::NotPalletAdmin));
    assert!(m.transfer_pallet_admin(FUND, 42).is_ok());
    assert_eq!(m.accept_pallet_admin(9), Err(Error::NotPendingPalletAdmin));
    assert_eq!(m.withdraw_funds(9, 5, 10), Err(Error::NotPalletAdmin));
    assert_eq!(m.withdraw_payment(9, 1, 5, 10), Err(Error::NotAdmin));
    assert_eq!(m.withdraw_payment(9, 7, 5, 10), Err(Error::OracleNotFound));
}

#[test]
fn requester_permission_errors() {
    let mut m = new_test_module();
    default_feed(&mut m, (2, 3), 0);
    assert_eq!(m.set_requester(9, 0, 22, 1), Err(Error::NotFeedOwner));
    assert_eq!(m.remove_requester(1, 0, 22), Err(Error::RequesterNotFound));
    assert_eq!(m.request_new_round(22, 0, 0), Err(Error::NotAuthorizedRequester));
    assert!(m.set_requester(1, 0, 22, 1).is_ok());
    assert!(m.remove_requester(1, 0, 22).is_ok());
}

#[test]
fn pruning_respects_window_and_bounds() {
    // with first = 1, keep = 5, latest round 8 and window 3, the effective
    // keep clamps to 5 and rounds 1 through 4 are deleted
    let mut m = new_test_module();
    default_feed(&mut m, (1, 3), 0);
    for r in 1..=8u64 {
        assert!(m.submit(1, 0, r, 500, 0).is_ok());
    }
    let feed = m.feed_config(0).expect("feed should be there");
    assert_eq!(feed.latest_round, 8);
    // nothing prunable inside the window
    assert_eq!(m.prune(1, 0, 6, 8), Err(Error::NothingToPrune));
    assert!(m.prune(1, 0, 1, 5).is_ok());
    assert!(m.round(0, 0).is_some(), "round zero survives");
    assert!(m.round(0, 4).is_none());
    let kept = m.round(0, 5).expect("round five should survive");
    assert_eq!(kept.answer, Some(500));
    let feed = m.feed_config(0).expect("feed should be there");
    assert_eq!(feed.first_valid_round, Some(5));
}

#[test]
fn pruning_on_fresh_feed_has_nothing_to_do() {
    let mut m = new_test_module();
    default_feed(&mut m, (2, 3), 0);
    assert_eq!(m.prune(1, 0, 1, 5), Err(Error::NothingToPrune));
    assert_eq!(m.prune(9, 0, 1, 5), Err(Error::NotFeedOwner));
    assert_eq!(m.prune(1, 7, 1, 5), Err(Error::FeedNotFound));
}

#[test]
fn feed_proxy_reload_and_data_at() {
    let mut m = new_test_module();
    default_feed(&mut m, (2, 3), 0);
    let mut feed = m.feed(0).expect("feed should be there");
    assert_eq!(feed.latest_round(), 0);
    // round zero is fully finalized from the start
    let genesis = feed.data_at(&m, 0).expect("round zero data should be present");
    assert_eq!(genesis.answer, 0);
    assert_eq!(genesis.answered_in_round, 0);
    // an unanswered round has no data
    assert!(m.submit(1, 0, 1, 500, 0).is_ok());
    assert_eq!(feed.data_at(&m, 1), None);
    assert_eq!(feed.data_at(&m, 9), None);
    // the proxy's copy is stale until reloaded
    assert!(m.submit(2, 0, 1, 500, 0).is_ok());
    assert_eq!(feed.latest_round(), 0);
    feed.reload(&m);
    assert_eq!(feed.latest_round(), 1);
    let data = feed.data_at(&m, 1).expect("round one data should be present");
    assert_eq!(data.answer, 500);
}

#[test]
fn ledger_overflow_is_rejected() {
    let mut m = new_test_module();
    assert_eq!(m.deposit(7, u64::MAX).is_ok(), true);
    assert_eq!(m.deposit(7, 1), Err(Error::Overflow));
}

#[test]
fn payment_accrues_per_submission() {
    let mut m = new_test_module();
    default_feed(&mut m, (2, 3), 0);
    assert!(m.submit(1, 0, 1, 500, 0).is_ok());
    let meta = m.oracle(1).expect("oracle should be present");
    assert_eq!(meta.withdrawable, 20);
    assert!(m.submit(2, 0, 1, 500, 0).is_ok());
    let meta = m.oracle(2).expect("oracle should be present");
    assert_eq!(meta.withdrawable, 20);
    // the fund's free balance dropped by the reserved payments
    assert_eq!(m.free_balance(FUND), 100 * MIN_RESERVE - 40);
}

#[test]
fn submission_fails_without_fund_balance() {
    let mut m = FeedModule::new(test_limits());
    // no deposit: the fund cannot reserve the payment
    assert!(m
        .create_feed(
            1,
            20,
            10,
            (10, 1_000),
            (2, 3),
            5,
            b"desc".to_vec(),
            0,
            vec![(1, 4), (2, 4)],
            0,
        )
        .is_ok());
    assert_eq!(m.submit(1, 0, 1, 500, 0), Err(Error::InsufficientFunds));
}

#[test]
fn withdrawable_overflow_is_rejected() {
    let mut m = new_test_module();
    default_feed(&mut m, (2, 3), 0);
    m.insert_oracle_meta(
        1,
        OracleMeta { withdrawable: u64::MAX, admin: 4, pending_admin: None },
    );
    assert_eq!(m.submit(1, 0, 1, 500, 0), Err(Error::Overflow));
}
