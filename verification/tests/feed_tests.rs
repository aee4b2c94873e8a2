use chainlink_feed::median::median;
use chainlink_feed::store::FeedModule;
use chainlink_feed::types::{
    Error, Limits, OracleMeta, Requester, Round, RoundData, RoundDetails,
};

const FUND: u64 = 99;
const MIN_RESERVE: u64 = 100;

fn test_limits() -> Limits {
    Limits {
        fund_account: FUND,
        minimum_reserve: MIN_RESERVE,
        string_limit: 30,
        oracle_count_limit: 10,
        pruning_window: 3,
        existential_deposit: 1,
    }
}

fn new_test_module() -> FeedModule {
    let mut m = FeedModule::new(test_limits());
    m.deposit(FUND, 100 * MIN_RESERVE).expect("endowing the fund should work");
    m
}

#[test]
fn median_works() {
    let mut values = vec![4u64, 6, 2, 7];
    assert_eq!(median(&mut values), 5);
    let mut values = vec![4u64, 6, 2, 7, 9];
    assert_eq!(median(&mut values), 6);
}

#[test]
fn feed_creation_should_work() {
    let mut m = new_test_module();
    assert!(m
        .create_feed(
            1,
            20,
            10,
            (10, 1_000),
            (3, 8),
            5,
            b"desc".to_vec(),
            2,
            vec![(1, 4), (2, 4), (3, 4)],
            0,
        )
        .is_ok());
}

#[test]
fn submit_should_work() {
    let mut m = new_test_module();
    let payment_amount = 20;
    let timeout = 10;
    let submission_count_bounds = (2, 3);
    assert!(m
        .create_feed(
            1,
            payment_amount,
            timeout,
            (10, 1_000),
            submission_count_bounds,
            5,
            b"desc".to_vec(),
            0,
            vec![(1, 4), (2, 4), (3, 4)],
            0,
        )
        .is_ok());

    let feed_id = 0;
    let round_id = 1;
    let oracle = 2;
    let submission = 42;
    assert!(m.submit(oracle, feed_id, round_id, submission, 0).is_ok());
    let second_oracle = 3;
    assert!(m.submit(second_oracle, feed_id, round_id, submission, 0).is_ok());
    let round = m.round(feed_id, round_id).expect("first round should be present");
    assert_eq!(
        round,
        Round {
            started_at: 0,
            answer: Some(submission),
            updated_at: Some(0),
            answered_in_round: Some(1),
        }
    );
    let details = m
        .round_details(feed_id, round_id)
        .expect("details for first round should be present");
    assert_eq!(
        *details,
        RoundDetails {
            submissions: vec![submission, submission],
            submission_count_bounds,
            payment_amount,
            timeout,
        }
    );
    let oracle_status = m.oracle_status(feed_id, oracle).expect("oracle status should be present");
    assert_eq!(oracle_status.latest_submission, Some(submission));
}

#[test]
fn change_oracles_should_work() {
    let mut m = new_test_module();
    let initial_oracles = vec![(1, 4), (2, 4), (3, 4)];
    assert!(m
        .create_feed(
            1,
            20,
            10,
            (10, 1_000),
            (3, 8),
            5,
            b"desc".to_vec(),
            2,
            initial_oracles.clone(),
            0,
        )
        .is_ok());
    for (o, _a) in initial_oracles.iter() {
        assert!(m.oracle(*o).is_some(), "oracle should be present");
    }
    let feed_id = 0;
    let feed = m.feed_config(feed_id).expect("feed should be there");
    assert_eq!(feed.oracle_count, 3);

    let to_disable: Vec<u64> = initial_oracles.into_iter().take(2).map(|(o, _a)| o).collect();
    let to_add = vec![(6, 9), (7, 9), (8, 9)];
    assert!(m.change_oracles(1, feed_id, to_disable.clone(), to_add.clone()).is_ok());
    let feed = m.feed_config(feed_id).expect("feed should be there");
    assert_eq!(feed.oracle_count, 4);
    assert_eq!(m.oracles_len(), 6);
    assert_eq!(m.oracle_stati_len(), 6);
    for o in to_disable.iter() {
        assert!(
            m.oracle_status(feed_id, *o).unwrap().ending_round.is_some(),
            "oracle should be disabled"
        );
    }
    for (o, _a) in to_add.iter() {
        assert!(m.oracle(*o).is_some(), "oracle should be present");
    }
}

#[test]
fn oracle_deduplication() {
    let mut m = new_test_module();
    let initial_oracles = vec![(1, 4), (2, 4), (3, 4)];
    assert!(m
        .create_feed(
            1,
            20,
            10,
            (10, 1_000),
            (3, 8),
            5,
            b"desc".to_vec(),
            2,
            initial_oracles.clone(),
            0,
        )
        .is_ok());
    let feed_id = 0;
    let mut to_disable = vec![1, 2, 1];
    let to_add = vec![];
    assert!(m.change_oracles(1, feed_id, to_disable.clone(), to_add.clone()).is_ok());
    to_disable.sort();
    to_disable.dedup();
    for o in to_disable.iter() {
        assert!(
            m.oracle_status(feed_id, *o).unwrap().ending_round.is_some(),
            "oracle should be disabled"
        );
    }
    let feed = m.feed_config(feed_id).expect("feed should be there");
    assert_eq!(feed.oracle_count, 1);
}

#[test]
fn update_future_rounds_should_work() {
    let mut m = new_test_module();
    let old_payment = 20;
    let old_timeout = 10;
    let old_min_max = (3, 8);
    assert!(m
        .create_feed(
            1,
            old_payment,
            old_timeout,
            (10, 1_000),
            old_min_max,
            5,
            b"desc".to_vec(),
            2,
            vec![(1, 4), (2, 4), (3, 4)],
            0,
        )
        .is_ok());
    let feed_id = 0;
    let feed = m.feed_config(feed_id).expect("feed should be there");
    assert_eq!(feed.payment_amount, old_payment);

    let new_payment = 30;
    let new_min = 3;
    let new_max = 3;
    let new_delay = 1;
    let new_timeout = 5;
    assert!(m
        .update_future_rounds(1, feed_id, new_payment, (new_min, new_max), new_delay, new_timeout)
        .is_ok());

    let feed_id = 0;
    let feed = m.feed_config(feed_id).expect("feed should be there");
    assert_eq!(feed.payment_amount, new_payment);
}

#[test]
fn admin_transfer_should_work() {
    let mut m = new_test_module();
    let oracle = 1;
    let old_admin = 2;
    assert!(m
        .create_feed(
            1,
            20,
            10,
            (10, 1_000),
            (2, 3),
            5,
            b"desc".to_vec(),
            2,
            vec![(oracle, old_admin)],
            0,
        )
        .is_ok());

    let new_admin = 42;
    assert!(m.transfer_admin(old_admin, oracle, new_admin).is_ok());
    let oracle_meta = m.oracle(oracle).expect("oracle should be present");
    assert_eq!(oracle_meta.pending_admin, Some(new_admin));
    assert!(m.accept_admin(new_admin, oracle).is_ok());
    let oracle_meta = m.oracle(oracle).expect("oracle should be present");
    assert_eq!(oracle_meta.pending_admin, None);
    assert_eq!(oracle_meta.admin, new_admin);
}

#[test]
fn request_new_round_should_work() {
    let mut m = new_test_module();
    let owner = 1;
    let payment_amount = 20;
    let timeout = 10;
    let submission_count_bounds = (2, 3);
    assert!(m
        .create_feed(
            owner,
            payment_amount,
            timeout,
            (10, 1_000),
            submission_count_bounds,
            5,
            b"desc".to_vec(),
            2,
            vec![(2, 3)],
            0,
        )
        .is_ok());

    let feed_id = 0;
    let requester = 22;
    let delay = 4;
    assert!(m.set_requester(owner, feed_id, requester, delay).is_ok());
    let requester_meta = m.requester(feed_id, requester).expect("requester should be present");
    assert_eq!(
        requester_meta,
        Requester { delay, last_started_round: None }
    );
    assert!(m.request_new_round(requester, feed_id, 0).is_ok());
    let round_id = 1;
    let round = m.round(feed_id, round_id).expect("first round should be present");
    assert_eq!(
        round,
        Round { started_at: 0, answer: None, updated_at: None, answered_in_round: None }
    );
    let details = m
        .round_details(feed_id, round_id)
        .expect("details for first round should be present");
    assert_eq!(
        *details,
        RoundDetails {
            submissions: Vec::new(),
            submission_count_bounds,
            payment_amount,
            timeout,
        }
    );
}

#[test]
fn transfer_ownership_should_work() {
    let mut m = new_test_module();
    let old_owner = 1;
    assert!(m
        .create_feed(
            old_owner,
            20,
            10,
            (10, 1_000),
            (3, 8),
            5,
            b"desc".to_vec(),
            2,
            vec![(1, 4), (2, 4), (3, 4)],
            0,
        )
        .is_ok());

    let feed_id = 0;
    let new_owner = 42;
    assert!(m.transfer_ownership(old_owner, feed_id, new_owner).is_ok());
    let feed = m.feed_config(feed_id).expect("feed should be there");
    assert_eq!(feed.pending_owner, Some(new_owner));
    assert!(m.accept_ownership(new_owner, feed_id).is_ok());
    let feed = m.feed_config(feed_id).expect("feed should be there");
    assert_eq!(feed.pending_owner, None);
    assert_eq!(feed.owner, new_owner);
}

#[test]
fn feed_oracle_trait_should_work() {
    let mut m = new_test_module();
    let old_owner = 1;
    assert!(m
        .create_feed(
            old_owner,
            20,
            10,
            (10, 1_000),
            (2, 3),
            5,
            b"desc".to_vec(),
            2,
            vec![(1, 4), (2, 4), (3, 4)],
            0,
        )
        .is_ok());

    let feed_id = 0;
    {
        let feed = m.feed(feed_id).expect("feed should be there");
        assert_eq!(feed.first_valid_round(), None);
        assert_eq!(feed.latest_round(), 0);
        assert_eq!(feed.latest_data(&m), RoundData::default());
    }
    let round_id = 1;
    let oracle = 2;
    let submission = 42;
    assert!(m.submit(oracle, feed_id, round_id, submission, 0).is_ok());
    let second_oracle = 3;
    assert!(m.submit(second_oracle, feed_id, round_id, submission, 0).is_ok());
    {
        let feed = m.feed(feed_id).expect("feed should be there");
        assert_eq!(feed.first_valid_round(), Some(1));
        assert_eq!(feed.latest_round(), 1);
        assert_eq!(
            feed.latest_data(&m),
            RoundData { answer: 42, started_at: 0, updated_at: 0, answered_in_round: 1 }
        );

        assert!(feed.request_new_round(&mut m, 0).is_ok());
    }
    let round_id = 2;
    let round = m.round(feed_id, round_id).expect("second round should be present");
    assert_eq!(
        round,
        Round { started_at: 0, answer: None, updated_at: None, answered_in_round: None }
    );
}

#[test]
fn payment_withdrawal_should_work() {
    let mut m = new_test_module();
    let amount = 50;
    let oracle = 3;
    let admin = 4;
    let recipient = 5;
    m.insert_oracle_meta(
        oracle,
        OracleMeta { withdrawable: amount, admin, pending_admin: None },
    );
    assert_eq!(
        m.withdraw_payment(admin, oracle, recipient, 2 * amount),
        Err(Error::InsufficientFunds)
    );
    assert!(m.withdraw_payment(admin, oracle, recipient, amount).is_ok());
}

#[test]
fn funds_withdrawal_should_work() {
    let mut m = new_test_module();
    let amount = 50;
    let recipient = 5;
    let fund = FUND;
    assert_eq!(
        m.withdraw_funds(fund, recipient, 100 * MIN_RESERVE),
        Err(Error::InsufficientReserve)
    );
    assert!(m.withdraw_funds(fund, recipient, amount).is_ok());
}

#[test]
fn transfer_pallet_admin_should_work() {
    let mut m = new_test_module();
    let new_admin = 23;
    let fund = FUND;
    assert!(m.transfer_pallet_admin(fund, new_admin).is_ok());
    assert_eq!(m.pending_pallet_admin(), Some(new_admin));
    assert!(m.accept_pallet_admin(new_admin).is_ok());
    assert_eq!(m.pallet_admin(), new_admin);
    assert_eq!(m.pending_pallet_admin(), None);
}

#[test]
fn prune_should_work() {
    // Pruning scenario: rounds 1 and 2 time out, rounds 3..=7 answer, round 8
    // stays unfinished, so the reporting round runs ahead of the latest
    // round.
    let mut m = new_test_module();
    let feed_id = 0;
    let submission = 42;

    let owner = 1;
    // require a minimum of 2 submissions so that single-submission rounds can
    // time out and the first valid round is greater than 1
    let submission_count_bounds = (2, 3);
    assert!(m
        .create_feed(
            owner,
            1,
            1,
            (10, 1_000),
            submission_count_bounds,
            5,
            b"desc".to_vec(),
            0,
            vec![(1, 4), (2, 4), (3, 4)],
            0,
        )
        .is_ok());

    // submit 2 rounds that will be timed out
    assert!(m.submit(2, feed_id, 1, submission, 1).is_ok());
    assert!(m.submit(2, feed_id, 2, submission, 3).is_ok());
    // submit the valid rounds
    for r in 3..=7 {
        assert!(m.submit(2, feed_id, r, submission, 5).is_ok());
        assert!(m.submit(3, feed_id, r, submission, 5).is_ok());
    }
    // simulate an unfinished round so the reporting round differs from the
    // latest round
    assert!(m.submit(2, feed_id, 8, submission, 5).is_ok());

    assert!(m.prune(owner, feed_id, 1, 5).is_ok());
    // we try to prune until 5, but the retention window only lets us prune
    // until 4
    assert_eq!(m.round(feed_id, 3), None);
    let round = m.round(feed_id, 4).expect("fourth round should be present");
    assert_eq!(
        round,
        Round {
            started_at: 5,
            answer: Some(submission),
            updated_at: Some(5),
            answered_in_round: Some(4),
        }
    );
}
