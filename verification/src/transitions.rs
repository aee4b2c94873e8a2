//! Transition functions: the meaning of every state-changing operation,
//! stated as a function from the store view (and plain inputs) to either the
//! next store view or the error rejecting the operation.
//!
//! Each executable operation of [`crate::store::FeedModule`] ensures that on
//! success its final view equals the transition's result and on failure its
//! view is unchanged and its error is the transition's error. The laws module
//! proves the system-wide properties from these functions alone.

use vstd::prelude::*;
use crate::median::{median_spec, sorted_values};
use crate::store::{bal, reserve_spec, transfer_spec, StoreView};
use crate::types::{
    Error, FeedConfigV, OracleMeta, OracleStatus, Requester, Round, RoundData, RoundDetailsV,
    spec_sat_sub,
};

verus! {

/// The round id a round-id option falls back to: round zero.
pub open spec fn round_or_zero(o: Option<u64>) -> u64 {
    match o {
        Some(r) => r,
        None => 0,
    }
}

/// A round is timed out when it has started, carries a positive timeout
/// snapshot, and that many blocks have passed since its start. Rounds without
/// a record or without details are never timed out.
pub open spec fn timed_out_spec(s: StoreView, feed_id: u64, round_id: u64, now: u64) -> bool {
    let started_at = if s.rounds.contains_key((feed_id, round_id)) {
        s.rounds[(feed_id, round_id)].started_at
    } else {
        0
    };
    let timeout = if s.details.contains_key((feed_id, round_id)) {
        s.details[(feed_id, round_id)].timeout
    } else {
        0
    };
    started_at > 0 && timeout > 0 && started_at + timeout < now
}

/// Sanity bound on a round's timestamps: its start plus its timeout snapshot
/// must not overflow. The configuration is assumed sane; an overflow here is
/// a contract violation, not a recoverable error.
pub open spec fn timeout_sum_ok(s: StoreView, feed_id: u64, round_id: u64) -> bool {
    let started_at = if s.rounds.contains_key((feed_id, round_id)) {
        s.rounds[(feed_id, round_id)].started_at
    } else {
        0
    };
    let timeout = if s.details.contains_key((feed_id, round_id)) {
        s.details[(feed_id, round_id)].timeout
    } else {
        0
    };
    started_at + timeout <= u64::MAX
}

/// Close a timed-out round: carry the predecessor's answer and
/// answered-in-round forward, stamp the update time, and delete the round's
/// details. Fails when the predecessor round is missing.
pub open spec fn close_timed_out_spec(s: StoreView, feed_id: u64, timed_out: u64, now: u64) -> Result<
    StoreView,
    Error,
> {
    let prev_id = spec_sat_sub(timed_out, 1);
    if !s.rounds.contains_key((feed_id, prev_id)) {
        Err(Error::RoundNotFound)
    } else if !s.rounds.contains_key((feed_id, timed_out)) {
        Err(Error::RoundNotFound)
    } else {
        let prev = s.rounds[(feed_id, prev_id)];
        let r = s.rounds[(feed_id, timed_out)];
        Ok(
            StoreView {
                rounds: s.rounds.insert(
                    (feed_id, timed_out),
                    Round {
                        started_at: r.started_at,
                        answer: prev.answer,
                        updated_at: Some(now),
                        answered_in_round: prev.answered_in_round,
                    },
                ),
                details: s.details.remove((feed_id, timed_out)),
                ..s
            },
        )
    }
}

/// Open a round. The round being superseded must itself be finalized (its
/// update time present) or timed out — otherwise the opening is refused with
/// `RoundNotSupersedable`; round zero, the genesis anchor, is always
/// supersedable. A timed-out predecessor is first force-closed; then the
/// round's details are created (snapshotting the feed's current count
/// bounds, payment and timeout) along with a fresh round record started now.
pub open spec fn initialize_round_spec(
    s: StoreView,
    feed_id: u64,
    cfg: FeedConfigV,
    new_round_id: u64,
    now: u64,
) -> Result<StoreView, Error> {
    let prev_id = spec_sat_sub(new_round_id, 1);
    if prev_id != 0 && !s.rounds.contains_key((feed_id, prev_id)) {
        Err(Error::RoundNotFound)
    } else if !(prev_id == 0 || s.rounds[(feed_id, prev_id)].updated_at is Some || timed_out_spec(
        s,
        feed_id,
        prev_id,
        now,
    )) {
        Err(Error::RoundNotSupersedable)
    } else {
        initialize_round_unchecked_spec(s, feed_id, cfg, new_round_id, now)
    }
}

/// The opening procedure itself, after the supersedability gate: force-close
/// a timed-out predecessor, then create the round's details and a fresh
/// round record.
pub open spec fn initialize_round_unchecked_spec(
    s: StoreView,
    feed_id: u64,
    cfg: FeedConfigV,
    new_round_id: u64,
    now: u64,
) -> Result<StoreView, Error> {
    let prev_id = spec_sat_sub(new_round_id, 1);
    let closed = if timed_out_spec(s, feed_id, prev_id, now) {
        close_timed_out_spec(s, feed_id, prev_id, now)
    } else {
        Ok(s)
    };
    match closed {
        Err(e) => Err(e),
        Ok(s1) => Ok(
            StoreView {
                details: s1.details.insert(
                    (feed_id, new_round_id),
                    RoundDetailsV {
                        submissions: Seq::empty(),
                        submission_count_bounds: cfg.submission_count_bounds,
                        payment_amount: cfg.payment_amount,
                        timeout: cfg.timeout,
                    },
                ),
                rounds: s1.rounds.insert(
                    (feed_id, new_round_id),
                    Round { started_at: now, answer: None, updated_at: None, answered_in_round: None },
                ),
                ..s1
            },
        ),
    }
}

/// The authorization check for a submission: the oracle must have a status for
/// the feed, be enabled no later than the round, not be disabled before it,
/// and never report a round twice or out of order.
pub open spec fn eligibility_error(s: StoreView, feed_id: u64, oracle: u64, round_id: u64) -> Option<
    Error,
> {
    if !s.oracle_stati.contains_key((feed_id, oracle)) {
        Some(Error::NotOracle)
    } else {
        let st = s.oracle_stati[(feed_id, oracle)];
        if !(st.starting_round <= round_id) {
            Some(Error::OracleNotEnabled)
        } else if st.ending_round is Some && !(st.ending_round->0 >= round_id) {
            Some(Error::OracleDisabled)
        } else if st.last_reported_round is Some && !(st.last_reported_round->0 < round_id) {
            Some(Error::ReportingOrder)
        } else {
            None
        }
    }
}

/// Accept a submission. The central operation: authorize the oracle, check
/// the value bounds, open the next round when the submission targets it, the
/// oracle may start one, and the current round is superseded (answered or
/// timed out), record the submission, finalize the answer once the
/// snapshotted minimum count is reached, credit the oracle's payment from
/// the fund's reserve, and close the round at the maximum count.
pub open spec fn submit_spec(
    s: StoreView,
    oracle: u64,
    feed_id: u64,
    round_id: u64,
    value: u64,
    now: u64,
) -> Result<StoreView, Error> {
    match eligibility_error(s, feed_id, oracle, round_id) {
        Some(e) => Err(e),
        None => {
            if !s.feeds.contains_key(feed_id) {
                Err(Error::FeedNotFound)
            } else {
                let cfg = s.feeds[feed_id];
                let st = s.oracle_stati[(feed_id, oracle)];
                if value < cfg.submission_value_bounds.0 {
                    Err(Error::SubmissionBelowMinimum)
                } else if value > cfg.submission_value_bounds.1 {
                    Err(Error::SubmissionAboveMaximum)
                } else if cfg.reporting_round + 1 > u64::MAX {
                    Err(Error::Overflow)
                } else {
                    let new_round_id = (cfg.reporting_round + 1) as u64;
                    let last_started = round_or_zero(st.last_started_round);
                    if last_started + cfg.restart_delay > u64::MAX {
                        Err(Error::Overflow)
                    } else if last_started + cfg.restart_delay + 1 > u64::MAX {
                        Err(Error::Overflow)
                    } else {
                        let next_eligible = (last_started + cfg.restart_delay + 1) as u64;
                        let eligible = round_id >= next_eligible || st.last_started_round is None;
                        let opening = round_id == new_round_id && eligible;
                        let cfg1 = if opening {
                            FeedConfigV { reporting_round: new_round_id, ..cfg }
                        } else {
                            cfg
                        };
                        let st1 = if opening {
                            OracleStatus { last_started_round: Some(new_round_id), ..st }
                        } else {
                            st
                        };
                        let init = if opening {
                            initialize_round_spec(s, feed_id, cfg1, new_round_id, now)
                        } else {
                            Ok(s)
                        };
                        match init {
                            Err(e) => Err(e),
                            Ok(s1) => submit_record_spec(
                                s1,
                                cfg1,
                                st1,
                                oracle,
                                feed_id,
                                round_id,
                                value,
                                now,
                            ),
                        }
                    }
                }
            }
        },
    }
}

/// The recording half of a submission, after authorization and any round
/// opening: append the value, update the oracle status, finalize the answer
/// at the minimum count, accrue the payment, and drop the details at the
/// maximum count.
pub open spec fn submit_record_spec(
    s1: StoreView,
    cfg1: FeedConfigV,
    st1: OracleStatus,
    oracle: u64,
    feed_id: u64,
    round_id: u64,
    value: u64,
    now: u64,
) -> Result<StoreView, Error> {
    if !s1.details.contains_key((feed_id, round_id)) {
        Err(Error::NotAcceptingSubmissions)
    } else {
        let d = s1.details[(feed_id, round_id)];
        let subs = d.submissions.push(value);
        let st2 = OracleStatus {
            last_reported_round: Some(round_id),
            latest_submission: Some(value),
            ..st1
        };
        let answering = subs.len() >= d.submission_count_bounds.0;
        if answering && !s1.rounds.contains_key((feed_id, round_id)) {
            Err(Error::RoundNotFound)
        } else {
            let rounds2 = if answering {
                s1.rounds.insert(
                    (feed_id, round_id),
                    Round {
                        started_at: s1.rounds[(feed_id, round_id)].started_at,
                        answer: Some(median_spec(subs)),
                        updated_at: Some(now),
                        answered_in_round: Some(round_id),
                    },
                )
            } else {
                s1.rounds
            };
            let cfg2 = if answering {
                FeedConfigV {
                    latest_round: round_id,
                    first_valid_round: if cfg1.first_valid_round is None {
                        Some(round_id)
                    } else {
                        cfg1.first_valid_round
                    },
                    ..cfg1
                }
            } else {
                cfg1
            };
            match reserve_spec(s1.ledger, s1.limits.fund_account, d.payment_amount) {
                Err(e) => Err(e),
                Ok(led) => {
                    if !s1.oracles.contains_key(oracle) {
                        Err(Error::OracleNotFound)
                    } else if s1.oracles[oracle].withdrawable + d.payment_amount > u64::MAX {
                        Err(Error::Overflow)
                    } else {
                        let meta = s1.oracles[oracle];
                        let meta2 = OracleMeta {
                            withdrawable: (meta.withdrawable + d.payment_amount) as u64,
                            ..meta
                        };
                        let stored_subs = if answering {
                            sorted_values(subs)
                        } else {
                            subs
                        };
                        let details2 = if subs.len() < d.submission_count_bounds.1 {
                            s1.details.insert(
                                (feed_id, round_id),
                                RoundDetailsV { submissions: stored_subs, ..d },
                            )
                        } else {
                            s1.details.remove((feed_id, round_id))
                        };
                        Ok(
                            StoreView {
                                feeds: s1.feeds.insert(feed_id, cfg2),
                                rounds: rounds2,
                                details: details2,
                                oracles: s1.oracles.insert(oracle, meta2),
                                oracle_stati: s1.oracle_stati.insert((feed_id, oracle), st2),
                                ledger: led,
                                ..s1
                            },
                        )
                    }
                },
            }
        }
    }
}

/// Enable the given oracles one at a time: create a missing global record
/// (an existing record's admin may not change), and (re-)create the feed-local
/// status unless the oracle is already enabled. Returns the updated global and
/// feed-local maps.
pub open spec fn add_oracles_spec(
    oracles: Map<u64, OracleMeta>,
    stati: Map<(u64, u64), OracleStatus>,
    feed_id: u64,
    reporting_round: u64,
    to_add: Seq<(u64, u64)>,
) -> Result<(Map<u64, OracleMeta>, Map<(u64, u64), OracleStatus>), Error>
    decreases to_add.len(),
{
    if to_add.len() == 0 {
        Ok((oracles, stati))
    } else {
        let oracle = to_add[0].0;
        let admin = to_add[0].1;
        if oracles.contains_key(oracle) && oracles[oracle].admin != admin {
            Err(Error::OwnerCannotChangeAdmin)
        } else {
            let oracles1 = if oracles.contains_key(oracle) {
                oracles
            } else {
                oracles.insert(
                    oracle,
                    OracleMeta { withdrawable: 0, admin, pending_admin: None },
                )
            };
            if stati.contains_key((feed_id, oracle)) && stati[(feed_id, oracle)].ending_round
                is None {
                Err(Error::AlreadyEnabled)
            } else {
                add_oracles_spec(
                    oracles1,
                    stati.insert(
                        (feed_id, oracle),
                        OracleStatus {
                            starting_round: reporting_round,
                            ending_round: None,
                            last_reported_round: None,
                            last_started_round: None,
                            latest_submission: None,
                        },
                    ),
                    feed_id,
                    reporting_round,
                    to_add.drop_first(),
                )
            }
        }
    }
}

/// Disable the given (deduplicated) oracles one at a time: each must have a
/// status that is not already disabled; its ending round becomes the feed's
/// current reporting round.
pub open spec fn disable_oracles_spec(
    stati: Map<(u64, u64), OracleStatus>,
    feed_id: u64,
    reporting_round: u64,
    to_disable: Seq<u64>,
) -> Result<Map<(u64, u64), OracleStatus>, Error>
    decreases to_disable.len(),
{
    if to_disable.len() == 0 {
        Ok(stati)
    } else {
        let d = to_disable[0];
        if !stati.contains_key((feed_id, d)) {
            Err(Error::OracleNotFound)
        } else if stati[(feed_id, d)].ending_round is Some {
            Err(Error::OracleDisabled)
        } else {
            disable_oracles_spec(
                stati.insert(
                    (feed_id, d),
                    OracleStatus { ending_round: Some(reporting_round), ..stati[(feed_id, d)] },
                ),
                feed_id,
                reporting_round,
                to_disable.drop_first(),
            )
        }
    }
}

/// The given sequence sorted ascending and with duplicates removed.
pub open spec fn sorted_dedup(s: Seq<u64>) -> Seq<u64> {
    dedup_sorted(sorted_values(s))
}

/// Remove adjacent duplicates (on a sorted sequence: all duplicates).
pub open spec fn dedup_sorted(s: Seq<u64>) -> Seq<u64>
    decreases s.len(),
{
    if s.len() == 0 {
        Seq::empty()
    } else if s.len() == 1 {
        s
    } else if s.last() == s[s.len() - 2] {
        dedup_sorted(s.drop_last())
    } else {
        dedup_sorted(s.drop_last()).push(s.last())
    }
}

/// Create a feed: bounded description, a fresh feed id, a genesis round zero
/// answered with zero, and the initial oracle set enabled.
pub open spec fn create_feed_spec(
    s: StoreView,
    owner: u64,
    payment_amount: u64,
    timeout: u64,
    submission_value_bounds: (u64, u64),
    submission_count_bounds: (u32, u32),
    decimals: u8,
    description: Seq<u8>,
    restart_delay: u64,
    oracles: Seq<(u64, u64)>,
    now: u64,
) -> Result<StoreView, Error> {
    if description.len() > s.limits.string_limit {
        Err(Error::DescriptionTooLong)
    } else if s.feed_counter + 1 > u64::MAX {
        Err(Error::Overflow)
    } else {
        let id = s.feed_counter;
        if oracles.len() > u32::MAX {
            Err(Error::Overflow)
        } else if oracles.len() > s.limits.oracle_count_limit {
            Err(Error::OraclesLimitExceeded)
        } else {
            match add_oracles_spec(s.oracles, s.oracle_stati, id, 0, oracles) {
                Err(e) => Err(e),
                Ok((om, sm)) => Ok(
                    StoreView {
                        feed_counter: (s.feed_counter + 1) as u64,
                        feeds: s.feeds.insert(
                            id,
                            FeedConfigV {
                                owner,
                                pending_owner: None,
                                submission_value_bounds,
                                submission_count_bounds,
                                payment_amount,
                                timeout,
                                decimals,
                                description,
                                restart_delay,
                                reporting_round: 0,
                                latest_round: 0,
                                first_valid_round: None,
                                oracle_count: oracles.len() as u32,
                            },
                        ),
                        rounds: s.rounds.insert(
                            (id, 0),
                            Round {
                                started_at: now,
                                answer: Some(0),
                                updated_at: Some(now),
                                answered_in_round: Some(0),
                            },
                        ),
                        oracles: om,
                        oracle_stati: sm,
                        ..s
                    },
                ),
            }
        }
    }
}

/// Change a feed's oracle set: disable the deduplicated disable list, then
/// enable the additions; the oracle count drops by the deduplicated disables
/// and grows by the additions, never exceeding the limit.
pub open spec fn change_oracles_spec(
    s: StoreView,
    caller: u64,
    feed_id: u64,
    to_disable: Seq<u64>,
    to_add: Seq<(u64, u64)>,
) -> Result<StoreView, Error> {
    if !s.feeds.contains_key(feed_id) {
        Err(Error::FeedNotFound)
    } else if s.feeds[feed_id].owner != caller {
        Err(Error::NotFeedOwner)
    } else {
        let cfg = s.feeds[feed_id];
        let ds = sorted_dedup(to_disable);
        let count1: int = if ds.len() > cfg.oracle_count {
            0
        } else {
            cfg.oracle_count - ds.len()
        };
        match disable_oracles_spec(s.oracle_stati, feed_id, cfg.reporting_round, ds) {
            Err(e) => Err(e),
            Ok(sm1) => {
                if count1 + to_add.len() > u32::MAX {
                    Err(Error::Overflow)
                } else if count1 + to_add.len() > s.limits.oracle_count_limit {
                    Err(Error::OraclesLimitExceeded)
                } else {
                    match add_oracles_spec(s.oracles, sm1, feed_id, cfg.reporting_round, to_add) {
                        Err(e) => Err(e),
                        Ok((om, sm2)) => Ok(
                            StoreView {
                                feeds: s.feeds.insert(
                                    feed_id,
                                    FeedConfigV {
                                        oracle_count: (count1 + to_add.len()) as u32,
                                        ..cfg
                                    },
                                ),
                                oracles: om,
                                oracle_stati: sm2,
                                ..s
                            },
                        ),
                    }
                }
            },
        }
    }
}

/// Update the parameters future rounds are opened with. The count bounds must
/// be ordered and within the oracle count, and at least one oracle must be
/// able to start a round.
pub open spec fn update_future_rounds_spec(
    s: StoreView,
    caller: u64,
    feed_id: u64,
    payment_amount: u64,
    submission_count_bounds: (u32, u32),
    restart_delay: u64,
    timeout: u64,
) -> Result<StoreView, Error> {
    if submission_count_bounds.1 < submission_count_bounds.0 {
        Err(Error::WrongBounds)
    } else if !s.feeds.contains_key(feed_id) {
        Err(Error::FeedNotFound)
    } else if s.feeds[feed_id].owner != caller {
        Err(Error::NotFeedOwner)
    } else if s.feeds[feed_id].oracle_count < submission_count_bounds.1 {
        Err(Error::MaxExceededTotal)
    } else if !(s.feeds[feed_id].oracle_count > restart_delay) {
        Err(Error::DelayExceededTotal)
    } else {
        Ok(
            StoreView {
                feeds: s.feeds.insert(
                    feed_id,
                    FeedConfigV {
                        payment_amount,
                        submission_count_bounds,
                        restart_delay,
                        timeout,
                        ..s.feeds[feed_id]
                    },
                ),
                ..s
            },
        )
    }
}

/// Withdraw accrued payment of an oracle to a recipient; only the oracle's
/// admin may, and only up to the accrued amount.
pub open spec fn withdraw_payment_spec(
    s: StoreView,
    caller: u64,
    oracle: u64,
    recipient: u64,
    amount: u64,
) -> Result<StoreView, Error> {
    if !s.oracles.contains_key(oracle) {
        Err(Error::OracleNotFound)
    } else if s.oracles[oracle].admin != caller {
        Err(Error::NotAdmin)
    } else if s.oracles[oracle].withdrawable < amount {
        Err(Error::InsufficientFunds)
    } else {
        match transfer_spec(s.ledger, s.limits.fund_account, recipient, amount, true) {
            Err(e) => Err(e),
            Ok(led) => Ok(
                StoreView {
                    oracles: s.oracles.insert(
                        oracle,
                        OracleMeta {
                            withdrawable: (s.oracles[oracle].withdrawable - amount) as u64,
                            ..s.oracles[oracle]
                        },
                    ),
                    ledger: led,
                    ..s
                },
            ),
        }
    }
}

/// Withdraw excess funds from the fund account; only the pallet admin may,
/// and the minimum reserve must remain.
pub open spec fn withdraw_funds_spec(s: StoreView, caller: u64, recipient: u64, amount: u64) -> Result<
    StoreView,
    Error,
> {
    if caller != s.pallet_admin {
        Err(Error::NotPalletAdmin)
    } else if bal(s.ledger.free, s.limits.fund_account) < amount {
        Err(Error::InsufficientFunds)
    } else if bal(s.ledger.free, s.limits.fund_account) - amount < s.limits.minimum_reserve {
        Err(Error::InsufficientReserve)
    } else {
        match transfer_spec(s.ledger, s.limits.fund_account, recipient, amount, true) {
            Err(e) => Err(e),
            Ok(led) => Ok(StoreView { ledger: led, ..s }),
        }
    }
}

/// Propose a new admin for an oracle; only the current admin may.
pub open spec fn transfer_admin_spec(s: StoreView, caller: u64, oracle: u64, new_admin: u64) -> Result<
    StoreView,
    Error,
> {
    if !s.oracles.contains_key(oracle) {
        Err(Error::OracleNotFound)
    } else if s.oracles[oracle].admin != caller {
        Err(Error::NotAdmin)
    } else {
        Ok(
            StoreView {
                oracles: s.oracles.insert(
                    oracle,
                    OracleMeta { pending_admin: Some(new_admin), ..s.oracles[oracle] },
                ),
                ..s
            },
        )
    }
}

/// Accept a proposed admin transfer for an oracle; only the pending admin may.
pub open spec fn accept_admin_spec(s: StoreView, caller: u64, oracle: u64) -> Result<
    StoreView,
    Error,
> {
    if !s.oracles.contains_key(oracle) {
        Err(Error::OracleNotFound)
    } else if s.oracles[oracle].pending_admin != Some(caller) {
        Err(Error::NotPendingAdmin)
    } else {
        Ok(
            StoreView {
                oracles: s.oracles.insert(
                    oracle,
                    OracleMeta { pending_admin: None, admin: caller, ..s.oracles[oracle] },
                ),
                ..s
            },
        )
    }
}

/// Grant (or update) requester permission with the given delay; only the feed
/// owner may. An existing record keeps its last started round.
pub open spec fn set_requester_spec(
    s: StoreView,
    caller: u64,
    feed_id: u64,
    requester: u64,
    delay: u64,
) -> Result<StoreView, Error> {
    if !s.feeds.contains_key(feed_id) {
        Err(Error::FeedNotFound)
    } else if s.feeds[feed_id].owner != caller {
        Err(Error::NotFeedOwner)
    } else {
        let prev = if s.requesters.contains_key((feed_id, requester)) {
            s.requesters[(feed_id, requester)]
        } else {
            Requester { delay: 0, last_started_round: None }
        };
        Ok(
            StoreView {
                requesters: s.requesters.insert(
                    (feed_id, requester),
                    Requester { delay, ..prev },
                ),
                ..s
            },
        )
    }
}

/// Revoke requester permission; only the feed owner may, and the record must
/// exist.
pub open spec fn remove_requester_spec(s: StoreView, caller: u64, feed_id: u64, requester: u64) -> Result<
    StoreView,
    Error,
> {
    if !s.feeds.contains_key(feed_id) {
        Err(Error::FeedNotFound)
    } else if s.feeds[feed_id].owner != caller {
        Err(Error::NotFeedOwner)
    } else if !s.requesters.contains_key((feed_id, requester)) {
        Err(Error::RequesterNotFound)
    } else {
        Ok(StoreView { requesters: s.requesters.remove((feed_id, requester)), ..s })
    }
}

/// Propose a new owner for a feed; only the current owner may.
pub open spec fn transfer_ownership_spec(s: StoreView, caller: u64, feed_id: u64, new_owner: u64) -> Result<
    StoreView,
    Error,
> {
    if !s.feeds.contains_key(feed_id) {
        Err(Error::FeedNotFound)
    } else if s.feeds[feed_id].owner != caller {
        Err(Error::NotFeedOwner)
    } else {
        Ok(
            StoreView {
                feeds: s.feeds.insert(
                    feed_id,
                    FeedConfigV { pending_owner: Some(new_owner), ..s.feeds[feed_id] },
                ),
                ..s
            },
        )
    }
}

/// Accept a proposed ownership transfer; only the pending owner may.
pub open spec fn accept_ownership_spec(s: StoreView, caller: u64, feed_id: u64) -> Result<
    StoreView,
    Error,
> {
    if !s.feeds.contains_key(feed_id) {
        Err(Error::FeedNotFound)
    } else if s.feeds[feed_id].pending_owner != Some(caller) {
        Err(Error::NotPendingOwner)
    } else {
        Ok(
            StoreView {
                feeds: s.feeds.insert(
                    feed_id,
                    FeedConfigV { pending_owner: None, owner: caller, ..s.feeds[feed_id] },
                ),
                ..s
            },
        )
    }
}

/// Propose a new pallet admin; only the current pallet admin may.
pub open spec fn transfer_pallet_admin_spec(s: StoreView, caller: u64, new_admin: u64) -> Result<
    StoreView,
    Error,
> {
    if caller != s.pallet_admin {
        Err(Error::NotPalletAdmin)
    } else {
        Ok(StoreView { pending_pallet_admin: Some(new_admin), ..s })
    }
}

/// Accept a proposed pallet admin transfer; only the pending admin may.
pub open spec fn accept_pallet_admin_spec(s: StoreView, caller: u64) -> Result<StoreView, Error> {
    if s.pending_pallet_admin != Some(caller) {
        Err(Error::NotPendingPalletAdmin)
    } else {
        Ok(StoreView { pending_pallet_admin: None, pallet_admin: caller, ..s })
    }
}

/// The keys pruned for a feed: all (feed, round) pairs in `[first, keep)`.
pub open spec fn pruned_keys(feed_id: u64, first: u64, keep: u64) -> Set<(u64, u64)> {
    Set::new(|k: (u64, u64)| k.0 == feed_id && first <= k.1 < keep)
}

/// Prune historical rounds `[first, keep)`, clamping `keep` so that the
/// retention window behind the latest round, and round zero, always survive.
/// Advances the first valid round past the pruned range.
pub open spec fn prune_spec(
    s: StoreView,
    caller: u64,
    feed_id: u64,
    first_to_prune: u64,
    keep_round: u64,
) -> Result<StoreView, Error> {
    if !(first_to_prune > 0) {
        Err(Error::CannotPruneRoundZero)
    } else if !(keep_round > first_to_prune) {
        Err(Error::CannotPruneRoundZero)
    } else if !s.feeds.contains_key(feed_id) {
        Err(Error::FeedNotFound)
    } else if s.feeds[feed_id].owner != caller {
        Err(Error::NotFeedOwner)
    } else {
        let cfg = s.feeds[feed_id];
        match cfg.first_valid_round {
            None => Err(Error::NothingToPrune),
            Some(fvr) => {
                if !(spec_sat_sub(cfg.latest_round, first_to_prune) > s.limits.pruning_window) {
                    Err(Error::NothingToPrune)
                } else {
                    let keep = if spec_sat_sub(cfg.latest_round, s.limits.pruning_window)
                        < keep_round {
                        spec_sat_sub(cfg.latest_round, s.limits.pruning_window)
                    } else {
                        keep_round
                    };
                    let new_fvr = if keep > fvr {
                        keep
                    } else {
                        fvr
                    };
                    Ok(
                        StoreView {
                            rounds: s.rounds.remove_keys(pruned_keys(feed_id, first_to_prune, keep)),
                            details: s.details.remove_keys(
                                pruned_keys(feed_id, first_to_prune, keep),
                            ),
                            feeds: s.feeds.insert(
                                feed_id,
                                FeedConfigV { first_valid_round: Some(new_fvr), ..cfg },
                            ),
                            ..s
                        },
                    )
                }
            },
        }
    }
}

/// Open a new round at a requester's prompting: the current round must be
/// superseded (answered or timed out) and the requester's per-round delay
/// respected. Advances the feed's reporting round.
pub open spec fn request_new_round_spec(s: StoreView, caller: u64, feed_id: u64, now: u64) -> Result<
    StoreView,
    Error,
> {
    if !s.requesters.contains_key((feed_id, caller)) {
        Err(Error::NotAuthorizedRequester)
    } else if !s.feeds.contains_key(feed_id) {
        Err(Error::FeedNotFound)
    } else {
        let req = s.requesters[(feed_id, caller)];
        let cfg = s.feeds[feed_id];
        if cfg.reporting_round != 0 && !s.rounds.contains_key((feed_id, cfg.reporting_round)) {
            Err(Error::RoundNotFound)
        } else {
            let first_or_updated = cfg.reporting_round == 0 || s.rounds[
                (feed_id, cfg.reporting_round)
            ].updated_at is Some;
            if !(first_or_updated || timed_out_spec(s, feed_id, cfg.reporting_round, now)) {
                Err(Error::RoundNotSupersedable)
            } else if cfg.reporting_round + 1 > u64::MAX {
                Err(Error::Overflow)
            } else {
                let new_round = (cfg.reporting_round + 1) as u64;
                let last_started = round_or_zero(req.last_started_round);
                if last_started + req.delay > u64::MAX {
                    Err(Error::Overflow)
                } else if !(req.last_started_round is None || new_round > last_started
                    + req.delay) {
                    Err(Error::CannotRequestRoundYet)
                } else {
                    match initialize_round_spec(s, feed_id, cfg, new_round, now) {
                        Err(e) => Err(e),
                        Ok(s1) => Ok(
                            StoreView {
                                requesters: s1.requesters.insert(
                                    (feed_id, caller),
                                    Requester {
                                        delay: req.delay,
                                        last_started_round: Some(new_round),
                                    },
                                ),
                                feeds: s1.feeds.insert(
                                    feed_id,
                                    FeedConfigV { reporting_round: new_round, ..cfg },
                                ),
                                ..s1
                            },
                        ),
                    }
                }
            }
        }
    }
}

/// Open a new round on out-of-band authority (no requester record needed).
/// The current round must still be superseded. Advances the feed's reporting
/// round.
pub open spec fn start_new_round_spec(s: StoreView, feed_id: u64, now: u64) -> Result<
    StoreView,
    Error,
> {
    if !s.feeds.contains_key(feed_id) {
        Err(Error::FeedNotFound)
    } else {
        let cfg = s.feeds[feed_id];
        if cfg.reporting_round != 0 && !s.rounds.contains_key((feed_id, cfg.reporting_round)) {
            Err(Error::RoundNotFound)
        } else {
            let first_or_updated = cfg.reporting_round == 0 || s.rounds[
                (feed_id, cfg.reporting_round)
            ].updated_at is Some;
            if cfg.reporting_round + 1 > u64::MAX {
                Err(Error::Overflow)
            } else if !(first_or_updated || timed_out_spec(s, feed_id, cfg.reporting_round, now)) {
                Err(Error::RoundNotSupersedable)
            } else {
                let new_round = (cfg.reporting_round + 1) as u64;
                match initialize_round_spec(s, feed_id, cfg, new_round, now) {
                    Err(e) => Err(e),
                    Ok(s1) => Ok(
                        StoreView {
                            feeds: s1.feeds.insert(
                                feed_id,
                                FeedConfigV { reporting_round: new_round, ..cfg },
                            ),
                            ..s1
                        },
                    ),
                }
            }
        }
    }
}

/// The fully finalized data of a round, when answer, update time and
/// answering round are all present.
pub open spec fn data_at_spec(s: StoreView, feed_id: u64, round_id: u64) -> Option<RoundData> {
    if !s.rounds.contains_key((feed_id, round_id)) {
        None
    } else {
        let r = s.rounds[(feed_id, round_id)];
        if r.answer is Some && r.updated_at is Some && r.answered_in_round is Some {
            Some(
                RoundData {
                    started_at: r.started_at,
                    answer: r.answer->0,
                    updated_at: r.updated_at->0,
                    answered_in_round: r.answered_in_round->0,
                },
            )
        } else {
            None
        }
    }
}

} // verus!
