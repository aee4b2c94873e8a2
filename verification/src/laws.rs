//! System-wide laws of the engine, proved from the transition functions
//! alone: the genesis round's permanence, round-closure behaviour, reporting
//! order, supersedability, answer inheritance under missed rounds, and oracle
//! count accounting.

use vstd::prelude::*;
use crate::store::{initial_state, StoreView};
use crate::transitions::{
    accept_admin_spec, accept_ownership_spec, accept_pallet_admin_spec, change_oracles_spec,
    close_timed_out_spec, create_feed_spec, data_at_spec, disable_oracles_spec,
    initialize_round_spec, prune_spec, remove_requester_spec, request_new_round_spec,
    round_or_zero, set_requester_spec, sorted_dedup, start_new_round_spec, submit_spec,
    timed_out_spec, transfer_admin_spec, transfer_ownership_spec, transfer_pallet_admin_spec,
    update_future_rounds_spec, withdraw_funds_spec, withdraw_payment_spec,
};
use crate::types::{Error, Limits, Round, spec_sat_sub};

verus! {

// ------------------------------------------------------------------
// The genesis round: every feed's round zero exists, answers zero, and
// never accepts submissions.
// ------------------------------------------------------------------

/// Every feed's round zero exists fully finalized: answer zero, answered in
/// round zero, update time present.
pub open spec fn genesis_ok(s: StoreView) -> bool {
    forall|f: u64| #[trigger]
        s.feeds.contains_key(f) ==> s.rounds.contains_key((f, 0u64)) && s.rounds[
            (f, 0u64)
        ].answer == Some(0u64) && s.rounds[(f, 0u64)].answered_in_round == Some(0u64) && s.rounds[
            (f, 0u64)
        ].updated_at is Some
}

/// No round zero carries details: round zero never accepts submissions.
pub open spec fn no_details_at_zero(s: StoreView) -> bool {
    forall|f: u64| !(#[trigger] s.details.contains_key((f, 0u64)))
}

/// The genesis invariant, preserved by every operation.
pub open spec fn round_zero_ok(s: StoreView) -> bool {
    genesis_ok(s) && no_details_at_zero(s)
}

/// The fresh engine satisfies the genesis invariant (vacuously: no feeds).
pub proof fn lemma_round_zero_initial(limits: Limits)
    ensures
        round_zero_ok(initial_state(limits)),
{
}

/// An operation that leaves rounds and details alone and adds no new feed
/// preserves the genesis invariant.
pub proof fn lemma_round_zero_frame(s: StoreView, s2: StoreView)
    requires
        round_zero_ok(s),
        s2.rounds == s.rounds,
        s2.details == s.details,
        forall|f: u64| #[trigger] s2.feeds.contains_key(f) ==> s.feeds.contains_key(f),
    ensures
        round_zero_ok(s2),
{
}

/// Creating a feed preserves the genesis invariant: the new feed's round
/// zero is seeded with the answer zero.
pub proof fn lemma_round_zero_create_feed(
    s: StoreView,
    owner: u64,
    payment_amount: u64,
    timeout: u64,
    submission_value_bounds: (u64, u64),
    submission_count_bounds: (u32, u32),
    decimals: u8,
    description: Seq<u8>,
    restart_delay: u64,
    oracles: Seq<(u64, u64)>,
    now: u64,
)
    requires
        round_zero_ok(s),
        create_feed_spec(
            s,
            owner,
            payment_amount,
            timeout,
            submission_value_bounds,
            submission_count_bounds,
            decimals,
            description,
            restart_delay,
            oracles,
            now,
        ) is Ok,
    ensures
        round_zero_ok(
            create_feed_spec(
                s,
                owner,
                payment_amount,
                timeout,
                submission_value_bounds,
                submission_count_bounds,
                decimals,
                description,
                restart_delay,
                oracles,
                now,
            )->Ok_0,
        ),
{
}

/// Opening a round preserves the genesis invariant: only rounds at ids one
/// and above are created or force-closed.
pub proof fn lemma_round_zero_initialize(
    s: StoreView,
    feed_id: u64,
    cfg: crate::types::FeedConfigV,
    new_round_id: u64,
    now: u64,
)
    requires
        round_zero_ok(s),
        new_round_id >= 1,
        initialize_round_spec(s, feed_id, cfg, new_round_id, now) is Ok,
    ensures
        round_zero_ok(initialize_round_spec(s, feed_id, cfg, new_round_id, now)->Ok_0),
        initialize_round_spec(s, feed_id, cfg, new_round_id, now)->Ok_0.feeds == s.feeds,
{
    let prev_id = spec_sat_sub(new_round_id, 1);
    if timed_out_spec(s, feed_id, prev_id, now) {
        assert(s.details.contains_key((feed_id, prev_id)));
        assert(prev_id != 0);
    }
}

/// A submission preserves the genesis invariant: round zero never carries
/// details, so it is never the accepting round and never modified.
pub proof fn lemma_round_zero_submit(
    s: StoreView,
    oracle: u64,
    feed_id: u64,
    round_id: u64,
    value: u64,
    now: u64,
)
    requires
        round_zero_ok(s),
        submit_spec(s, oracle, feed_id, round_id, value, now) is Ok,
    ensures
        round_zero_ok(submit_spec(s, oracle, feed_id, round_id, value, now)->Ok_0),
{
    let cfg = s.feeds[feed_id];
    let st = s.oracle_stati[(feed_id, oracle)];
    let new_round_id = (cfg.reporting_round + 1) as u64;
    let last_started = round_or_zero(st.last_started_round);
    let next_eligible = (last_started + cfg.restart_delay + 1) as u64;
    let eligible = round_id >= next_eligible || st.last_started_round is None;
    let opening = round_id == new_round_id && eligible;
    if opening {
        let cfg1 = crate::types::FeedConfigV { reporting_round: new_round_id, ..cfg };
        lemma_round_zero_initialize(s, feed_id, cfg1, new_round_id, now);
    }
}

/// A requester-initiated round preserves the genesis invariant.
pub proof fn lemma_round_zero_request(s: StoreView, caller: u64, feed_id: u64, now: u64)
    requires
        round_zero_ok(s),
        request_new_round_spec(s, caller, feed_id, now) is Ok,
    ensures
        round_zero_ok(request_new_round_spec(s, caller, feed_id, now)->Ok_0),
{
    let cfg = s.feeds[feed_id];
    let new_round = (cfg.reporting_round + 1) as u64;
    lemma_round_zero_initialize(s, feed_id, cfg, new_round, now);
}

/// An out-of-band round start preserves the genesis invariant.
pub proof fn lemma_round_zero_start(s: StoreView, feed_id: u64, now: u64)
    requires
        round_zero_ok(s),
        start_new_round_spec(s, feed_id, now) is Ok,
    ensures
        round_zero_ok(start_new_round_spec(s, feed_id, now)->Ok_0),
{
    let cfg = s.feeds[feed_id];
    let new_round = (cfg.reporting_round + 1) as u64;
    lemma_round_zero_initialize(s, feed_id, cfg, new_round, now);
}

/// Pruning preserves the genesis invariant: round zero is never prunable,
/// because pruning starts at round one or later.
pub proof fn lemma_round_zero_prune(
    s: StoreView,
    caller: u64,
    feed_id: u64,
    first_to_prune: u64,
    keep_round: u64,
)
    requires
        round_zero_ok(s),
        prune_spec(s, caller, feed_id, first_to_prune, keep_round) is Ok,
    ensures
        round_zero_ok(prune_spec(s, caller, feed_id, first_to_prune, keep_round)->Ok_0),
        forall|f: u64| #[trigger]
            s.rounds.contains_key((f, 0u64)) ==> prune_spec(
                s,
                caller,
                feed_id,
                first_to_prune,
                keep_round,
            )->Ok_0.rounds.contains_key((f, 0u64)) && prune_spec(
                s,
                caller,
                feed_id,
                first_to_prune,
                keep_round,
            )->Ok_0.rounds[(f, 0u64)] == s.rounds[(f, 0u64)],
{
}

/// Changing the oracle set preserves the genesis invariant: rounds and
/// details are untouched and no feed is created.
pub proof fn lemma_round_zero_change_oracles(
    s: StoreView,
    caller: u64,
    feed_id: u64,
    to_disable: Seq<u64>,
    to_add: Seq<(u64, u64)>,
)
    requires
        round_zero_ok(s),
        change_oracles_spec(s, caller, feed_id, to_disable, to_add) is Ok,
    ensures
        round_zero_ok(change_oracles_spec(s, caller, feed_id, to_disable, to_add)->Ok_0),
{
    lemma_round_zero_frame(s, change_oracles_spec(s, caller, feed_id, to_disable, to_add)->Ok_0);
}

/// The configuration, permission, withdrawal and ownership operations all
/// preserve the genesis invariant: none touches rounds or details, and none
/// creates a feed.
pub proof fn lemma_round_zero_config_ops(
    s: StoreView,
    caller: u64,
    a: u64,
    b: u64,
    c: u64,
    d: u64,
    bounds: (u32, u32),
)
    requires
        round_zero_ok(s),
    ensures
        update_future_rounds_spec(s, caller, a, b, bounds, c, d) is Ok ==> round_zero_ok(
            update_future_rounds_spec(s, caller, a, b, bounds, c, d)->Ok_0,
        ),
        withdraw_payment_spec(s, caller, a, b, c) is Ok ==> round_zero_ok(
            withdraw_payment_spec(s, caller, a, b, c)->Ok_0,
        ),
        withdraw_funds_spec(s, caller, a, b) is Ok ==> round_zero_ok(
            withdraw_funds_spec(s, caller, a, b)->Ok_0,
        ),
        transfer_admin_spec(s, caller, a, b) is Ok ==> round_zero_ok(
            transfer_admin_spec(s, caller, a, b)->Ok_0,
        ),
        accept_admin_spec(s, caller, a) is Ok ==> round_zero_ok(
            accept_admin_spec(s, caller, a)->Ok_0,
        ),
        set_requester_spec(s, caller, a, b, c) is Ok ==> round_zero_ok(
            set_requester_spec(s, caller, a, b, c)->Ok_0,
        ),
        remove_requester_spec(s, caller, a, b) is Ok ==> round_zero_ok(
            remove_requester_spec(s, caller, a, b)->Ok_0,
        ),
        transfer_ownership_spec(s, caller, a, b) is Ok ==> round_zero_ok(
            transfer_ownership_spec(s, caller, a, b)->Ok_0,
        ),
        accept_ownership_spec(s, caller, a) is Ok ==> round_zero_ok(
            accept_ownership_spec(s, caller, a)->Ok_0,
        ),
        transfer_pallet_admin_spec(s, caller, a) is Ok ==> round_zero_ok(
            transfer_pallet_admin_spec(s, caller, a)->Ok_0,
        ),
        accept_pallet_admin_spec(s, caller) is Ok ==> round_zero_ok(
            accept_pallet_admin_spec(s, caller)->Ok_0,
        ),
{
}

// ------------------------------------------------------------------
// Round closure: details vanish exactly when the maximum count is reached,
// and a closed round accepts no further submissions.
// ------------------------------------------------------------------

/// Whether a submission for `round_id` targets the next round by an oracle
/// permitted to start it. The opening then further requires the current
/// reporting round to be superseded (answered or timed out).
pub open spec fn submit_opens(s: StoreView, oracle: u64, feed_id: u64, round_id: u64) -> bool {
    let cfg = s.feeds[feed_id];
    let st = s.oracle_stati[(feed_id, oracle)];
    round_id == cfg.reporting_round + 1 && (st.last_started_round is None || round_id
        >= round_or_zero(st.last_started_round) + cfg.restart_delay + 1)
}

/// After an accepted submission, the round's details remain present exactly
/// while the submission count is below the snapshotted maximum: reaching the
/// maximum closes the round.
pub proof fn lemma_details_present_iff_below_max(
    s: StoreView,
    oracle: u64,
    feed_id: u64,
    round_id: u64,
    value: u64,
    now: u64,
)
    requires
        submit_spec(s, oracle, feed_id, round_id, value, now) is Ok,
    ensures
        ({
            let s2 = submit_spec(s, oracle, feed_id, round_id, value, now)->Ok_0;
            if submit_opens(s, oracle, feed_id, round_id) {
                s2.details.contains_key((feed_id, round_id)) <==> 1 < s.feeds[
                    feed_id
                ].submission_count_bounds.1
            } else {
                s.details.contains_key((feed_id, round_id)) && (s2.details.contains_key(
                    (feed_id, round_id),
                ) <==> s.details[(feed_id, round_id)].submissions.len() + 1 < s.details[
                    (feed_id, round_id)
                ].submission_count_bounds.1)
            }
        }),
{
}

/// A submission to a round that is not accepting submissions (its details
/// are absent — closed or never opened) and that would not open the next
/// round is rejected with exactly `NotAcceptingSubmissions`.
pub proof fn lemma_closed_round_rejects(
    s: StoreView,
    oracle: u64,
    feed_id: u64,
    round_id: u64,
    value: u64,
    now: u64,
)
    requires
        crate::transitions::eligibility_error(s, feed_id, oracle, round_id) is None,
        s.feeds.contains_key(feed_id),
        s.feeds[feed_id].submission_value_bounds.0 <= value,
        value <= s.feeds[feed_id].submission_value_bounds.1,
        s.feeds[feed_id].reporting_round + 1 <= u64::MAX,
        round_or_zero(s.oracle_stati[(feed_id, oracle)].last_started_round) + s.feeds[
            feed_id
        ].restart_delay + 1 <= u64::MAX,
        !submit_opens(s, oracle, feed_id, round_id),
        !s.details.contains_key((feed_id, round_id)),
    ensures
        submit_spec(s, oracle, feed_id, round_id, value, now) == Err::<StoreView, Error>(
            Error::NotAcceptingSubmissions,
        ),
{
}

// ------------------------------------------------------------------
// Reporting order: an oracle can never report twice for non-increasing
// round ids on the same feed.
// ------------------------------------------------------------------

/// Two consecutive accepted submissions by the same oracle on the same feed
/// have strictly increasing round ids.
pub proof fn lemma_reporting_order(
    s: StoreView,
    oracle: u64,
    feed_id: u64,
    r1: u64,
    v1: u64,
    t1: u64,
    r2: u64,
    v2: u64,
    t2: u64,
)
    requires
        submit_spec(s, oracle, feed_id, r1, v1, t1) is Ok,
        submit_spec(submit_spec(s, oracle, feed_id, r1, v1, t1)->Ok_0, oracle, feed_id, r2, v2, t2)
            is Ok,
    ensures
        r2 > r1,
{
    let s1 = submit_spec(s, oracle, feed_id, r1, v1, t1)->Ok_0;
    assert(s1.oracle_stati[(feed_id, oracle)].last_reported_round == Some(r1));
}

/// A repeated or out-of-order report is rejected with exactly
/// `ReportingOrder`.
pub proof fn lemma_reporting_order_rejects(
    s: StoreView,
    oracle: u64,
    feed_id: u64,
    round_id: u64,
    value: u64,
    now: u64,
)
    requires
        s.oracle_stati.contains_key((feed_id, oracle)),
        s.oracle_stati[(feed_id, oracle)].starting_round <= round_id,
        s.oracle_stati[(feed_id, oracle)].ending_round is Some ==> s.oracle_stati[
            (feed_id, oracle)
        ].ending_round->0 >= round_id,
        s.oracle_stati[(feed_id, oracle)].last_reported_round is Some,
        s.oracle_stati[(feed_id, oracle)].last_reported_round->0 >= round_id,
    ensures
        submit_spec(s, oracle, feed_id, round_id, value, now) == Err::<StoreView, Error>(
            Error::ReportingOrder,
        ),
{
}

// ------------------------------------------------------------------
// Supersedability: a new round can be requested only once the current one
// is answered or timed out.
// ------------------------------------------------------------------

/// A successful requester-initiated round implies the superseded round was
/// answered (update time present) or timed out.
pub proof fn lemma_request_requires_supersedable(s: StoreView, caller: u64, feed_id: u64, now: u64)
    requires
        request_new_round_spec(s, caller, feed_id, now) is Ok,
        s.feeds[feed_id].reporting_round != 0,
    ensures
        s.rounds.contains_key((feed_id, s.feeds[feed_id].reporting_round)),
        s.rounds[(feed_id, s.feeds[feed_id].reporting_round)].updated_at is Some || timed_out_spec(
            s,
            feed_id,
            s.feeds[feed_id].reporting_round,
            now,
        ),
{
}

/// Requesting while the current round is unanswered and not timed out fails
/// with exactly `RoundNotSupersedable`.
pub proof fn lemma_request_not_supersedable(s: StoreView, caller: u64, feed_id: u64, now: u64)
    requires
        s.requesters.contains_key((feed_id, caller)),
        s.feeds.contains_key(feed_id),
        s.feeds[feed_id].reporting_round != 0,
        s.rounds.contains_key((feed_id, s.feeds[feed_id].reporting_round)),
        s.rounds[(feed_id, s.feeds[feed_id].reporting_round)].updated_at is None,
        !timed_out_spec(s, feed_id, s.feeds[feed_id].reporting_round, now),
    ensures
        request_new_round_spec(s, caller, feed_id, now) == Err::<StoreView, Error>(
            Error::RoundNotSupersedable,
        ),
{
}

/// The same two facts for an out-of-band round start.
pub proof fn lemma_start_not_supersedable(s: StoreView, feed_id: u64, now: u64)
    requires
        s.feeds.contains_key(feed_id),
        s.feeds[feed_id].reporting_round != 0,
        s.feeds[feed_id].reporting_round < u64::MAX,
        s.rounds.contains_key((feed_id, s.feeds[feed_id].reporting_round)),
        s.rounds[(feed_id, s.feeds[feed_id].reporting_round)].updated_at is None,
        !timed_out_spec(s, feed_id, s.feeds[feed_id].reporting_round, now),
    ensures
        start_new_round_spec(s, feed_id, now) == Err::<StoreView, Error>(
            Error::RoundNotSupersedable,
        ),
{
}

// ------------------------------------------------------------------
// Answer continuity under missed rounds: a timed-out round, once
// superseded, inherits its predecessor's answer exactly.
// ------------------------------------------------------------------

/// When opening a round force-closes its timed-out predecessor, the closed
/// round inherits the answer and answered-in-round of the round before it,
/// stamped with the current time, and loses its details.
pub proof fn lemma_timed_out_inherits(
    s: StoreView,
    feed_id: u64,
    cfg: crate::types::FeedConfigV,
    new_round_id: u64,
    now: u64,
)
    requires
        new_round_id >= 1,
        timed_out_spec(s, feed_id, (new_round_id - 1) as u64, now),
        initialize_round_spec(s, feed_id, cfg, new_round_id, now) is Ok,
    ensures
        ({
            let s1 = initialize_round_spec(s, feed_id, cfg, new_round_id, now)->Ok_0;
            let prev = (new_round_id - 1) as u64;
            let prev_prev = spec_sat_sub(prev, 1);
            &&& s1.rounds[(feed_id, prev)].answer == s.rounds[(feed_id, prev_prev)].answer
            &&& s1.rounds[(feed_id, prev)].answered_in_round == s.rounds[
                (feed_id, prev_prev)
            ].answered_in_round
            &&& s1.rounds[(feed_id, prev)].updated_at == Some(now)
            &&& s1.rounds[(feed_id, prev)].started_at == s.rounds[(feed_id, prev)].started_at
            &&& !s1.details.contains_key((feed_id, prev))
        }),
{
}

/// The same continuity seen through a requester-initiated round: the
/// superseded, timed-out reporting round inherits its predecessor's answer.
pub proof fn lemma_request_inherits(s: StoreView, caller: u64, feed_id: u64, now: u64)
    requires
        request_new_round_spec(s, caller, feed_id, now) is Ok,
        timed_out_spec(s, feed_id, s.feeds[feed_id].reporting_round, now),
    ensures
        ({
            let s2 = request_new_round_spec(s, caller, feed_id, now)->Ok_0;
            let rr = s.feeds[feed_id].reporting_round;
            let prev_prev = spec_sat_sub(rr, 1);
            &&& s2.rounds[(feed_id, rr)].answer == s.rounds[(feed_id, prev_prev)].answer
            &&& s2.rounds[(feed_id, rr)].answered_in_round == s.rounds[
                (feed_id, prev_prev)
            ].answered_in_round
            &&& s2.rounds[(feed_id, rr)].updated_at == Some(now)
        }),
{
    let cfg = s.feeds[feed_id];
    let new_round = (cfg.reporting_round + 1) as u64;
    lemma_timed_out_inherits(s, feed_id, cfg, new_round, now);
}

// ------------------------------------------------------------------
// Oracle count accounting.
// ------------------------------------------------------------------

/// After a successful oracle change, the feed's oracle count equals the
/// previous count minus the deduplicated disables (clamped at zero) plus the
/// additions, and never exceeds the configured ceiling.
pub proof fn lemma_oracle_count_change(
    s: StoreView,
    caller: u64,
    feed_id: u64,
    to_disable: Seq<u64>,
    to_add: Seq<(u64, u64)>,
)
    requires
        change_oracles_spec(s, caller, feed_id, to_disable, to_add) is Ok,
    ensures
        ({
            let s2 = change_oracles_spec(s, caller, feed_id, to_disable, to_add)->Ok_0;
            let count = s.feeds[feed_id].oracle_count;
            let ds = sorted_dedup(to_disable);
            let count1: int = if ds.len() > count {
                0
            } else {
                count - ds.len()
            };
            &&& s2.feeds[feed_id].oracle_count == count1 + to_add.len()
            &&& s2.feeds[feed_id].oracle_count <= s.limits.oracle_count_limit
        }),
{
}

/// A successful feed creation enables exactly the listed oracles, within the
/// ceiling.
pub proof fn lemma_oracle_count_create(
    s: StoreView,
    owner: u64,
    payment_amount: u64,
    timeout: u64,
    submission_value_bounds: (u64, u64),
    submission_count_bounds: (u32, u32),
    decimals: u8,
    description: Seq<u8>,
    restart_delay: u64,
    oracles: Seq<(u64, u64)>,
    now: u64,
)
    requires
        create_feed_spec(
            s,
            owner,
            payment_amount,
            timeout,
            submission_value_bounds,
            submission_count_bounds,
            decimals,
            description,
            restart_delay,
            oracles,
            now,
        ) is Ok,
    ensures
        ({
            let s2 = create_feed_spec(
                s,
                owner,
                payment_amount,
                timeout,
                submission_value_bounds,
                submission_count_bounds,
                decimals,
                description,
                restart_delay,
                oracles,
                now,
            )->Ok_0;
            &&& s2.feeds[s.feed_counter].oracle_count == oracles.len()
            &&& s2.feeds[s.feed_counter].oracle_count <= s.limits.oracle_count_limit
        }),
{
}


// ------------------------------------------------------------------
// Supersedability of the submit path: a submission may open the next round
// only once the current reporting round is answered or timed out.
// ------------------------------------------------------------------

/// A submission that targets the next round by an oracle permitted to start
/// it, while the current reporting round is unanswered and not timed out, is
/// rejected with exactly `RoundNotSupersedable`.
pub proof fn lemma_submit_not_supersedable(
    s: StoreView,
    oracle: u64,
    feed_id: u64,
    round_id: u64,
    value: u64,
    now: u64,
)
    requires
        crate::transitions::eligibility_error(s, feed_id, oracle, round_id) is None,
        s.feeds.contains_key(feed_id),
        s.feeds[feed_id].submission_value_bounds.0 <= value,
        value <= s.feeds[feed_id].submission_value_bounds.1,
        s.feeds[feed_id].reporting_round + 1 <= u64::MAX,
        round_or_zero(s.oracle_stati[(feed_id, oracle)].last_started_round) + s.feeds[
            feed_id
        ].restart_delay + 1 <= u64::MAX,
        submit_opens(s, oracle, feed_id, round_id),
        s.feeds[feed_id].reporting_round != 0,
        s.rounds.contains_key((feed_id, s.feeds[feed_id].reporting_round)),
        s.rounds[(feed_id, s.feeds[feed_id].reporting_round)].updated_at is None,
        !timed_out_spec(s, feed_id, s.feeds[feed_id].reporting_round, now),
    ensures
        submit_spec(s, oracle, feed_id, round_id, value, now) == Err::<StoreView, Error>(
            Error::RoundNotSupersedable,
        ),
{
    let rr = s.feeds[feed_id].reporting_round;
    assert(spec_sat_sub((rr + 1) as u64, 1) == rr);
}

/// A successful submission that opened the next round implies the round it
/// superseded was the genesis round, was answered, or had timed out.
pub proof fn lemma_submit_opening_requires_supersedable(
    s: StoreView,
    oracle: u64,
    feed_id: u64,
    round_id: u64,
    value: u64,
    now: u64,
)
    requires
        submit_spec(s, oracle, feed_id, round_id, value, now) is Ok,
        submit_opens(s, oracle, feed_id, round_id),
    ensures
        s.feeds[feed_id].reporting_round == 0 || (s.rounds.contains_key(
            (feed_id, s.feeds[feed_id].reporting_round),
        ) && (s.rounds[(feed_id, s.feeds[feed_id].reporting_round)].updated_at is Some
            || timed_out_spec(s, feed_id, s.feeds[feed_id].reporting_round, now))),
{
    let rr = s.feeds[feed_id].reporting_round;
    assert(spec_sat_sub((rr + 1) as u64, 1) == rr);
}

// ------------------------------------------------------------------
// Round bookkeeping: the latest answered round never runs ahead of the
// reporting round.
// ------------------------------------------------------------------

/// Round bookkeeping of every feed: the latest answered round never exceeds
/// the reporting round and stays zero until a first valid round exists;
/// details exist only for rounds of existing feeds up to the reporting
/// round; and every feed id lies below the feed counter.
pub open spec fn feed_rounds_ok(s: StoreView) -> bool {
    &&& (forall|f: u64| #[trigger]
        s.feeds.contains_key(f) ==> s.feeds[f].latest_round <= s.feeds[f].reporting_round && (
        s.feeds[f].first_valid_round is None ==> s.feeds[f].latest_round == 0) && f
            < s.feed_counter)
    &&& (forall|k: (u64, u64)| #[trigger]
        s.details.contains_key(k) ==> s.feeds.contains_key(k.0) && k.1 <= s.feeds[
            k.0
        ].reporting_round)
}

/// The fresh engine satisfies the bookkeeping invariant (vacuously).
pub proof fn lemma_feed_rounds_initial(limits: Limits)
    ensures
        feed_rounds_ok(initial_state(limits)),
{
}

/// An operation that keeps the details, the feed counter, the set of feeds,
/// and every feed's round bookkeeping fields preserves the invariant.
pub proof fn lemma_feed_rounds_frame(s: StoreView, s2: StoreView)
    requires
        feed_rounds_ok(s),
        s2.details == s.details,
        s2.feed_counter == s.feed_counter,
        s2.feeds.dom() == s.feeds.dom(),
        forall|f: u64| #[trigger]
            s2.feeds.contains_key(f) ==> s2.feeds[f].latest_round == s.feeds[f].latest_round
                && s2.feeds[f].reporting_round == s.feeds[f].reporting_round && s2.feeds[
                f
            ].first_valid_round == s.feeds[f].first_valid_round,
    ensures
        feed_rounds_ok(s2),
{
}

/// Creating a feed preserves the bookkeeping invariant: the new feed starts
/// with both round pointers at zero and no valid round.
pub proof fn lemma_feed_rounds_create_feed(
    s: StoreView,
    owner: u64,
    payment_amount: u64,
    timeout: u64,
    submission_value_bounds: (u64, u64),
    submission_count_bounds: (u32, u32),
    decimals: u8,
    description: Seq<u8>,
    restart_delay: u64,
    oracles: Seq<(u64, u64)>,
    now: u64,
)
    requires
        feed_rounds_ok(s),
        create_feed_spec(
            s,
            owner,
            payment_amount,
            timeout,
            submission_value_bounds,
            submission_count_bounds,
            decimals,
            description,
            restart_delay,
            oracles,
            now,
        ) is Ok,
    ensures
        feed_rounds_ok(
            create_feed_spec(
                s,
                owner,
                payment_amount,
                timeout,
                submission_value_bounds,
                submission_count_bounds,
                decimals,
                description,
                restart_delay,
                oracles,
                now,
            )->Ok_0,
        ),
{
    let s2 = create_feed_spec(
        s,
        owner,
        payment_amount,
        timeout,
        submission_value_bounds,
        submission_count_bounds,
        decimals,
        description,
        restart_delay,
        oracles,
        now,
    )->Ok_0;
    assert forall|k: (u64, u64)| #[trigger] s2.details.contains_key(k) implies s2.feeds.contains_key(
        k.0,
    ) && k.1 <= s2.feeds[k.0].reporting_round by {
        assert(s.details.contains_key(k));
        assert(s.feeds.contains_key(k.0));
        assert(k.0 != s.feed_counter);
    }
}

/// Opening a round preserves the shape of the details map: the state after a
/// successful opening carries details only at the feed's keys up to the new
/// round id, and leaves every feed's configuration untouched.
pub proof fn lemma_feed_rounds_initialize(
    s: StoreView,
    feed_id: u64,
    cfg: crate::types::FeedConfigV,
    new_round_id: u64,
    now: u64,
)
    requires
        feed_rounds_ok(s),
        initialize_round_spec(s, feed_id, cfg, new_round_id, now) is Ok,
    ensures
        ({
            let s1 = initialize_round_spec(s, feed_id, cfg, new_round_id, now)->Ok_0;
            &&& s1.feeds == s.feeds
            &&& s1.feed_counter == s.feed_counter
            &&& forall|k: (u64, u64)| #[trigger]
                s1.details.contains_key(k) ==> k == (feed_id, new_round_id)
                    || s.details.contains_key(k)
        }),
{
}

/// A submission preserves the bookkeeping invariant: the answered round is
/// never ahead of the (possibly just advanced) reporting round.
pub proof fn lemma_feed_rounds_submit(
    s: StoreView,
    oracle: u64,
    feed_id: u64,
    round_id: u64,
    value: u64,
    now: u64,
)
    requires
        feed_rounds_ok(s),
        submit_spec(s, oracle, feed_id, round_id, value, now) is Ok,
    ensures
        feed_rounds_ok(submit_spec(s, oracle, feed_id, round_id, value, now)->Ok_0),
{
    let s2 = submit_spec(s, oracle, feed_id, round_id, value, now)->Ok_0;
    let cfg = s.feeds[feed_id];
    let st = s.oracle_stati[(feed_id, oracle)];
    let new_round_id = (cfg.reporting_round + 1) as u64;
    let last_started = round_or_zero(st.last_started_round);
    let next_eligible = (last_started + cfg.restart_delay + 1) as u64;
    let eligible = round_id >= next_eligible || st.last_started_round is None;
    let opening = round_id == new_round_id && eligible;
    let cfg1 = if opening {
        crate::types::FeedConfigV { reporting_round: new_round_id, ..cfg }
    } else {
        cfg
    };
    let s1 = if opening {
        initialize_round_spec(s, feed_id, cfg1, new_round_id, now)->Ok_0
    } else {
        s
    };
    if opening {
        lemma_feed_rounds_initialize(s, feed_id, cfg1, new_round_id, now);
    }
    assert(s1.details.contains_key((feed_id, round_id)));
    assert(round_id <= cfg1.reporting_round);
    assert forall|k: (u64, u64)| #[trigger] s2.details.contains_key(k) implies s2.feeds.contains_key(
        k.0,
    ) && k.1 <= s2.feeds[k.0].reporting_round by {
        if k != (feed_id, round_id) {
            assert(s1.details.contains_key(k));
            assert(s.details.contains_key(k));
        }
    }
    assert forall|f: u64| #[trigger] s2.feeds.contains_key(f) implies s2.feeds[f].latest_round
        <= s2.feeds[f].reporting_round && (s2.feeds[f].first_valid_round is None ==> s2.feeds[
        f
    ].latest_round == 0) && f < s2.feed_counter by {
        if f != feed_id {
            assert(s.feeds.contains_key(f));
        }
    }
}

/// A requester-initiated round preserves the bookkeeping invariant: the
/// reporting round advances past the unchanged latest round.
pub proof fn lemma_feed_rounds_request(s: StoreView, caller: u64, feed_id: u64, now: u64)
    requires
        feed_rounds_ok(s),
        request_new_round_spec(s, caller, feed_id, now) is Ok,
    ensures
        feed_rounds_ok(request_new_round_spec(s, caller, feed_id, now)->Ok_0),
{
    let s2 = request_new_round_spec(s, caller, feed_id, now)->Ok_0;
    let cfg = s.feeds[feed_id];
    let new_round = (cfg.reporting_round + 1) as u64;
    lemma_feed_rounds_initialize(s, feed_id, cfg, new_round, now);
    assert forall|k: (u64, u64)| #[trigger] s2.details.contains_key(k) implies s2.feeds.contains_key(
        k.0,
    ) && k.1 <= s2.feeds[k.0].reporting_round by {
        if k != (feed_id, new_round) {
            assert(s.details.contains_key(k));
        }
    }
    assert forall|f: u64| #[trigger] s2.feeds.contains_key(f) implies s2.feeds[f].latest_round
        <= s2.feeds[f].reporting_round && (s2.feeds[f].first_valid_round is None ==> s2.feeds[
        f
    ].latest_round == 0) && f < s2.feed_counter by {
        if f != feed_id {
            assert(s.feeds.contains_key(f));
        }
    }
}

/// An out-of-band round start preserves the bookkeeping invariant.
pub proof fn lemma_feed_rounds_start(s: StoreView, feed_id: u64, now: u64)
    requires
        feed_rounds_ok(s),
        start_new_round_spec(s, feed_id, now) is Ok,
    ensures
        feed_rounds_ok(start_new_round_spec(s, feed_id, now)->Ok_0),
{
    let s2 = start_new_round_spec(s, feed_id, now)->Ok_0;
    let cfg = s.feeds[feed_id];
    let new_round = (cfg.reporting_round + 1) as u64;
    lemma_feed_rounds_initialize(s, feed_id, cfg, new_round, now);
    assert forall|k: (u64, u64)| #[trigger] s2.details.contains_key(k) implies s2.feeds.contains_key(
        k.0,
    ) && k.1 <= s2.feeds[k.0].reporting_round by {
        if k != (feed_id, new_round) {
            assert(s.details.contains_key(k));
        }
    }
    assert forall|f: u64| #[trigger] s2.feeds.contains_key(f) implies s2.feeds[f].latest_round
        <= s2.feeds[f].reporting_round && (s2.feeds[f].first_valid_round is None ==> s2.feeds[
        f
    ].latest_round == 0) && f < s2.feed_counter by {
        if f != feed_id {
            assert(s.feeds.contains_key(f));
        }
    }
}

/// Pruning preserves the bookkeeping invariant: it only removes records and
/// raises the first valid round.
pub proof fn lemma_feed_rounds_prune(
    s: StoreView,
    caller: u64,
    feed_id: u64,
    first_to_prune: u64,
    keep_round: u64,
)
    requires
        feed_rounds_ok(s),
        prune_spec(s, caller, feed_id, first_to_prune, keep_round) is Ok,
    ensures
        feed_rounds_ok(prune_spec(s, caller, feed_id, first_to_prune, keep_round)->Ok_0),
{
    let s2 = prune_spec(s, caller, feed_id, first_to_prune, keep_round)->Ok_0;
    assert forall|k: (u64, u64)| #[trigger] s2.details.contains_key(k) implies s2.feeds.contains_key(
        k.0,
    ) && k.1 <= s2.feeds[k.0].reporting_round by {
        assert(s.details.contains_key(k));
    }
}

/// Changing the oracle set preserves the bookkeeping invariant: it only
/// touches the oracle count.
pub proof fn lemma_feed_rounds_change_oracles(
    s: StoreView,
    caller: u64,
    feed_id: u64,
    to_disable: Seq<u64>,
    to_add: Seq<(u64, u64)>,
)
    requires
        feed_rounds_ok(s),
        change_oracles_spec(s, caller, feed_id, to_disable, to_add) is Ok,
    ensures
        feed_rounds_ok(change_oracles_spec(s, caller, feed_id, to_disable, to_add)->Ok_0),
{
    let s2 = change_oracles_spec(s, caller, feed_id, to_disable, to_add)->Ok_0;
    assert(s2.feeds.dom() =~= s.feeds.dom());
    lemma_feed_rounds_frame(s, s2);
}

/// The configuration, permission, withdrawal and ownership operations all
/// preserve the bookkeeping invariant: none touches the details or any
/// feed's round pointers.
pub proof fn lemma_feed_rounds_config_ops(
    s: StoreView,
    caller: u64,
    a: u64,
    b: u64,
    c: u64,
    d: u64,
    bounds: (u32, u32),
)
    requires
        feed_rounds_ok(s),
    ensures
        update_future_rounds_spec(s, caller, a, b, bounds, c, d) is Ok ==> feed_rounds_ok(
            update_future_rounds_spec(s, caller, a, b, bounds, c, d)->Ok_0,
        ),
        withdraw_payment_spec(s, caller, a, b, c) is Ok ==> feed_rounds_ok(
            withdraw_payment_spec(s, caller, a, b, c)->Ok_0,
        ),
        withdraw_funds_spec(s, caller, a, b) is Ok ==> feed_rounds_ok(
            withdraw_funds_spec(s, caller, a, b)->Ok_0,
        ),
        transfer_admin_spec(s, caller, a, b) is Ok ==> feed_rounds_ok(
            transfer_admin_spec(s, caller, a, b)->Ok_0,
        ),
        accept_admin_spec(s, caller, a) is Ok ==> feed_rounds_ok(
            accept_admin_spec(s, caller, a)->Ok_0,
        ),
        set_requester_spec(s, caller, a, b, c) is Ok ==> feed_rounds_ok(
            set_requester_spec(s, caller, a, b, c)->Ok_0,
        ),
        remove_requester_spec(s, caller, a, b) is Ok ==> feed_rounds_ok(
            remove_requester_spec(s, caller, a, b)->Ok_0,
        ),
        transfer_ownership_spec(s, caller, a, b) is Ok ==> feed_rounds_ok(
            transfer_ownership_spec(s, caller, a, b)->Ok_0,
        ),
        accept_ownership_spec(s, caller, a) is Ok ==> feed_rounds_ok(
            accept_ownership_spec(s, caller, a)->Ok_0,
        ),
        transfer_pallet_admin_spec(s, caller, a) is Ok ==> feed_rounds_ok(
            transfer_pallet_admin_spec(s, caller, a)->Ok_0,
        ),
        accept_pallet_admin_spec(s, caller) is Ok ==> feed_rounds_ok(
            accept_pallet_admin_spec(s, caller)->Ok_0,
        ),
{
    if update_future_rounds_spec(s, caller, a, b, bounds, c, d) is Ok {
        let s2 = update_future_rounds_spec(s, caller, a, b, bounds, c, d)->Ok_0;
        assert(s2.feeds.dom() =~= s.feeds.dom());
        lemma_feed_rounds_frame(s, s2);
    }
    if transfer_ownership_spec(s, caller, a, b) is Ok {
        let s2 = transfer_ownership_spec(s, caller, a, b)->Ok_0;
        assert(s2.feeds.dom() =~= s.feeds.dom());
        lemma_feed_rounds_frame(s, s2);
    }
    if accept_ownership_spec(s, caller, a) is Ok {
        let s2 = accept_ownership_spec(s, caller, a)->Ok_0;
        assert(s2.feeds.dom() =~= s.feeds.dom());
        lemma_feed_rounds_frame(s, s2);
    }
}

// ------------------------------------------------------------------
// Further round-lifecycle facts.
// ------------------------------------------------------------------

/// Under the genesis invariant, round zero's data is always available and
/// fully finalized, answering zero in round zero.
pub proof fn lemma_round_zero_data(s: StoreView, feed_id: u64)
    requires
        round_zero_ok(s),
        s.feeds.contains_key(feed_id),
    ensures
        data_at_spec(s, feed_id, 0) is Some,
        data_at_spec(s, feed_id, 0)->Some_0.answer == 0,
        data_at_spec(s, feed_id, 0)->Some_0.answered_in_round == 0,
{
}

/// A successful opening marks the round Pending: its details exist with no
/// submissions yet (the authoritative accepting-submissions flag), carrying a
/// snapshot of the feed's current parameters, and its round record starts
/// now, unanswered.
pub proof fn lemma_initialize_opens(
    s: StoreView,
    feed_id: u64,
    cfg: crate::types::FeedConfigV,
    new_round_id: u64,
    now: u64,
)
    requires
        initialize_round_spec(s, feed_id, cfg, new_round_id, now) is Ok,
    ensures
        ({
            let s1 = initialize_round_spec(s, feed_id, cfg, new_round_id, now)->Ok_0;
            &&& s1.details.contains_key((feed_id, new_round_id))
            &&& s1.details[(feed_id, new_round_id)].submissions == Seq::<u64>::empty()
            &&& s1.details[(feed_id, new_round_id)].submission_count_bounds
                == cfg.submission_count_bounds
            &&& s1.details[(feed_id, new_round_id)].payment_amount == cfg.payment_amount
            &&& s1.details[(feed_id, new_round_id)].timeout == cfg.timeout
            &&& s1.rounds.contains_key((feed_id, new_round_id))
            &&& s1.rounds[(feed_id, new_round_id)] == (Round {
                started_at: now,
                answer: None,
                updated_at: None,
                answered_in_round: None,
            })
        }),
{
}

/// Closing a timed-out round succeeds exactly when its predecessor's record
/// exists; the closed round inherits the predecessor's answer and
/// answered-in-round, is stamped with the current time, keeps its start
/// time, and loses its details.
pub proof fn lemma_close_timed_out_inherits(s: StoreView, feed_id: u64, timed_out_id: u64, now: u64)
    requires
        s.rounds.contains_key((feed_id, timed_out_id)),
        s.rounds.contains_key((feed_id, spec_sat_sub(timed_out_id, 1))),
    ensures
        close_timed_out_spec(s, feed_id, timed_out_id, now) is Ok,
        ({
            let s1 = close_timed_out_spec(s, feed_id, timed_out_id, now)->Ok_0;
            let prev = spec_sat_sub(timed_out_id, 1);
            &&& s1.rounds[(feed_id, timed_out_id)].answer == s.rounds[(feed_id, prev)].answer
            &&& s1.rounds[(feed_id, timed_out_id)].answered_in_round == s.rounds[
                (feed_id, prev)
            ].answered_in_round
            &&& s1.rounds[(feed_id, timed_out_id)].updated_at == Some(now)
            &&& s1.rounds[(feed_id, timed_out_id)].started_at == s.rounds[
                (feed_id, timed_out_id)
            ].started_at
            &&& !s1.details.contains_key((feed_id, timed_out_id))
        }),
{
}

/// Creating a feed with more oracles than the ceiling is rejected with
/// exactly `OraclesLimitExceeded` (past the count type, `Overflow`).
pub proof fn lemma_create_feed_limit_rejects(
    s: StoreView,
    owner: u64,
    payment_amount: u64,
    timeout: u64,
    submission_value_bounds: (u64, u64),
    submission_count_bounds: (u32, u32),
    decimals: u8,
    description: Seq<u8>,
    restart_delay: u64,
    oracles: Seq<(u64, u64)>,
    now: u64,
)
    requires
        description.len() <= s.limits.string_limit,
        s.feed_counter + 1 <= u64::MAX,
        oracles.len() <= u32::MAX,
        oracles.len() > s.limits.oracle_count_limit,
    ensures
        create_feed_spec(
            s,
            owner,
            payment_amount,
            timeout,
            submission_value_bounds,
            submission_count_bounds,
            decimals,
            description,
            restart_delay,
            oracles,
            now,
        ) == Err::<StoreView, Error>(Error::OraclesLimitExceeded),
{
}

/// Changing oracles past the ceiling is rejected with exactly
/// `OraclesLimitExceeded` (past the count type, `Overflow`).
pub proof fn lemma_change_oracles_limit_rejects(
    s: StoreView,
    caller: u64,
    feed_id: u64,
    to_disable: Seq<u64>,
    to_add: Seq<(u64, u64)>,
)
    requires
        s.feeds.contains_key(feed_id),
        s.feeds[feed_id].owner == caller,
        disable_oracles_spec(
            s.oracle_stati,
            feed_id,
            s.feeds[feed_id].reporting_round,
            sorted_dedup(to_disable),
        ) is Ok,
        ({
            let count = s.feeds[feed_id].oracle_count;
            let ds = sorted_dedup(to_disable);
            let count1: int = if ds.len() > count {
                0
            } else {
                count - ds.len()
            };
            count1 + to_add.len() <= u32::MAX && count1 + to_add.len()
                > s.limits.oracle_count_limit
        }),
    ensures
        change_oracles_spec(s, caller, feed_id, to_disable, to_add) == Err::<StoreView, Error>(
            Error::OraclesLimitExceeded,
        ),
{
}

/// A repeat request before the delay has elapsed is rejected with exactly
/// `CannotRequestRoundYet`: a requester who last started round `l` with
/// delay `d` may start a round again only from candidate round `l + d + 1`
/// on.
pub proof fn lemma_request_too_early(s: StoreView, caller: u64, feed_id: u64, now: u64)
    requires
        s.requesters.contains_key((feed_id, caller)),
        s.feeds.contains_key(feed_id),
        s.feeds[feed_id].reporting_round != 0 ==> s.rounds.contains_key(
            (feed_id, s.feeds[feed_id].reporting_round),
        ) && (s.rounds[(feed_id, s.feeds[feed_id].reporting_round)].updated_at is Some
            || timed_out_spec(s, feed_id, s.feeds[feed_id].reporting_round, now)),
        s.feeds[feed_id].reporting_round + 1 <= u64::MAX,
        s.requesters[(feed_id, caller)].last_started_round is Some,
        s.requesters[(feed_id, caller)].last_started_round->0 + s.requesters[
            (feed_id, caller)
        ].delay <= u64::MAX,
        s.feeds[feed_id].reporting_round + 1 <= s.requesters[
            (feed_id, caller)
        ].last_started_round->0 + s.requesters[(feed_id, caller)].delay,
    ensures
        request_new_round_spec(s, caller, feed_id, now) == Err::<StoreView, Error>(
            Error::CannotRequestRoundYet,
        ),
{
}

} // verus!
