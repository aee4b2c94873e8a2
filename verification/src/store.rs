//! The explicit store holding all engine state, and the ledger collaborator.
//!
//! Every operation of the engine takes the store (a [`FeedModule`]) and plain
//! parameters: the caller's account and, where time matters, the current
//! block number. The store is abstracted as a [`StoreView`]: a record of maps
//! from ids to record views. Operation contracts are stated as transitions on
//! `StoreView`: on success the new view is a function of the old one, on
//! error the view is unchanged.

use vstd::prelude::*;
use crate::tables::Table;
use crate::median::{median, sort_values_in_place};
use crate::transitions::{
    accept_admin_spec, accept_ownership_spec, accept_pallet_admin_spec, add_oracles_spec,
    change_oracles_spec, create_feed_spec, dedup_sorted, disable_oracles_spec,
    close_timed_out_spec, eligibility_error, initialize_round_spec, pruned_keys, prune_spec,
    remove_requester_spec, request_new_round_spec, set_requester_spec, start_new_round_spec,
    submit_spec, timed_out_spec, timeout_sum_ok, transfer_admin_spec, transfer_ownership_spec,
    transfer_pallet_admin_spec, update_future_rounds_spec, withdraw_funds_spec,
    withdraw_payment_spec,
};
use crate::types::{saturating_sub, spec_sat_sub};
use crate::types::{
    Error, FeedConfig, FeedConfigV, Limits, OracleMeta, OracleStatus, Requester, Round,
    RoundDetails, RoundDetailsV,
};

verus! {

/// Ghost view of the ledger: free and reserved balances by account.
#[verifier::ext_equal]
pub ghost struct LedgerV {
    pub existential_deposit: u64,
    pub free: Map<u64, u64>,
    pub reserved: Map<u64, u64>,
}

/// The balance recorded for `who`, zero when no entry exists.
pub open spec fn bal(m: Map<u64, u64>, who: u64) -> u64 {
    if m.contains_key(who) {
        m[who]
    } else {
        0
    }
}

/// Reserve `amount` of `who`'s free balance: move it from free to reserved.
/// Fails when the free balance is too small or the reserved balance would
/// overflow.
pub open spec fn reserve_spec(l: LedgerV, who: u64, amount: u64) -> Result<LedgerV, Error> {
    if bal(l.free, who) < amount {
        Err(Error::InsufficientFunds)
    } else if bal(l.reserved, who) + amount > u64::MAX {
        Err(Error::Overflow)
    } else {
        Ok(
            LedgerV {
                free: l.free.insert(who, (bal(l.free, who) - amount) as u64),
                reserved: l.reserved.insert(who, (bal(l.reserved, who) + amount) as u64),
                ..l
            },
        )
    }
}

/// Transfer `amount` from `from`'s free balance to `to`'s. With `keep_alive`,
/// `from` must retain at least the existential deposit. Fails when the free
/// balance is too small or the receiving balance would overflow.
pub open spec fn transfer_spec(l: LedgerV, from: u64, to: u64, amount: u64, keep_alive: bool) -> Result<
    LedgerV,
    Error,
> {
    if bal(l.free, from) < amount {
        Err(Error::InsufficientFunds)
    } else if keep_alive && bal(l.free, from) - amount < l.existential_deposit {
        Err(Error::InsufficientFunds)
    } else {
        let mid = l.free.insert(from, (bal(l.free, from) - amount) as u64);
        if bal(mid, to) + amount > u64::MAX {
            Err(Error::Overflow)
        } else {
            Ok(LedgerV { free: mid.insert(to, (bal(mid, to) + amount) as u64), ..l })
        }
    }
}

/// Add `amount` to `who`'s free balance.
pub open spec fn deposit_spec(l: LedgerV, who: u64, amount: u64) -> Result<LedgerV, Error> {
    if bal(l.free, who) + amount > u64::MAX {
        Err(Error::Overflow)
    } else {
        Ok(LedgerV { free: l.free.insert(who, (bal(l.free, who) + amount) as u64), ..l })
    }
}

/// The account system holding and moving funds. The engine never mutates
/// balances directly; it requests reservations and transfers here.
pub struct Ledger {
    existential_deposit: u64,
    free: Table<u64, u64>,
    reserved: Table<u64, u64>,
}

impl View for Ledger {
    type V = LedgerV;

    closed spec fn view(&self) -> LedgerV {
        LedgerV {
            existential_deposit: self.existential_deposit,
            free: self.free@,
            reserved: self.reserved@,
        }
    }
}

impl Ledger {
    pub closed spec fn wf(&self) -> bool {
        self.free.wf() && self.reserved.wf()
    }

    pub fn new(existential_deposit: u64) -> (r: Self)
        ensures
            r.wf(),
            r@ == (LedgerV {
                existential_deposit,
                free: Map::<u64, u64>::empty(),
                reserved: Map::<u64, u64>::empty(),
            }),
    {
        Ledger { existential_deposit, free: Table::new(), reserved: Table::new() }
    }

    pub fn free_balance(&self, who: u64) -> (r: u64)
        requires
            self.wf(),
        ensures
            r == bal(self@.free, who),
    {
        match self.free.get(&who) {
            Some(b) => *b,
            None => 0,
        }
    }

    fn reserved_balance(&self, who: u64) -> (r: u64)
        requires
            self.wf(),
        ensures
            r == bal(self@.reserved, who),
    {
        match self.reserved.get(&who) {
            Some(b) => *b,
            None => 0,
        }
    }

    pub fn deposit(&mut self, who: u64, amount: u64) -> (r: Result<(), Error>)
        requires
            old(self).wf(),
        ensures
            final(self).wf(),
            match deposit_spec(old(self)@, who, amount) {
                Ok(l) => r is Ok && final(self)@ == l,
                Err(e) => r == Err::<(), Error>(e) && final(self)@ == old(self)@,
            },
    {
        let b = self.free_balance(who);
        if amount > u64::MAX - b {
            return Err(Error::Overflow);
        }
        self.free.insert(who, b + amount);
        proof {
            assert(self@ =~~= deposit_spec(old(self)@, who, amount)->Ok_0);
        }
        Ok(())
    }

    pub fn reserve(&mut self, who: u64, amount: u64) -> (r: Result<(), Error>)
        requires
            old(self).wf(),
        ensures
            final(self).wf(),
            match reserve_spec(old(self)@, who, amount) {
                Ok(l) => r is Ok && final(self)@ == l,
                Err(e) => r == Err::<(), Error>(e) && final(self)@ == old(self)@,
            },
    {
        let b = self.free_balance(who);
        if b < amount {
            return Err(Error::InsufficientFunds);
        }
        let res = self.reserved_balance(who);
        if amount > u64::MAX - res {
            return Err(Error::Overflow);
        }
        self.free.insert(who, b - amount);
        self.reserved.insert(who, res + amount);
        proof {
            assert(self@ =~~= reserve_spec(old(self)@, who, amount)->Ok_0);
        }
        Ok(())
    }

    pub fn transfer(&mut self, from: u64, to: u64, amount: u64, keep_alive: bool) -> (r: Result<
        (),
        Error,
    >)
        requires
            old(self).wf(),
        ensures
            final(self).wf(),
            match transfer_spec(old(self)@, from, to, amount, keep_alive) {
                Ok(l) => r is Ok && final(self)@ == l,
                Err(e) => r == Err::<(), Error>(e) && final(self)@ == old(self)@,
            },
    {
        let b = self.free_balance(from);
        if b < amount {
            return Err(Error::InsufficientFunds);
        }
        if keep_alive && b - amount < self.existential_deposit {
            return Err(Error::InsufficientFunds);
        }
        self.free.insert(from, b - amount);
        let tb = self.free_balance(to);
        if amount > u64::MAX - tb {
            // undo the debit: the operation must leave the ledger unchanged
            self.free.insert(from, b);
            proof {
                assert(self@ =~~= old(self)@);
            }
            return Err(Error::Overflow);
        }
        self.free.insert(to, tb + amount);
        proof {
            assert(self@ =~~= transfer_spec(old(self)@, from, to, amount, keep_alive)->Ok_0);
        }
        Ok(())
    }
}

/// Ghost view of the whole engine state.
#[verifier::ext_equal]
pub ghost struct StoreView {
    pub limits: Limits,
    pub pallet_admin: u64,
    pub pending_pallet_admin: Option<u64>,
    pub feed_counter: u64,
    pub feeds: Map<u64, FeedConfigV>,
    pub rounds: Map<(u64, u64), Round>,
    pub details: Map<(u64, u64), RoundDetailsV>,
    pub oracles: Map<u64, OracleMeta>,
    pub oracle_stati: Map<(u64, u64), OracleStatus>,
    pub requesters: Map<(u64, u64), Requester>,
    pub ledger: LedgerV,
}

/// The store: every table of engine state, plus the ledger.
pub struct FeedModule {
    limits: Limits,
    pallet_admin: u64,
    pending_pallet_admin: Option<u64>,
    feed_counter: u64,
    feeds: Table<u64, FeedConfig>,
    rounds: Table<(u64, u64), Round>,
    details: Table<(u64, u64), RoundDetails>,
    oracles: Table<u64, OracleMeta>,
    oracle_stati: Table<(u64, u64), OracleStatus>,
    requesters: Table<(u64, u64), Requester>,
    ledger: Ledger,
}

/// The view of a feed configuration, as a function value.
pub open spec fn feed_cfg_view() -> spec_fn(FeedConfig) -> FeedConfigV {
    |c: FeedConfig| c@
}

/// The view of round details, as a function value.
pub open spec fn round_details_view() -> spec_fn(RoundDetails) -> RoundDetailsV {
    |d: RoundDetails| d@
}

impl View for FeedModule {
    type V = StoreView;

    closed spec fn view(&self) -> StoreView {
        StoreView {
            limits: self.limits,
            pallet_admin: self.pallet_admin,
            pending_pallet_admin: self.pending_pallet_admin,
            feed_counter: self.feed_counter,
            feeds: self.feeds@.map_values(feed_cfg_view()),
            rounds: self.rounds@,
            details: self.details@.map_values(round_details_view()),
            oracles: self.oracles@,
            oracle_stati: self.oracle_stati@,
            requesters: self.requesters@,
            ledger: self.ledger@,
        }
    }
}

/// `map_values` commutes with `insert`.
pub proof fn lemma_map_values_insert<K, A, B>(m: Map<K, A>, f: spec_fn(A) -> B, k: K, v: A)
    ensures
        m.insert(k, v).map_values(f) =~= m.map_values(f).insert(k, f(v)),
{
}

/// `map_values` commutes with `remove`.
pub proof fn lemma_map_values_remove<K, A, B>(m: Map<K, A>, f: spec_fn(A) -> B, k: K)
    ensures
        m.remove(k).map_values(f) =~= m.map_values(f).remove(k),
{
}

/// The fresh state of the engine: no feeds, no oracles, no balances; the
/// pallet admin starts as the fund account.
pub open spec fn initial_state(limits: Limits) -> StoreView {
    StoreView {
        limits,
        pallet_admin: limits.fund_account,
        pending_pallet_admin: None,
        feed_counter: 0,
        feeds: Map::empty(),
        rounds: Map::empty(),
        details: Map::empty(),
        oracles: Map::empty(),
        oracle_stati: Map::empty(),
        requesters: Map::empty(),
        ledger: LedgerV {
            existential_deposit: limits.existential_deposit,
            free: Map::empty(),
            reserved: Map::empty(),
        },
    }
}

impl FeedModule {
    /// All tables are well-formed.
    pub closed spec fn wf(&self) -> bool {
        &&& self.feeds.wf()
        &&& self.rounds.wf()
        &&& self.details.wf()
        &&& self.oracles.wf()
        &&& self.oracle_stati.wf()
        &&& self.requesters.wf()
        &&& self.ledger.wf()
    }

    pub fn new(limits: Limits) -> (r: Self)
        ensures
            r.wf(),
            r@ == initial_state(limits),
    {
        let r = FeedModule {
            limits,
            pallet_admin: limits.fund_account,
            pending_pallet_admin: None,
            feed_counter: 0,
            feeds: Table::new(),
            rounds: Table::new(),
            details: Table::new(),
            oracles: Table::new(),
            oracle_stati: Table::new(),
            requesters: Table::new(),
            ledger: Ledger::new(limits.existential_deposit),
        };
        proof {
            assert(r@ =~~= initial_state(limits));
        }
        r
    }

    pub fn limits(&self) -> (r: Limits)
        ensures
            r == self@.limits,
    {
        self.limits
    }

    pub fn pallet_admin(&self) -> (r: u64)
        ensures
            r == self@.pallet_admin,
    {
        self.pallet_admin
    }

    pub fn pending_pallet_admin(&self) -> (r: Option<u64>)
        ensures
            r == self@.pending_pallet_admin,
    {
        self.pending_pallet_admin
    }

    pub fn feed_counter(&self) -> (r: u64)
        ensures
            r == self@.feed_counter,
    {
        self.feed_counter
    }

    /// Configuration for a feed.
    pub fn feed_config(&self, feed_id: u64) -> (r: Option<&FeedConfig>)
        requires
            self.wf(),
        ensures
            match r {
                Some(c) => self@.feeds.contains_key(feed_id) && c@ == self@.feeds[feed_id],
                None => !self@.feeds.contains_key(feed_id),
            },
    {
        self.feeds.get(&feed_id)
    }

    /// User-facing round data.
    pub fn round(&self, feed_id: u64, round_id: u64) -> (r: Option<Round>)
        requires
            self.wf(),
        ensures
            match r {
                Some(x) => self@.rounds.contains_key((feed_id, round_id)) && x == self@.rounds[
                    (feed_id, round_id)
                ],
                None => !self@.rounds.contains_key((feed_id, round_id)),
            },
    {
        match self.rounds.get(&(feed_id, round_id)) {
            Some(x) => Some(*x),
            None => None,
        }
    }

    /// Operator-facing round data; present exactly while the round accepts
    /// submissions.
    pub fn round_details(&self, feed_id: u64, round_id: u64) -> (r: Option<&RoundDetails>)
        requires
            self.wf(),
        ensures
            match r {
                Some(d) => self@.details.contains_key((feed_id, round_id)) && d@ == self@.details[
                    (feed_id, round_id)
                ],
                None => !self@.details.contains_key((feed_id, round_id)),
            },
    {
        self.details.get(&(feed_id, round_id))
    }

    /// Global oracle record: admin and withdrawable funds.
    pub fn oracle(&self, who: u64) -> (r: Option<OracleMeta>)
        requires
            self.wf(),
        ensures
            match r {
                Some(m) => self@.oracles.contains_key(who) && m == self@.oracles[who],
                None => !self@.oracles.contains_key(who),
            },
    {
        match self.oracles.get(&who) {
            Some(m) => Some(*m),
            None => None,
        }
    }

    /// Feed-local oracle status.
    pub fn oracle_status(&self, feed_id: u64, who: u64) -> (r: Option<OracleStatus>)
        requires
            self.wf(),
        ensures
            match r {
                Some(st) => self@.oracle_stati.contains_key((feed_id, who)) && st
                    == self@.oracle_stati[(feed_id, who)],
                None => !self@.oracle_stati.contains_key((feed_id, who)),
            },
    {
        match self.oracle_stati.get(&(feed_id, who)) {
            Some(st) => Some(*st),
            None => None,
        }
    }

    /// Per-feed permission record for starting new rounds.
    pub fn requester(&self, feed_id: u64, who: u64) -> (r: Option<Requester>)
        requires
            self.wf(),
        ensures
            match r {
                Some(q) => self@.requesters.contains_key((feed_id, who)) && q == self@.requesters[
                    (feed_id, who)
                ],
                None => !self@.requesters.contains_key((feed_id, who)),
            },
    {
        match self.requesters.get(&(feed_id, who)) {
            Some(q) => Some(*q),
            None => None,
        }
    }

    /// Number of oracle accounts with a global record.
    pub fn oracles_len(&self) -> (r: usize)
        requires
            self.wf(),
        ensures
            self@.oracles.dom().finite(),
            r == self@.oracles.dom().len(),
    {
        self.oracles.len()
    }

    /// Number of feed-local oracle status records.
    pub fn oracle_stati_len(&self) -> (r: usize)
        requires
            self.wf(),
        ensures
            self@.oracle_stati.dom().finite(),
            r == self@.oracle_stati.dom().len(),
    {
        self.oracle_stati.len()
    }

    /// The free balance of an account in the ledger.
    pub fn free_balance(&self, who: u64) -> (r: u64)
        requires
            self.wf(),
        ensures
            r == bal(self@.ledger.free, who),
    {
        self.ledger.free_balance(who)
    }

    /// Add funds to an account (e.g. endow the fund account).
    pub fn deposit(&mut self, who: u64, amount: u64) -> (r: Result<(), Error>)
        requires
            old(self).wf(),
        ensures
            final(self).wf(),
            match deposit_spec(old(self)@.ledger, who, amount) {
                Ok(l) => r is Ok && final(self)@ == (StoreView { ledger: l, ..old(self)@ }),
                Err(e) => r == Err::<(), Error>(e) && final(self)@ == old(self)@,
            },
    {
        let r = self.ledger.deposit(who, amount);
        proof {
            if r is Ok {
                assert(self@ =~~= (StoreView {
                    ledger: deposit_spec(old(self)@.ledger, who, amount)->Ok_0,
                    ..old(self)@
                }));
            } else {
                assert(self@ =~~= old(self)@);
            }
        }
        r
    }

    /// Write an oracle record directly (setup helper mirroring raw storage
    /// access).
    pub fn insert_oracle_meta(&mut self, who: u64, meta: OracleMeta)
        requires
            old(self).wf(),
        ensures
            final(self).wf(),
            final(self)@ == (StoreView {
                oracles: old(self)@.oracles.insert(who, meta),
                ..old(self)@
            }),
    {
        self.oracles.insert(who, meta);
        proof {
            assert(self@ =~~= (StoreView {
                oracles: old(self)@.oracles.insert(who, meta),
                ..old(self)@
            }));
        }
    }

}


impl FeedModule {
    /// Update the parameters that future rounds will be opened with.
    pub fn update_future_rounds(
        &mut self,
        caller: u64,
        feed_id: u64,
        payment_amount: u64,
        submission_count_bounds: (u32, u32),
        restart_delay: u64,
        timeout: u64,
    ) -> (r: Result<(), Error>)
        requires
            old(self).wf(),
        ensures
            final(self).wf(),
            match update_future_rounds_spec(
                old(self)@,
                caller,
                feed_id,
                payment_amount,
                submission_count_bounds,
                restart_delay,
                timeout,
            ) {
                Ok(s) => r is Ok && final(self)@ == s,
                Err(e) => r == Err::<(), Error>(e) && final(self)@ == old(self)@,
            },
    {
        let (min, max) = submission_count_bounds;
        if max < min {
            return Err(Error::WrongBounds);
        }
        let mut cfg: FeedConfig;
        match self.feeds.get(&feed_id) {
            None => {
                return Err(Error::FeedNotFound);
            },
            Some(c) => {
                cfg = c.snapshot();
            },
        }
        if cfg.owner != caller {
            return Err(Error::NotFeedOwner);
        }
        if cfg.oracle_count < max {
            return Err(Error::MaxExceededTotal);
        }
        if !(cfg.oracle_count as u64 > restart_delay) {
            return Err(Error::DelayExceededTotal);
        }
        cfg.payment_amount = payment_amount;
        cfg.submission_count_bounds = submission_count_bounds;
        cfg.restart_delay = restart_delay;
        cfg.timeout = timeout;
        let ghost gcfg = cfg;
        self.feeds.insert(feed_id, cfg);
        proof {
            lemma_map_values_insert(old(self).feeds@, feed_cfg_view(), feed_id, gcfg);
            assert(self@ =~~= update_future_rounds_spec(
                old(self)@,
                caller,
                feed_id,
                payment_amount,
                submission_count_bounds,
                restart_delay,
                timeout,
            )->Ok_0);
        }
        Ok(())
    }

    /// Withdraw an oracle's accrued payment to a recipient.
    pub fn withdraw_payment(
        &mut self,
        caller: u64,
        oracle: u64,
        recipient: u64,
        amount: u64,
    ) -> (r: Result<(), Error>)
        requires
            old(self).wf(),
        ensures
            final(self).wf(),
            match withdraw_payment_spec(old(self)@, caller, oracle, recipient, amount) {
                Ok(s) => r is Ok && final(self)@ == s,
                Err(e) => r == Err::<(), Error>(e) && final(self)@ == old(self)@,
            },
    {
        let mut meta: OracleMeta;
        match self.oracles.get(&oracle) {
            None => {
                return Err(Error::OracleNotFound);
            },
            Some(m) => {
                meta = *m;
            },
        }
        if meta.admin != caller {
            return Err(Error::NotAdmin);
        }
        if meta.withdrawable < amount {
            return Err(Error::InsufficientFunds);
        }
        meta.withdrawable = meta.withdrawable - amount;
        let fund = self.limits.fund_account;
        match self.ledger.transfer(fund, recipient, amount, true) {
            Err(e) => {
                proof {
                    assert(self@ =~~= old(self)@);
                }
                return Err(e);
            },
            Ok(_) => {},
        }
        self.oracles.insert(oracle, meta);
        proof {
            assert(self@ =~~= withdraw_payment_spec(
                old(self)@,
                caller,
                oracle,
                recipient,
                amount,
            )->Ok_0);
        }
        Ok(())
    }

    /// Withdraw excess funds from the fund account, keeping the minimum
    /// reserve.
    pub fn withdraw_funds(&mut self, caller: u64, recipient: u64, amount: u64) -> (r: Result<
        (),
        Error,
    >)
        requires
            old(self).wf(),
        ensures
            final(self).wf(),
            match withdraw_funds_spec(old(self)@, caller, recipient, amount) {
                Ok(s) => r is Ok && final(self)@ == s,
                Err(e) => r == Err::<(), Error>(e) && final(self)@ == old(self)@,
            },
    {
        if caller != self.pallet_admin {
            return Err(Error::NotPalletAdmin);
        }
        let fund = self.limits.fund_account;
        let reserve = self.ledger.free_balance(fund);
        if reserve < amount {
            return Err(Error::InsufficientFunds);
        }
        if reserve - amount < self.limits.minimum_reserve {
            return Err(Error::InsufficientReserve);
        }
        match self.ledger.transfer(fund, recipient, amount, true) {
            Err(e) => {
                proof {
                    assert(self@ =~~= old(self)@);
                }
                return Err(e);
            },
            Ok(_) => {},
        }
        proof {
            assert(self@ =~~= withdraw_funds_spec(old(self)@, caller, recipient, amount)->Ok_0);
        }
        Ok(())
    }

    /// Initiate an admin transfer for the given oracle.
    pub fn transfer_admin(&mut self, caller: u64, oracle: u64, new_admin: u64) -> (r: Result<
        (),
        Error,
    >)
        requires
            old(self).wf(),
        ensures
            final(self).wf(),
            match transfer_admin_spec(old(self)@, caller, oracle, new_admin) {
                Ok(s) => r is Ok && final(self)@ == s,
                Err(e) => r == Err::<(), Error>(e) && final(self)@ == old(self)@,
            },
    {
        let mut meta: OracleMeta;
        match self.oracles.get(&oracle) {
            None => {
                return Err(Error::OracleNotFound);
            },
            Some(m) => {
                meta = *m;
            },
        }
        if meta.admin != caller {
            return Err(Error::NotAdmin);
        }
        meta.pending_admin = Some(new_admin);
        self.oracles.insert(oracle, meta);
        proof {
            assert(self@ =~~= transfer_admin_spec(old(self)@, caller, oracle, new_admin)->Ok_0);
        }
        Ok(())
    }

    /// Complete an admin transfer for the given oracle.
    pub fn accept_admin(&mut self, caller: u64, oracle: u64) -> (r: Result<(), Error>)
        requires
            old(self).wf(),
        ensures
            final(self).wf(),
            match accept_admin_spec(old(self)@, caller, oracle) {
                Ok(s) => r is Ok && final(self)@ == s,
                Err(e) => r == Err::<(), Error>(e) && final(self)@ == old(self)@,
            },
    {
        let mut meta: OracleMeta;
        match self.oracles.get(&oracle) {
            None => {
                return Err(Error::OracleNotFound);
            },
            Some(m) => {
                meta = *m;
            },
        }
        let matches_pending = match meta.pending_admin {
            Some(p) => p == caller,
            None => false,
        };
        if !matches_pending {
            return Err(Error::NotPendingAdmin);
        }
        meta.pending_admin = None;
        meta.admin = caller;
        self.oracles.insert(oracle, meta);
        proof {
            assert(self@ =~~= accept_admin_spec(old(self)@, caller, oracle)->Ok_0);
        }
        Ok(())
    }

    /// Grant or update requester permissions for the feed.
    pub fn set_requester(&mut self, caller: u64, feed_id: u64, requester: u64, delay: u64) -> (r:
        Result<(), Error>)
        requires
            old(self).wf(),
        ensures
            final(self).wf(),
            match set_requester_spec(old(self)@, caller, feed_id, requester, delay) {
                Ok(s) => r is Ok && final(self)@ == s,
                Err(e) => r == Err::<(), Error>(e) && final(self)@ == old(self)@,
            },
    {
        let owner_ok = match self.feeds.get(&feed_id) {
            None => {
                return Err(Error::FeedNotFound);
            },
            Some(c) => c.owner == caller,
        };
        if !owner_ok {
            return Err(Error::NotFeedOwner);
        }
        let mut meta = match self.requesters.get(&(feed_id, requester)) {
            Some(q) => *q,
            None => Requester { delay: 0, last_started_round: None },
        };
        meta.delay = delay;
        self.requesters.insert((feed_id, requester), meta);
        proof {
            assert(self@ =~~= set_requester_spec(
                old(self)@,
                caller,
                feed_id,
                requester,
                delay,
            )->Ok_0);
        }
        Ok(())
    }

    /// Revoke requester permissions for the feed.
    pub fn remove_requester(&mut self, caller: u64, feed_id: u64, requester: u64) -> (r: Result<
        (),
        Error,
    >)
        requires
            old(self).wf(),
        ensures
            final(self).wf(),
            match remove_requester_spec(old(self)@, caller, feed_id, requester) {
                Ok(s) => r is Ok && final(self)@ == s,
                Err(e) => r == Err::<(), Error>(e) && final(self)@ == old(self)@,
            },
    {
        let owner_ok = match self.feeds.get(&feed_id) {
            None => {
                return Err(Error::FeedNotFound);
            },
            Some(c) => c.owner == caller,
        };
        if !owner_ok {
            return Err(Error::NotFeedOwner);
        }
        match self.requesters.remove(&(feed_id, requester)) {
            None => {
                proof {
                    assert(self@ =~~= old(self)@);
                }
                Err(Error::RequesterNotFound)
            },
            Some(_) => {
                proof {
                    assert(self@ =~~= remove_requester_spec(
                        old(self)@,
                        caller,
                        feed_id,
                        requester,
                    )->Ok_0);
                }
                Ok(())
            },
        }
    }

    /// Initiate a feed ownership transfer.
    pub fn transfer_ownership(&mut self, caller: u64, feed_id: u64, new_owner: u64) -> (r: Result<
        (),
        Error,
    >)
        requires
            old(self).wf(),
        ensures
            final(self).wf(),
            match transfer_ownership_spec(old(self)@, caller, feed_id, new_owner) {
                Ok(s) => r is Ok && final(self)@ == s,
                Err(e) => r == Err::<(), Error>(e) && final(self)@ == old(self)@,
            },
    {
        let mut cfg: FeedConfig;
        match self.feeds.get(&feed_id) {
            None => {
                return Err(Error::FeedNotFound);
            },
            Some(c) => {
                cfg = c.snapshot();
            },
        }
        if cfg.owner != caller {
            return Err(Error::NotFeedOwner);
        }
        cfg.pending_owner = Some(new_owner);
        let ghost gcfg = cfg;
        self.feeds.insert(feed_id, cfg);
        proof {
            lemma_map_values_insert(old(self).feeds@, feed_cfg_view(), feed_id, gcfg);
            assert(self@ =~~= transfer_ownership_spec(
                old(self)@,
                caller,
                feed_id,
                new_owner,
            )->Ok_0);
        }
        Ok(())
    }

    /// Complete a feed ownership transfer.
    pub fn accept_ownership(&mut self, caller: u64, feed_id: u64) -> (r: Result<(), Error>)
        requires
            old(self).wf(),
        ensures
            final(self).wf(),
            match accept_ownership_spec(old(self)@, caller, feed_id) {
                Ok(s) => r is Ok && final(self)@ == s,
                Err(e) => r == Err::<(), Error>(e) && final(self)@ == old(self)@,
            },
    {
        let mut cfg: FeedConfig;
        match self.feeds.get(&feed_id) {
            None => {
                return Err(Error::FeedNotFound);
            },
            Some(c) => {
                cfg = c.snapshot();
            },
        }
        let matches_pending = match cfg.pending_owner {
            Some(p) => p == caller,
            None => false,
        };
        if !matches_pending {
            return Err(Error::NotPendingOwner);
        }
        cfg.pending_owner = None;
        cfg.owner = caller;
        let ghost gcfg = cfg;
        self.feeds.insert(feed_id, cfg);
        proof {
            lemma_map_values_insert(old(self).feeds@, feed_cfg_view(), feed_id, gcfg);
            assert(self@ =~~= accept_ownership_spec(old(self)@, caller, feed_id)->Ok_0);
        }
        Ok(())
    }

    /// Initiate a pallet admin transfer.
    pub fn transfer_pallet_admin(&mut self, caller: u64, new_admin: u64) -> (r: Result<(), Error>)
        requires
            old(self).wf(),
        ensures
            final(self).wf(),
            match transfer_pallet_admin_spec(old(self)@, caller, new_admin) {
                Ok(s) => r is Ok && final(self)@ == s,
                Err(e) => r == Err::<(), Error>(e) && final(self)@ == old(self)@,
            },
    {
        if caller != self.pallet_admin {
            return Err(Error::NotPalletAdmin);
        }
        self.pending_pallet_admin = Some(new_admin);
        proof {
            assert(self@ =~~= transfer_pallet_admin_spec(old(self)@, caller, new_admin)->Ok_0);
        }
        Ok(())
    }

    /// Complete a pallet admin transfer.
    pub fn accept_pallet_admin(&mut self, caller: u64) -> (r: Result<(), Error>)
        requires
            old(self).wf(),
        ensures
            final(self).wf(),
            match accept_pallet_admin_spec(old(self)@, caller) {
                Ok(s) => r is Ok && final(self)@ == s,
                Err(e) => r == Err::<(), Error>(e) && final(self)@ == old(self)@,
            },
    {
        let matches_pending = match self.pending_pallet_admin {
            Some(p) => p == caller,
            None => false,
        };
        if !matches_pending {
            return Err(Error::NotPendingPalletAdmin);
        }
        self.pending_pallet_admin = None;
        self.pallet_admin = caller;
        proof {
            assert(self@ =~~= accept_pallet_admin_spec(old(self)@, caller)->Ok_0);
        }
        Ok(())
    }
}


impl FeedModule {
    /// Enable the given oracles for the feed, one at a time. On success the
    /// oracle and status maps are exactly the transition's; on failure they
    /// are left dirty and the caller restores its snapshots. No other part of
    /// the store is touched.
    fn add_oracles(&mut self, feed_id: u64, reporting_round: u64, to_add: &Vec<(u64, u64)>) -> (r:
        Result<(), Error>)
        requires
            old(self).wf(),
        ensures
            final(self).wf(),
            final(self)@ == (StoreView {
                oracles: final(self)@.oracles,
                oracle_stati: final(self)@.oracle_stati,
                ..old(self)@
            }),
            match add_oracles_spec(
                old(self)@.oracles,
                old(self)@.oracle_stati,
                feed_id,
                reporting_round,
                to_add@,
            ) {
                Ok(maps) => r is Ok && final(self)@.oracles == maps.0 && final(self)@.oracle_stati
                    == maps.1,
                Err(e) => r == Err::<(), Error>(e),
            },
    {
        let n = to_add.len();
        let mut i: usize = 0;
        proof {
            assert(to_add@.skip(0) =~= to_add@);
        }
        while i < n
            invariant
                self.wf(),
                i <= n,
                n == to_add@.len(),
                self@ == (StoreView {
                    oracles: self@.oracles,
                    oracle_stati: self@.oracle_stati,
                    ..old(self)@
                }),
                add_oracles_spec(
                    old(self)@.oracles,
                    old(self)@.oracle_stati,
                    feed_id,
                    reporting_round,
                    to_add@,
                ) == add_oracles_spec(
                    self@.oracles,
                    self@.oracle_stati,
                    feed_id,
                    reporting_round,
                    to_add@.skip(i as int),
                ),
            decreases n - i,
        {
            let ghost pre_o = self@.oracles;
            let ghost pre_s = self@.oracle_stati;
            let (oracle, admin) = to_add[i];
            proof {
                assert(to_add@.skip(i as int)[0] == to_add@[i as int]);
                assert(to_add@.skip(i as int).drop_first() =~= to_add@.skip(i as int + 1));
            }
            match self.oracles.get(&oracle) {
                Some(m) => {
                    if m.admin != admin {
                        return Err(Error::OwnerCannotChangeAdmin);
                    }
                },
                None => {
                    self.oracles.insert(
                        oracle,
                        OracleMeta { withdrawable: 0, admin, pending_admin: None },
                    );
                },
            }
            let enabled = match self.oracle_stati.get(&(feed_id, oracle)) {
                Some(st) => st.ending_round.is_none(),
                None => false,
            };
            if enabled {
                return Err(Error::AlreadyEnabled);
            }
            self.oracle_stati.insert(
                (feed_id, oracle),
                OracleStatus {
                    starting_round: reporting_round,
                    ending_round: None,
                    last_reported_round: None,
                    last_started_round: None,
                    latest_submission: None,
                },
            );
            i = i + 1;
        }
        proof {
            assert(to_add@.skip(n as int) =~= Seq::<(u64, u64)>::empty());
        }
        Ok(())
    }

    /// Disable the given (deduplicated) oracles for the feed, one at a time.
    /// On success the status map is exactly the transition's; on failure it is
    /// left dirty and the caller restores its snapshot. No other part of the
    /// store is touched.
    fn disable_oracles(&mut self, feed_id: u64, reporting_round: u64, ds: &Vec<u64>) -> (r: Result<
        (),
        Error,
    >)
        requires
            old(self).wf(),
        ensures
            final(self).wf(),
            final(self)@ == (StoreView { oracle_stati: final(self)@.oracle_stati, ..old(self)@ }),
            match disable_oracles_spec(old(self)@.oracle_stati, feed_id, reporting_round, ds@) {
                Ok(sm) => r is Ok && final(self)@.oracle_stati == sm,
                Err(e) => r == Err::<(), Error>(e),
            },
    {
        let n = ds.len();
        let mut i: usize = 0;
        proof {
            assert(ds@.skip(0) =~= ds@);
        }
        while i < n
            invariant
                self.wf(),
                i <= n,
                n == ds@.len(),
                self@ == (StoreView { oracle_stati: self@.oracle_stati, ..old(self)@ }),
                disable_oracles_spec(old(self)@.oracle_stati, feed_id, reporting_round, ds@)
                    == disable_oracles_spec(
                    self@.oracle_stati,
                    feed_id,
                    reporting_round,
                    ds@.skip(i as int),
                ),
            decreases n - i,
        {
            let d = ds[i];
            proof {
                assert(ds@.skip(i as int)[0] == ds@[i as int]);
                assert(ds@.skip(i as int).drop_first() =~= ds@.skip(i as int + 1));
            }
            let mut st = match self.oracle_stati.get(&(feed_id, d)) {
                None => {
                    return Err(Error::OracleNotFound);
                },
                Some(s) => *s,
            };
            if st.ending_round.is_some() {
                return Err(Error::OracleDisabled);
            }
            st.ending_round = Some(reporting_round);
            self.oracle_stati.insert((feed_id, d), st);
            i = i + 1;
        }
        proof {
            assert(ds@.skip(n as int) =~= Seq::<u64>::empty());
        }
        Ok(())
    }

    /// Creates a new oracle feed with the given config values.
    pub fn create_feed(
        &mut self,
        caller: u64,
        payment_amount: u64,
        timeout: u64,
        submission_value_bounds: (u64, u64),
        submission_count_bounds: (u32, u32),
        decimals: u8,
        description: Vec<u8>,
        restart_delay: u64,
        oracles: Vec<(u64, u64)>,
        now: u64,
    ) -> (r: Result<(), Error>)
        requires
            old(self).wf(),
        ensures
            final(self).wf(),
            match create_feed_spec(
                old(self)@,
                caller,
                payment_amount,
                timeout,
                submission_value_bounds,
                submission_count_bounds,
                decimals,
                description@,
                restart_delay,
                oracles@,
                now,
            ) {
                Ok(s) => r is Ok && final(self)@ == s,
                Err(e) => r == Err::<(), Error>(e) && final(self)@ == old(self)@,
            },
    {
        if description.len() > self.limits.string_limit as usize {
            return Err(Error::DescriptionTooLong);
        }
        if self.feed_counter == u64::MAX {
            return Err(Error::Overflow);
        }
        let id = self.feed_counter;
        if oracles.len() > u32::MAX as usize {
            return Err(Error::Overflow);
        }
        if oracles.len() > self.limits.oracle_count_limit as usize {
            return Err(Error::OraclesLimitExceeded);
        }
        let saved_oracles = self.oracles.duplicate();
        let saved_stati = self.oracle_stati.duplicate();
        match self.add_oracles(id, 0, &oracles) {
            Err(e) => {
                self.oracles = saved_oracles;
                self.oracle_stati = saved_stati;
                proof {
                    assert(self@ =~~= old(self)@);
                }
                return Err(e);
            },
            Ok(_) => {},
        }
        self.feed_counter = id + 1;
        self.rounds.insert(
            (id, 0),
            Round { started_at: now, answer: Some(0), updated_at: Some(now), answered_in_round: Some(0) },
        );
        let cfg = FeedConfig {
            owner: caller,
            pending_owner: None,
            submission_value_bounds,
            submission_count_bounds,
            payment_amount,
            timeout,
            decimals,
            description,
            restart_delay,
            reporting_round: 0,
            latest_round: 0,
            first_valid_round: None,
            oracle_count: oracles.len() as u32,
        };
        let ghost gcfg = cfg;
        self.feeds.insert(id, cfg);
        proof {
            lemma_map_values_insert(old(self).feeds@, feed_cfg_view(), id, gcfg);
            assert(self@ =~~= create_feed_spec(
                old(self)@,
                caller,
                payment_amount,
                timeout,
                submission_value_bounds,
                submission_count_bounds,
                decimals,
                description@,
                restart_delay,
                oracles@,
                now,
            )->Ok_0);
        }
        Ok(())
    }

    /// Disable and add oracles for a feed in one atomic operation.
    pub fn change_oracles(
        &mut self,
        caller: u64,
        feed_id: u64,
        to_disable: Vec<u64>,
        to_add: Vec<(u64, u64)>,
    ) -> (r: Result<(), Error>)
        requires
            old(self).wf(),
        ensures
            final(self).wf(),
            match change_oracles_spec(old(self)@, caller, feed_id, to_disable@, to_add@) {
                Ok(s) => r is Ok && final(self)@ == s,
                Err(e) => r == Err::<(), Error>(e) && final(self)@ == old(self)@,
            },
    {
        let mut cfg: FeedConfig;
        match self.feeds.get(&feed_id) {
            None => {
                return Err(Error::FeedNotFound);
            },
            Some(c) => {
                cfg = c.snapshot();
            },
        }
        if cfg.owner != caller {
            return Err(Error::NotFeedOwner);
        }
        let mut sorted = to_disable;
        sort_values_in_place(&mut sorted);
        let ds = dedup_sorted_vec(&sorted);
        let count1: u32 = if ds.len() > cfg.oracle_count as usize {
            0
        } else {
            cfg.oracle_count - ds.len() as u32
        };
        let saved_stati = self.oracle_stati.duplicate();
        match self.disable_oracles(feed_id, cfg.reporting_round, &ds) {
            Err(e) => {
                self.oracle_stati = saved_stati;
                proof {
                    assert(self@ =~~= old(self)@);
                }
                return Err(e);
            },
            Ok(_) => {},
        }
        if to_add.len() > (u32::MAX - count1) as usize {
            self.oracle_stati = saved_stati;
            proof {
                assert(self@ =~~= old(self)@);
            }
            return Err(Error::Overflow);
        }
        let new_count: u32 = count1 + to_add.len() as u32;
        if new_count > self.limits.oracle_count_limit {
            self.oracle_stati = saved_stati;
            proof {
                assert(self@ =~~= old(self)@);
            }
            return Err(Error::OraclesLimitExceeded);
        }
        let saved_oracles = self.oracles.duplicate();
        match self.add_oracles(feed_id, cfg.reporting_round, &to_add) {
            Err(e) => {
                self.oracle_stati = saved_stati;
                self.oracles = saved_oracles;
                proof {
                    assert(self@ =~~= old(self)@);
                }
                return Err(e);
            },
            Ok(_) => {},
        }
        cfg.oracle_count = new_count;
        let ghost gcfg = cfg;
        self.feeds.insert(feed_id, cfg);
        proof {
            lemma_map_values_insert(old(self).feeds@, feed_cfg_view(), feed_id, gcfg);
            assert(self@ =~~= change_oracles_spec(
                old(self)@,
                caller,
                feed_id,
                to_disable@,
                to_add@,
            )->Ok_0);
        }
        Ok(())
    }
}

/// Remove duplicates from a sorted vector.
fn dedup_sorted_vec(v: &Vec<u64>) -> (r: Vec<u64>)
    ensures
        r@ == dedup_sorted(v@),
{
    let mut r: Vec<u64> = Vec::new();
    let n = v.len();
    let mut i: usize = 0;
    while i < n
        invariant
            i <= n,
            n == v@.len(),
            r@ == dedup_sorted(v@.subrange(0, i as int)),
        decreases n - i,
    {
        proof {
            assert(v@.subrange(0, i + 1 as int).drop_last() =~= v@.subrange(0, i as int));
        }
        if i == 0 || v[i] != v[i - 1] {
            r.push(v[i]);
        }
        i = i + 1;
    }
    proof {
        assert(v@.subrange(0, n as int) =~= v@);
    }
    r
}


impl FeedModule {
    /// Check whether a round is timed out. Returns `false` for rounds not
    /// present in storage.
    pub fn timed_out(&self, feed_id: u64, round_id: u64, now: u64) -> (r: bool)
        requires
            self.wf(),
            timeout_sum_ok(self@, feed_id, round_id),
        ensures
            r == timed_out_spec(self@, feed_id, round_id, now),
    {
        let started_at = match self.rounds.get(&(feed_id, round_id)) {
            Some(r) => r.started_at,
            None => 0,
        };
        let timeout = match self.details.get(&(feed_id, round_id)) {
            Some(d) => d.timeout,
            None => 0,
        };
        started_at > 0 && timeout > 0 && started_at + timeout < now
    }

    /// Close a timed out round: inherit the predecessor's answer and remove
    /// the round's details.
    fn close_timed_out_round(&mut self, feed_id: u64, timed_out_id: u64, now: u64) -> (r: Result<
        (),
        Error,
    >)
        requires
            old(self).wf(),
        ensures
            final(self).wf(),
            match close_timed_out_spec(old(self)@, feed_id, timed_out_id, now) {
                Ok(s) => r is Ok && final(self)@ == s,
                Err(e) => r == Err::<(), Error>(e) && final(self)@ == old(self)@,
            },
    {
        let prev_id = saturating_sub(timed_out_id, 1);
        let prev = match self.rounds.get(&(feed_id, prev_id)) {
            None => {
                return Err(Error::RoundNotFound);
            },
            Some(r) => *r,
        };
        let mut round = match self.rounds.get(&(feed_id, timed_out_id)) {
            None => {
                return Err(Error::RoundNotFound);
            },
            Some(r) => *r,
        };
        round.answer = prev.answer;
        round.answered_in_round = prev.answered_in_round;
        round.updated_at = Some(now);
        self.rounds.insert((feed_id, timed_out_id), round);
        self.details.remove(&(feed_id, timed_out_id));
        proof {
            lemma_map_values_remove(
                old(self).details@,
                round_details_view(),
                (feed_id, timed_out_id),
            );
            assert(self@ =~~= close_timed_out_spec(old(self)@, feed_id, timed_out_id, now)->Ok_0);
        }
        Ok(())
    }

    /// Initialize a new round: refuse unless the superseded round is
    /// finalized or timed out, force-close a timed-out predecessor, then
    /// create the round's details (snapshotting the feed's current
    /// parameters) and a fresh round record.
    fn initialize_round(&mut self, feed_id: u64, cfg: &FeedConfig, new_round_id: u64, now: u64) -> (r:
        Result<(), Error>)
        requires
            old(self).wf(),
            timeout_sum_ok(old(self)@, feed_id, spec_sat_sub(new_round_id, 1)),
        ensures
            final(self).wf(),
            match initialize_round_spec(old(self)@, feed_id, cfg@, new_round_id, now) {
                Ok(s) => r is Ok && final(self)@ == s,
                Err(e) => r == Err::<(), Error>(e) && final(self)@ == old(self)@,
            },
    {
        let prev_id = saturating_sub(new_round_id, 1);
        if prev_id != 0 {
            let updated = match self.rounds.get(&(feed_id, prev_id)) {
                None => {
                    return Err(Error::RoundNotFound);
                },
                Some(r) => r.updated_at.is_some(),
            };
            if !updated && !self.timed_out(feed_id, prev_id, now) {
                return Err(Error::RoundNotSupersedable);
            }
        }
        if self.timed_out(feed_id, prev_id, now) {
            match self.close_timed_out_round(feed_id, prev_id, now) {
                Err(e) => {
                    return Err(e);
                },
                Ok(_) => {},
            }
        }
        let ghost mid_raw = self.details@;
        let fresh = RoundDetails {
            submissions: Vec::new(),
            submission_count_bounds: cfg.submission_count_bounds,
            payment_amount: cfg.payment_amount,
            timeout: cfg.timeout,
        };
        let ghost gfresh = fresh;
        self.details.insert((feed_id, new_round_id), fresh);
        self.rounds.insert(
            (feed_id, new_round_id),
            Round { started_at: now, answer: None, updated_at: None, answered_in_round: None },
        );
        proof {
            lemma_map_values_insert(mid_raw, round_details_view(), (feed_id, new_round_id), gfresh);
            assert(self@ =~~= initialize_round_spec(
                old(self)@,
                feed_id,
                cfg@,
                new_round_id,
                now,
            )->Ok_0);
        }
        Ok(())
    }

    /// The authorization check for a submission: the oracle must have a
    /// status for the feed, be enabled no later than the round, not be
    /// disabled before it, and never report the same or an earlier round
    /// twice.
    fn ensure_round_valid_for(&self, feed_id: u64, acc: u64, round_id: u64) -> (r: Result<
        (),
        Error,
    >)
        requires
            self.wf(),
        ensures
            match eligibility_error(self@, feed_id, acc, round_id) {
                Some(e) => r == Err::<(), Error>(e),
                None => r is Ok,
            },
    {
        let st = match self.oracle_stati.get(&(feed_id, acc)) {
            None => {
                return Err(Error::NotOracle);
            },
            Some(s) => *s,
        };
        if !(st.starting_round <= round_id) {
            return Err(Error::OracleNotEnabled);
        }
        match st.ending_round {
            Some(e) => {
                if !(e >= round_id) {
                    return Err(Error::OracleDisabled);
                }
            },
            None => {},
        }
        match st.last_reported_round {
            Some(l) => {
                if !(l < round_id) {
                    return Err(Error::ReportingOrder);
                }
            },
            None => {},
        }
        Ok(())
    }

    /// Submit a value for a round of a feed. The central operation: opens
    /// the next round when targeted and permitted (only once the current
    /// round is answered or timed out), records the submission, finalizes
    /// the answer at the minimum count, accrues the oracle's payment, and
    /// closes the round at the maximum count — all or nothing.
    pub fn submit(&mut self, caller: u64, feed_id: u64, round_id: u64, submission: u64, now: u64) -> (r:
        Result<(), Error>)
        requires
            old(self).wf(),
            old(self)@.feeds.contains_key(feed_id) ==> timeout_sum_ok(
                old(self)@,
                feed_id,
                old(self)@.feeds[feed_id].reporting_round,
            ),
        ensures
            final(self).wf(),
            match submit_spec(old(self)@, caller, feed_id, round_id, submission, now) {
                Ok(s) => r is Ok && final(self)@ == s,
                Err(e) => r == Err::<(), Error>(e) && final(self)@ == old(self)@,
            },
    {
        // authorization
        match self.ensure_round_valid_for(feed_id, caller, round_id) {
            Err(e) => {
                return Err(e);
            },
            Ok(_) => {},
        }
        let st = match self.oracle_stati.get(&(feed_id, caller)) {
            None => {
                return Err(Error::NotOracle);
            },
            Some(s) => *s,
        };
        // feed and value bounds
        let mut cfg: FeedConfig;
        match self.feeds.get(&feed_id) {
            None => {
                return Err(Error::FeedNotFound);
            },
            Some(c) => {
                cfg = c.snapshot();
            },
        }
        if submission < cfg.submission_value_bounds.0 {
            return Err(Error::SubmissionBelowMinimum);
        }
        if submission > cfg.submission_value_bounds.1 {
            return Err(Error::SubmissionAboveMaximum);
        }
        if cfg.reporting_round == u64::MAX {
            return Err(Error::Overflow);
        }
        let new_round_id = cfg.reporting_round + 1;
        let last_started = match st.last_started_round {
            Some(x) => x,
            None => 0,
        };
        if cfg.restart_delay > u64::MAX - last_started {
            return Err(Error::Overflow);
        }
        let t = last_started + cfg.restart_delay;
        if t == u64::MAX {
            return Err(Error::Overflow);
        }
        let next_eligible = t + 1;
        let eligible = round_id >= next_eligible || st.last_started_round.is_none();
        let opening = round_id == new_round_id && eligible;
        // pre-checks: determine every later failure before mutating anything
        if opening {
            let prev_id = saturating_sub(new_round_id, 1);
            if prev_id != 0 {
                let updated = match self.rounds.get(&(feed_id, prev_id)) {
                    None => {
                        return Err(Error::RoundNotFound);
                    },
                    Some(r) => r.updated_at.is_some(),
                };
                if !updated && !self.timed_out(feed_id, prev_id, now) {
                    return Err(Error::RoundNotSupersedable);
                }
            }
            if self.timed_out(feed_id, prev_id, now) {
                let prev_prev = saturating_sub(prev_id, 1);
                if !self.rounds.contains_key(&(feed_id, prev_prev)) {
                    return Err(Error::RoundNotFound);
                }
            }
        }
        let eff_min: u32;
        let eff_max: u32;
        let eff_payment: u64;
        let cur_len: usize;
        if opening {
            eff_min = cfg.submission_count_bounds.0;
            eff_max = cfg.submission_count_bounds.1;
            eff_payment = cfg.payment_amount;
            cur_len = 0;
        } else {
            match self.details.get(&(feed_id, round_id)) {
                None => {
                    return Err(Error::NotAcceptingSubmissions);
                },
                Some(d) => {
                    eff_min = d.submission_count_bounds.0;
                    eff_max = d.submission_count_bounds.1;
                    eff_payment = d.payment_amount;
                    cur_len = d.submissions.len();
                },
            }
        }
        let answering = if eff_min == 0 {
            true
        } else {
            cur_len >= (eff_min - 1) as usize
        };
        if answering && !opening {
            if !self.rounds.contains_key(&(feed_id, round_id)) {
                return Err(Error::RoundNotFound);
            }
        }
        let fund = self.limits.fund_account;
        let free_b = self.ledger.free_balance(fund);
        if free_b < eff_payment {
            return Err(Error::InsufficientFunds);
        }
        let reserved_b = self.ledger.reserved_balance(fund);
        if eff_payment > u64::MAX - reserved_b {
            return Err(Error::Overflow);
        }
        let mut meta = match self.oracles.get(&caller) {
            None => {
                return Err(Error::OracleNotFound);
            },
            Some(m) => *m,
        };
        if meta.withdrawable > u64::MAX - eff_payment {
            return Err(Error::Overflow);
        }
        // commit: no step below can fail
        let mut st1 = st;
        if opening {
            cfg.reporting_round = new_round_id;
            st1.last_started_round = Some(new_round_id);
            match self.initialize_round(feed_id, &cfg, new_round_id, now) {
                Err(_) => {
                    proof {
                        assert(false);
                    }
                    return Err(Error::RoundNotFound);
                },
                Ok(_) => {},
            }
        }
        let ghost s1 = self@;
        let mut d = match self.details.remove(&(feed_id, round_id)) {
            None => {
                proof {
                    assert(false);
                }
                return Err(Error::NotAcceptingSubmissions);
            },
            Some(d) => d,
        };
        proof {
            lemma_map_values_remove(old(self).details@, round_details_view(), (feed_id, round_id));
        }
        d.submissions.push(submission);
        st1.last_reported_round = Some(round_id);
        st1.latest_submission = Some(submission);
        self.oracle_stati.insert((feed_id, caller), st1);
        let subs_len = d.submissions.len();
        if subs_len >= eff_min as usize {
            let new_answer = median(&mut d.submissions);
            let mut round = match self.rounds.get(&(feed_id, round_id)) {
                None => {
                    proof {
                        assert(false);
                    }
                    return Err(Error::RoundNotFound);
                },
                Some(r) => *r,
            };
            round.answer = Some(new_answer);
            round.updated_at = Some(now);
            round.answered_in_round = Some(round_id);
            self.rounds.insert((feed_id, round_id), round);
            cfg.latest_round = round_id;
            if cfg.first_valid_round.is_none() {
                cfg.first_valid_round = Some(round_id);
            }
        }
        match self.ledger.reserve(fund, eff_payment) {
            Err(_) => {
                proof {
                    assert(false);
                }
                return Err(Error::Overflow);
            },
            Ok(_) => {},
        }
        meta.withdrawable = meta.withdrawable + eff_payment;
        self.oracles.insert(caller, meta);
        let ghost gcfg = cfg;
        let ghost pre_feeds_raw = self.feeds@;
        self.feeds.insert(feed_id, cfg);
        proof {
            lemma_map_values_insert(pre_feeds_raw, feed_cfg_view(), feed_id, gcfg);
        }
        let ghost gd = d;
        let ghost pre_details_raw = self.details@;
        if subs_len < eff_max as usize {
            self.details.insert((feed_id, round_id), d);
        }
        proof {
            lemma_map_values_insert(pre_details_raw, round_details_view(), (feed_id, round_id), gd);
            let target = submit_spec(old(self)@, caller, feed_id, round_id, submission, now);
            assert(target is Ok);
            assert(self@ =~~= target->Ok_0);
        }
        Ok(())
    }

    /// Open a new round at the prompting of an authorized requester.
    pub fn request_new_round(&mut self, caller: u64, feed_id: u64, now: u64) -> (r: Result<
        (),
        Error,
    >)
        requires
            old(self).wf(),
            old(self)@.feeds.contains_key(feed_id) ==> timeout_sum_ok(
                old(self)@,
                feed_id,
                old(self)@.feeds[feed_id].reporting_round,
            ),
        ensures
            final(self).wf(),
            match request_new_round_spec(old(self)@, caller, feed_id, now) {
                Ok(s) => r is Ok && final(self)@ == s,
                Err(e) => r == Err::<(), Error>(e) && final(self)@ == old(self)@,
            },
    {
        let mut req = match self.requesters.get(&(feed_id, caller)) {
            None => {
                return Err(Error::NotAuthorizedRequester);
            },
            Some(q) => *q,
        };
        let mut cfg: FeedConfig;
        match self.feeds.get(&feed_id) {
            None => {
                return Err(Error::FeedNotFound);
            },
            Some(c) => {
                cfg = c.snapshot();
            },
        }
        let first_or_updated = if cfg.reporting_round == 0 {
            true
        } else {
            match self.rounds.get(&(feed_id, cfg.reporting_round)) {
                None => {
                    return Err(Error::RoundNotFound);
                },
                Some(r) => r.updated_at.is_some(),
            }
        };
        if !(first_or_updated || self.timed_out(feed_id, cfg.reporting_round, now)) {
            return Err(Error::RoundNotSupersedable);
        }
        if cfg.reporting_round == u64::MAX {
            return Err(Error::Overflow);
        }
        let new_round = cfg.reporting_round + 1;
        let last_started = match req.last_started_round {
            Some(x) => x,
            None => 0,
        };
        if req.delay > u64::MAX - last_started {
            return Err(Error::Overflow);
        }
        let next_allowed = last_started + req.delay;
        if !(req.last_started_round.is_none() || new_round > next_allowed) {
            return Err(Error::CannotRequestRoundYet);
        }
        if self.timed_out(feed_id, cfg.reporting_round, now) {
            let prev_prev = saturating_sub(cfg.reporting_round, 1);
            if !self.rounds.contains_key(&(feed_id, prev_prev)) {
                return Err(Error::RoundNotFound);
            }
        }
        match self.initialize_round(feed_id, &cfg, new_round, now) {
            Err(_) => {
                proof {
                    assert(false);
                }
                return Err(Error::RoundNotFound);
            },
            Ok(_) => {},
        }
        req.last_started_round = Some(new_round);
        self.requesters.insert((feed_id, caller), req);
        cfg.reporting_round = new_round;
        let ghost gcfg = cfg;
        let ghost pre_feeds_raw = self.feeds@;
        self.feeds.insert(feed_id, cfg);
        proof {
            lemma_map_values_insert(pre_feeds_raw, feed_cfg_view(), feed_id, gcfg);
            let target = request_new_round_spec(old(self)@, caller, feed_id, now);
            assert(target is Ok);
            assert(self@ =~~= target->Ok_0);
        }
        Ok(())
    }

    /// Open a new round on out-of-band authority: no requester record is
    /// needed, but the current round must still be superseded.
    pub fn start_new_round(&mut self, feed_id: u64, now: u64) -> (r: Result<(), Error>)
        requires
            old(self).wf(),
            old(self)@.feeds.contains_key(feed_id) ==> timeout_sum_ok(
                old(self)@,
                feed_id,
                old(self)@.feeds[feed_id].reporting_round,
            ),
        ensures
            final(self).wf(),
            match start_new_round_spec(old(self)@, feed_id, now) {
                Ok(s) => r is Ok && final(self)@ == s,
                Err(e) => r == Err::<(), Error>(e) && final(self)@ == old(self)@,
            },
    {
        let mut cfg: FeedConfig;
        match self.feeds.get(&feed_id) {
            None => {
                return Err(Error::FeedNotFound);
            },
            Some(c) => {
                cfg = c.snapshot();
            },
        }
        let first_or_updated = if cfg.reporting_round == 0 {
            true
        } else {
            match self.rounds.get(&(feed_id, cfg.reporting_round)) {
                None => {
                    return Err(Error::RoundNotFound);
                },
                Some(r) => r.updated_at.is_some(),
            }
        };
        if cfg.reporting_round == u64::MAX {
            return Err(Error::Overflow);
        }
        if !(first_or_updated || self.timed_out(feed_id, cfg.reporting_round, now)) {
            return Err(Error::RoundNotSupersedable);
        }
        let new_round = cfg.reporting_round + 1;
        if self.timed_out(feed_id, cfg.reporting_round, now) {
            let prev_prev = saturating_sub(cfg.reporting_round, 1);
            if !self.rounds.contains_key(&(feed_id, prev_prev)) {
                return Err(Error::RoundNotFound);
            }
        }
        match self.initialize_round(feed_id, &cfg, new_round, now) {
            Err(_) => {
                proof {
                    assert(false);
                }
                return Err(Error::RoundNotFound);
            },
            Ok(_) => {},
        }
        cfg.reporting_round = new_round;
        let ghost gcfg = cfg;
        let ghost pre_feeds_raw = self.feeds@;
        self.feeds.insert(feed_id, cfg);
        proof {
            lemma_map_values_insert(pre_feeds_raw, feed_cfg_view(), feed_id, gcfg);
            let target = start_new_round_spec(old(self)@, feed_id, now);
            assert(target is Ok);
            assert(self@ =~~= target->Ok_0);
        }
        Ok(())
    }

    /// Prune the historical rounds in `[first_to_prune, keep_round)`, clamped
    /// so that the retention window behind the latest round survives. Round
    /// zero can never be pruned.
    pub fn prune(&mut self, caller: u64, feed_id: u64, first_to_prune: u64, keep_round: u64) -> (r:
        Result<(), Error>)
        requires
            old(self).wf(),
        ensures
            final(self).wf(),
            match prune_spec(old(self)@, caller, feed_id, first_to_prune, keep_round) {
                Ok(s) => r is Ok && final(self)@ == s,
                Err(e) => r == Err::<(), Error>(e) && final(self)@ == old(self)@,
            },
    {
        if !(first_to_prune > 0) {
            return Err(Error::CannotPruneRoundZero);
        }
        if !(keep_round > first_to_prune) {
            return Err(Error::CannotPruneRoundZero);
        }
        let mut cfg: FeedConfig;
        match self.feeds.get(&feed_id) {
            None => {
                return Err(Error::FeedNotFound);
            },
            Some(c) => {
                cfg = c.snapshot();
            },
        }
        if cfg.owner != caller {
            return Err(Error::NotFeedOwner);
        }
        let fvr = match cfg.first_valid_round {
            None => {
                return Err(Error::NothingToPrune);
            },
            Some(x) => x,
        };
        let window = self.limits.pruning_window;
        if !(saturating_sub(cfg.latest_round, first_to_prune) > window) {
            return Err(Error::NothingToPrune);
        }
        let cap = saturating_sub(cfg.latest_round, window);
        let keep = if cap < keep_round {
            cap
        } else {
            keep_round
        };
        let ghost rounds0 = self.rounds@;
        let ghost details0 = self.details@;
        let mut rid = first_to_prune;
        proof {
            assert(self.rounds@ =~= rounds0.remove_keys(
                pruned_keys(feed_id, first_to_prune, first_to_prune),
            ));
            assert(self.details@ =~= details0.remove_keys(
                pruned_keys(feed_id, first_to_prune, first_to_prune),
            ));
        }
        while rid < keep
            invariant
                self.wf(),
                first_to_prune <= rid <= keep,
                self@ == (StoreView {
                    rounds: self@.rounds,
                    details: self@.details,
                    ..old(self)@
                }),
                self.rounds@ == rounds0.remove_keys(pruned_keys(feed_id, first_to_prune, rid)),
                self.details@ == details0.remove_keys(pruned_keys(feed_id, first_to_prune, rid)),
            decreases keep - rid,
        {
            self.rounds.remove(&(feed_id, rid));
            self.details.remove(&(feed_id, rid));
            proof {
                assert(self.rounds@ =~= rounds0.remove_keys(
                    pruned_keys(feed_id, first_to_prune, (rid + 1) as u64),
                ));
                assert(self.details@ =~= details0.remove_keys(
                    pruned_keys(feed_id, first_to_prune, (rid + 1) as u64),
                ));
            }
            rid = rid + 1;
        }
        cfg.first_valid_round = Some(
            if keep > fvr {
                keep
            } else {
                fvr
            },
        );
        let ghost gcfg = cfg;
        let ghost pre_feeds_raw = self.feeds@;
        self.feeds.insert(feed_id, cfg);
        proof {
            lemma_map_values_insert(pre_feeds_raw, feed_cfg_view(), feed_id, gcfg);
            assert(self@.details =~= old(self)@.details.remove_keys(
                pruned_keys(feed_id, first_to_prune, keep),
            ));
            let target = prune_spec(old(self)@, caller, feed_id, first_to_prune, keep_round);
            assert(target is Ok);
            assert(self@ =~~= target->Ok_0);
        }
        Ok(())
    }
}

} // verus!
