//! Read-only feed queries: a transient proxy object for a feed, giving
//! consumers the first valid round, the latest round, and fully finalized
//! round data; plus the out-of-band way to request a new round.

use vstd::prelude::*;
use crate::store::FeedModule;
use crate::transitions::{data_at_spec, start_new_round_spec, timeout_sum_ok};
use crate::types::{Error, FeedConfig, FeedConfigV, RoundData};

verus! {

/// A transient proxy for interacting with one feed. Holds a copy of the
/// feed's configuration as of its creation or last reload.
pub struct Feed {
    id: u64,
    config: FeedConfig,
}

impl Feed {
    /// The feed id this proxy addresses.
    pub closed spec fn spec_id(&self) -> u64 {
        self.id
    }

    /// The configuration copy this proxy holds.
    pub closed spec fn spec_config(&self) -> FeedConfigV {
        self.config@
    }

    /// Refresh the held configuration from the store.
    pub fn reload(&mut self, m: &FeedModule)
        requires
            m.wf(),
            m@.feeds.contains_key(old(self).spec_id()),
        ensures
            final(self).spec_id() == old(self).spec_id(),
            final(self).spec_config() == m@.feeds[old(self).spec_id()],
    {
        match m.feed_config(self.id) {
            Some(c) => {
                self.config = c.snapshot();
            },
            None => {
                proof {
                    assert(false);
                }
            },
        }
    }

    /// Returns the id of the first round that contains non-default data.
    pub fn first_valid_round(&self) -> (r: Option<u64>)
        ensures
            r == self.spec_config().first_valid_round,
    {
        self.config.first_valid_round
    }

    /// Returns the id of the latest oracle round.
    pub fn latest_round(&self) -> (r: u64)
        ensures
            r == self.spec_config().latest_round,
    {
        self.config.latest_round
    }

    /// Returns the data for a given round, if it is fully finalized.
    pub fn data_at(&self, m: &FeedModule, round: u64) -> (r: Option<RoundData>)
        requires
            m.wf(),
        ensures
            r == data_at_spec(m@, self.spec_id(), round),
    {
        match m.round(self.id, round) {
            None => None,
            Some(rd) => match RoundData::try_from(&rd) {
                Ok(d) => Some(d),
                Err(_) => None,
            },
        }
    }

    /// Returns the latest data for the feed, or an all-zero record when the
    /// latest round's data is unavailable (a near-invariant violation).
    pub fn latest_data(&self, m: &FeedModule) -> (r: RoundData)
        requires
            m.wf(),
        ensures
            r == match data_at_spec(m@, self.spec_id(), self.spec_config().latest_round) {
                Some(d) => d,
                None => RoundData { started_at: 0, answer: 0, updated_at: 0, answered_in_round: 0 },
            },
    {
        match self.data_at(m, self.config.latest_round) {
            Some(d) => d,
            None => RoundData { started_at: 0, answer: 0, updated_at: 0, answered_in_round: 0 },
        }
    }

    /// Requests a new round be started for this feed, on out-of-band
    /// authority.
    pub fn request_new_round(&self, m: &mut FeedModule, now: u64) -> (r: Result<(), Error>)
        requires
            old(m).wf(),
            old(m)@.feeds.contains_key(self.spec_id()) ==> timeout_sum_ok(
                old(m)@,
                self.spec_id(),
                old(m)@.feeds[self.spec_id()].reporting_round,
            ),
        ensures
            final(m).wf(),
            match start_new_round_spec(old(m)@, self.spec_id(), now) {
                Ok(s) => r is Ok && final(m)@ == s,
                Err(e) => r == Err::<(), Error>(e) && final(m)@ == old(m)@,
            },
    {
        m.start_new_round(self.id, now)
    }
}

impl FeedModule {
    /// Return a transient feed proxy object for interacting with the feed
    /// given by the id.
    pub fn feed(&self, id: u64) -> (r: Option<Feed>)
        requires
            self.wf(),
        ensures
            match r {
                Some(f) => self@.feeds.contains_key(id) && f.spec_id() == id && f.spec_config()
                    == self@.feeds[id],
                None => !self@.feeds.contains_key(id),
            },
    {
        match self.feed_config(id) {
            None => None,
            Some(c) => Some(Feed { id, config: c.snapshot() }),
        }
    }
}

} // verus!
