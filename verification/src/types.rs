//! Data model: feed configuration, rounds, oracle records, requester
//! permissions, and the error enumeration.
//!
//! Account ids, feed ids, round ids, values, balances and block numbers are
//! all modeled as `u64`. Types whose fields carry sequences (`FeedConfig`,
//! `RoundDetails`) have ghost views with `Seq` fields; the remaining record
//! types contain only scalars and serve as their own abstraction.

use vstd::prelude::*;

verus! {

/// Why an operation was rejected. Every failure is local and recoverable:
/// the operation returns the error and leaves all state unchanged.
#[derive(Clone, Copy, Debug, PartialEq, Eq)]
pub enum Error {
    /// A math operation lead to an overflow.
    Overflow,
    /// Given account id is not an oracle.
    NotOracle,
    /// The oracle cannot submit as it is not enabled yet.
    OracleNotEnabled,
    /// The oracle has an ending round lower than the current round.
    OracleDisabled,
    /// The oracle cannot report for past rounds.
    ReportingOrder,
    /// Requested feed not present.
    FeedNotFound,
    /// Requested round not present.
    RoundNotFound,
    /// The specified account does not have requester permissions stored.
    RequesterNotFound,
    /// New round cannot be requested to supersede current round.
    RoundNotSupersedable,
    /// No oracle meta data found for the given account.
    OracleNotFound,
    /// Submissions are not accepted for the specified round.
    NotAcceptingSubmissions,
    /// Oracle submission is below the minimum value.
    SubmissionBelowMinimum,
    /// Oracle submission is above the maximum value.
    SubmissionAboveMaximum,
    /// The description string is too long.
    DescriptionTooLong,
    /// Tried to add too many oracles.
    OraclesLimitExceeded,
    /// The oracle was already enabled.
    AlreadyEnabled,
    /// The oracle address cannot change its associated admin.
    OwnerCannotChangeAdmin,
    /// Only the owner of a feed can change the configuration.
    NotFeedOwner,
    /// Only the pending owner of a feed can accept the transfer invitation.
    NotPendingOwner,
    /// The specified min/max pair was invalid.
    WrongBounds,
    /// The maximum number of submissions cannot exceed the number of oracles.
    MaxExceededTotal,
    /// The round initiation delay must be less than the number of oracles.
    DelayExceededTotal,
    /// Sender is not admin. Admin privilege can only be transfered by the admin.
    NotAdmin,
    /// Only the pending admin can accept the transfer.
    NotPendingAdmin,
    /// The requester cannot request a new round, yet.
    CannotRequestRoundYet,
    /// No requester permissions associated with the given account.
    NotAuthorizedRequester,
    /// Cannot withdraw funds.
    InsufficientFunds,
    /// Funds cannot be withdrawn as the reserve would be critically low.
    InsufficientReserve,
    /// Only the pallet admin account can call this operation.
    NotPalletAdmin,
    /// Only the pending admin can accept the transfer.
    NotPendingPalletAdmin,
    /// Round zero is not allowed to be pruned.
    CannotPruneRoundZero,
    /// The given pruning bounds don't cause any pruning with the current state.
    NothingToPrune,
}

/// Static limits of the module, fixed at construction.
#[derive(Clone, Copy, Debug, PartialEq, Eq)]
pub struct Limits {
    /// The account holding the funds used to pay the oracles.
    pub fund_account: u64,
    /// The minimum amount of funds that must remain in the fund account.
    pub minimum_reserve: u64,
    /// Maximum allowed description length.
    pub string_limit: u32,
    /// Maximum number of oracles per feed.
    pub oracle_count_limit: u32,
    /// Number of most-recent rounds never eligible for pruning.
    pub pruning_window: u64,
    /// Minimum balance an account must keep to stay alive under a
    /// keep-alive transfer.
    pub existential_deposit: u64,
}

/// Configuration of one feed.
#[derive(Debug, PartialEq, Eq)]
pub struct FeedConfig {
    pub owner: u64,
    pub pending_owner: Option<u64>,
    pub submission_value_bounds: (u64, u64),
    pub submission_count_bounds: (u32, u32),
    pub payment_amount: u64,
    pub timeout: u64,
    pub decimals: u8,
    pub description: Vec<u8>,
    pub restart_delay: u64,
    pub reporting_round: u64,
    pub latest_round: u64,
    pub first_valid_round: Option<u64>,
    pub oracle_count: u32,
}

/// Ghost view of [`FeedConfig`].
#[verifier::ext_equal]
pub ghost struct FeedConfigV {
    pub owner: u64,
    pub pending_owner: Option<u64>,
    pub submission_value_bounds: (u64, u64),
    pub submission_count_bounds: (u32, u32),
    pub payment_amount: u64,
    pub timeout: u64,
    pub decimals: u8,
    pub description: Seq<u8>,
    pub restart_delay: u64,
    pub reporting_round: u64,
    pub latest_round: u64,
    pub first_valid_round: Option<u64>,
    pub oracle_count: u32,
}

impl View for FeedConfig {
    type V = FeedConfigV;

    open spec fn view(&self) -> FeedConfigV {
        FeedConfigV {
            owner: self.owner,
            pending_owner: self.pending_owner,
            submission_value_bounds: self.submission_value_bounds,
            submission_count_bounds: self.submission_count_bounds,
            payment_amount: self.payment_amount,
            timeout: self.timeout,
            decimals: self.decimals,
            description: self.description@,
            restart_delay: self.restart_delay,
            latest_round: self.latest_round,
            reporting_round: self.reporting_round,
            first_valid_round: self.first_valid_round,
            oracle_count: self.oracle_count,
        }
    }
}

impl FeedConfig {
    /// An owned copy with the same view.
    pub fn snapshot(&self) -> (r: FeedConfig)
        ensures
            r@ == self@,
    {
        FeedConfig {
            owner: self.owner,
            pending_owner: self.pending_owner,
            submission_value_bounds: self.submission_value_bounds,
            submission_count_bounds: self.submission_count_bounds,
            payment_amount: self.payment_amount,
            timeout: self.timeout,
            decimals: self.decimals,
            description: copy_vec(&self.description),
            restart_delay: self.restart_delay,
            latest_round: self.latest_round,
            reporting_round: self.reporting_round,
            first_valid_round: self.first_valid_round,
            oracle_count: self.oracle_count,
        }
    }
}

/// Public state of one round of a feed.
#[derive(Clone, Copy, Debug, PartialEq, Eq)]
pub struct Round {
    pub started_at: u64,
    pub answer: Option<u64>,
    pub updated_at: Option<u64>,
    pub answered_in_round: Option<u64>,
}

/// Operator-facing state of one round; present exactly while the round
/// accepts submissions.
#[derive(Debug, PartialEq, Eq)]
pub struct RoundDetails {
    pub submissions: Vec<u64>,
    pub submission_count_bounds: (u32, u32),
    pub payment_amount: u64,
    pub timeout: u64,
}

/// Ghost view of [`RoundDetails`].
#[verifier::ext_equal]
pub ghost struct RoundDetailsV {
    pub submissions: Seq<u64>,
    pub submission_count_bounds: (u32, u32),
    pub payment_amount: u64,
    pub timeout: u64,
}

impl View for RoundDetails {
    type V = RoundDetailsV;

    open spec fn view(&self) -> RoundDetailsV {
        RoundDetailsV {
            submissions: self.submissions@,
            submission_count_bounds: self.submission_count_bounds,
            payment_amount: self.payment_amount,
            timeout: self.timeout,
        }
    }
}

/// Global record of one oracle account, shared across feeds.
#[derive(Clone, Copy, Debug, PartialEq, Eq)]
pub struct OracleMeta {
    pub withdrawable: u64,
    pub admin: u64,
    pub pending_admin: Option<u64>,
}

/// Feed-local status of one oracle.
#[derive(Clone, Copy, Debug, PartialEq, Eq)]
pub struct OracleStatus {
    pub starting_round: u64,
    pub ending_round: Option<u64>,
    pub last_reported_round: Option<u64>,
    pub last_started_round: Option<u64>,
    pub latest_submission: Option<u64>,
}

/// Per-feed permission to trigger round creation out-of-band.
#[derive(Clone, Copy, Debug, PartialEq, Eq)]
pub struct Requester {
    pub delay: u64,
    pub last_started_round: Option<u64>,
}

/// Fully finalized round data, for external consumption.
#[derive(Clone, Copy, Debug, PartialEq, Eq)]
pub struct RoundData {
    pub started_at: u64,
    pub answer: u64,
    pub updated_at: u64,
    pub answered_in_round: u64,
}

/// Conversion of an unfinalized round into [`RoundData`] failed.
#[derive(Clone, Copy, Debug, PartialEq, Eq)]
pub enum RoundConversionError {
    MissingField,
}

impl Default for RoundData {
    fn default() -> (r: Self)
        ensures
            r == (RoundData { started_at: 0, answer: 0, updated_at: 0, answered_in_round: 0 }),
    {
        RoundData { started_at: 0, answer: 0, updated_at: 0, answered_in_round: 0 }
    }
}

impl RoundData {
    /// A round converts exactly when answer, update time and answering round
    /// are all present.
    pub fn try_from(r: &Round) -> (res: Result<RoundData, RoundConversionError>)
        ensures
            match res {
                Ok(d) => r.answer is Some && r.updated_at is Some && r.answered_in_round is Some
                    && d == (RoundData {
                    started_at: r.started_at,
                    answer: r.answer->0,
                    updated_at: r.updated_at->0,
                    answered_in_round: r.answered_in_round->0,
                }),
                Err(e) => e == RoundConversionError::MissingField && (r.answer is None
                    || r.updated_at is None || r.answered_in_round is None),
            },
    {
        if r.answered_in_round.is_none() || r.answer.is_none() || r.updated_at.is_none() {
            return Err(RoundConversionError::MissingField);
        }
        Ok(RoundData {
            started_at: r.started_at,
            answer: r.answer.unwrap(),
            updated_at: r.updated_at.unwrap(),
            answered_in_round: r.answered_in_round.unwrap(),
        })
    }
}

/// An owned copy of a vector of scalars, with the same view.
pub fn copy_vec<T: Copy>(v: &Vec<T>) -> (r: Vec<T>)
    ensures
        r@ == v@,
{
    let mut r: Vec<T> = Vec::new();
    let n = v.len();
    let mut i: usize = 0;
    while i < n
        invariant
            i <= n,
            n == v@.len(),
            r@ == v@.subrange(0, i as int),
        decreases n - i,
    {
        r.push(v[i]);
        proof {
            assert(r@ =~= v@.subrange(0, i + 1 as int));
        }
        i = i + 1;
    }
    proof {
        assert(r@ =~= v@);
    }
    r
}

/// `a + b`, clamped to the maximum value on overflow.
pub fn saturating_add(a: u64, b: u64) -> (r: u64)
    ensures
        r == spec_sat_add(a, b),
{
    if a > u64::MAX - b {
        u64::MAX
    } else {
        a + b
    }
}

pub open spec fn spec_sat_add(a: u64, b: u64) -> u64 {
    if a + b > u64::MAX {
        u64::MAX
    } else {
        (a + b) as u64
    }
}

/// `a - b`, clamped to zero on underflow.
pub fn saturating_sub(a: u64, b: u64) -> (r: u64)
    ensures
        r == spec_sat_sub(a, b),
{
    if a < b {
        0
    } else {
        a - b
    }
}

pub open spec fn spec_sat_sub(a: u64, b: u64) -> u64 {
    if a < b {
        0
    } else {
        (a - b) as u64
    }
}

} // verus!
