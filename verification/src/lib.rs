//! A decentralized price-feed aggregation engine.
//!
//! Independently reporting oracles submit values for a feed; submissions are
//! collected into numbered rounds and reduced to a consensus answer (the
//! median) once enough reports arrive. The engine decides when a new round may
//! open, which submissions are accepted, how a missed (timed-out) round is
//! resolved, and how historical rounds are pruned.
//!
//! All state lives in an explicit store ([`store::FeedModule`]) passed to
//! every operation; external collaborators (the clock, the caller's identity)
//! enter as plain parameters. Every operation either applies completely or
//! returns an error and leaves the store unchanged.

pub mod tables;
pub mod types;
pub mod median;
pub mod store;
pub mod transitions;
pub mod query;
pub mod laws;
