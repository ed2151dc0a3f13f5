//! Escrow engines for bounties and programs.
//!
//! Two engines keep tokens in custody: `bounty` holds one entry per bounty,
//! from its funding to its release or refund; `program` holds one pooled
//! balance and pays it out singly, in batches and by schedule. Neither moves
//! a token itself: a call that changes the books hands back the transfers to
//! ask of the token service and the events to publish.
//!
//! In front of every call stands a stack of guards, each in a module of its
//! own: `reentrancy_guard`, `pause`, `rate_limit`, `error_recovery` (the
//! circuit breaker) and `fees`. `query` pages through lists, `events` and
//! `error` name what is told to the outside, `types` holds the plain values
//! that all share, and `seed` steps through a reproducible sequence for
//! randomized traces.

pub mod types;
pub mod error;
pub mod query;
pub mod reentrancy_guard;
pub mod pause;
pub mod fees;
pub mod rate_limit;
pub mod error_recovery;
pub mod events;
pub mod program;
pub mod bounty;
pub mod seed;
