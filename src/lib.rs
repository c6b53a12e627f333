//! Admission control for sessions with peers whose node record advertises no
//! reachable UDP endpoint.
//!
//! A [`SessionLimiter`] tracks the identities of such peers while they hold a
//! session, caps their number at a configured limit, and learns of expired
//! sessions through a non-blocking channel that it drains before every
//! admission decision.

mod channel;
mod laws;
mod limiter;
mod node;

pub use node::{Endpoint, Enr, NodeAddress};
pub use limiter::{admits, after_admission, prune, LimiterError, SessionLimiter};
pub use laws::{
    after_unreachable_requests, lemma_drain_exhaustive, lemma_expiry_frees_capacity,
    lemma_reachable_bypasses, lemma_release_frees_capacity, lemma_release_idempotent,
    lemma_request_keeps_bound, lemma_requests_keep_bound,
};
