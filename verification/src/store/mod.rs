//! The relational state that the publishing core works on: the idempotency
//! ledger, the newsletter issues, the delivery outbox and the subscriptions.
//!
//! `model` says what the state is and how each operation changes it;
//! `trace` says how the steps of concurrent requests follow one another;
//! `memory` is a store that keeps that state in memory.

pub mod memory;
pub mod model;
pub mod trace;
