//! Retry-safe newsletter publishing.
//!
//! A client may submit the form that publishes an issue twice, or two
//! requests may race. The issue is created and its deliveries enqueued at
//! most once, and every retry gets the response of the first, byte for byte.
//!
//! - `idempotency` holds the key that the client supplies, the codec
//!   between a response and its stored snapshot, the protocol that claims a
//!   key or replays what was saved under it, and the coordinator that runs
//!   the protocol.
//! - `store` holds the state that all of this works on: what it is, how each
//!   step changes it, and a store that keeps it in memory.
//! - `routes` holds what each route decides and answers; the publishing of an
//!   issue is `routes::admin::newsletter`.
//! - `guarantees` holds what is proved of every run of concurrent requests.
//! - `trusted` holds the calls into other crates, whose contracts are
//!   believed and not proved.

pub mod authentication;
pub mod guarantees;
pub mod http;
pub mod idempotency;
pub mod routes;
pub mod startup;
pub mod store;
pub mod trusted;
