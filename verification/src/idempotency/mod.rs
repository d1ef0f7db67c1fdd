//! The idempotency ledger and the protocol that claims and replays its keys.

pub mod key;
pub mod persistence;
pub mod protocol;
pub mod snapshot;

pub use key::IdempotencyKey;
pub use key::ValidationError;
pub use persistence::save_response;
pub use persistence::try_processing;
pub use persistence::NextAction;
pub use protocol::IdempotencyError;
