//! What each route decides and answers, apart from the transport.

pub mod admin;
pub mod error_chain;
pub mod flash;
pub mod health_check;
pub mod login;
pub mod subscriptions;
pub mod subscriptions_confirm;

pub use error_chain::error_chain_fmt;
pub use error_chain::ErrorTrace;
