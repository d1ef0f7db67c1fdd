//! Changing the password.

pub mod get;
pub mod post;
