//! Publishing a newsletter issue.

pub mod flow;
pub mod get;
pub mod post;
