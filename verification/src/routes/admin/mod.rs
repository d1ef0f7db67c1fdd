//! The routes of the administrator.

pub mod dashboard;
pub mod logout;
pub mod newsletter;
pub mod password;
