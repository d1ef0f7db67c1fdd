//! Who is calling.

pub mod middleware;
pub mod password;

pub use middleware::reject_anonymous_users;
pub use middleware::UserId;
pub use password::AuthError;
