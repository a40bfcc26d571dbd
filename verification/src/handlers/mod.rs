//! What clients of the proxy ask for.

pub mod login;
pub mod users;
