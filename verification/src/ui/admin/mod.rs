//! Pages for console admins.

pub mod admins;
pub mod login_security;
pub mod ownership;
pub mod popup;
pub mod reply;
pub mod servers;
pub mod users;
