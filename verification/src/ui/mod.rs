//! The management pages.

pub mod admin;
pub mod auth;
