//! Verified core of a federating media-server proxy.

pub mod admin_id;
pub mod client_ip;
pub mod config;
pub mod console_admin_service;
pub mod encryption;
pub mod federated_users;
pub mod handlers;
pub mod headers;
pub mod login_rate_limit_service;
pub mod models;
pub mod moment;
pub mod password_hash;
pub mod server;
pub mod status;
pub mod storage;
pub mod table;
pub mod text;
pub mod ui;
