//! The settings that the proxy's decisions depend on.

use vstd::prelude::*;

use crate::encryption::Password;

verus! {

pub struct AppConfig {
    /// The operator account that is set up on first start.
    pub username: String,
    pub password: Password,
    /// The id under which the proxy presents itself as a server.
    pub server_id: String,
    /// Whether a first login may create a local user, and accounts elsewhere.
    pub auto_create_users_on_login: bool,
    pub login_rate_limit_enabled: bool,
    pub login_rate_limit_max_attempts: i64,
    pub login_rate_limit_window_secs: i64,
    pub login_rate_limit_cooldown_secs: i64,
}

} // verus!
