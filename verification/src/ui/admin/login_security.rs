//! The rate limiting of logins, as admins see and set it.

use vstd::prelude::*;

use crate::config::AppConfig;
use crate::login_rate_limit_service::LoginRateLimitEntry;
use crate::moment::{self, Moment};
use crate::status::StatusCode;
use crate::storage::StorageError;
use crate::ui::admin::reply::{Message, Reply};

verus! {

pub struct LoginSecurityPageTemplate {
    pub ui_route: String,
}

/// A blocked client as the panel shows it.
pub struct BlockedEntryView {
    pub identifier: String,
    pub failure_count: i64,
    pub seconds_remaining: i64,
}

pub struct LoginSecurityPanelTemplate {
    pub enabled: bool,
    pub max_attempts: i64,
    pub window_secs: i64,
    pub cooldown_secs: i64,
    pub blocked: Vec<BlockedEntryView>,
    pub ui_route: String,
}

pub struct SaveLoginSecurityForm {
    pub enabled: bool,
    pub max_attempts: i64,
    pub window_secs: i64,
    pub cooldown_secs: i64,
}

/// How a request about rate limiting is answered.
pub enum SecurityReply {
    Now(Reply),
    /// Show the panel.
    Panel,
}

/// The whole seconds from `now` until a block ends; none are left once it has
/// ended.
pub open spec fn seconds_remaining(blocked_until: Option<Moment>, now: Moment) -> int {
    match blocked_until {
        Some(until) => {
            let left = moment::whole_seconds(until.nanos_since_epoch() - now.nanos_since_epoch());
            if left < 0 {
                0
            } else {
                left
            }
        },
        None => 0,
    }
}

/// `left` are the seconds from `now` until `blocked_until`, without the last part of a
/// second, and none where that is past or there is no block.
pub open spec fn is_countdown(left: int, blocked_until: Option<Moment>, now: Moment) -> bool {
    match blocked_until {
        Some(until) => {
            let wait = until.nanos_since_epoch() - now.nanos_since_epoch();
            if wait >= 0 {
                left * 1_000_000_000 <= wait < (left + 1) * 1_000_000_000
            } else {
                left == 0
            }
        },
        None => left == 0,
    }
}

/// The seconds that the panel shows count a block down to zero, and stay there.
pub proof fn panel_counts_down(blocked_until: Option<Moment>, now: Moment)
    ensures
        is_countdown(seconds_remaining(blocked_until, now), blocked_until, now),
{
}

/// Whether `shown` presents `entry`.
pub open spec fn presents(shown: BlockedEntryView, entry: LoginRateLimitEntry, now: Moment) -> bool {
    &&& shown.identifier == entry.identifier
    &&& shown.failure_count == entry.failure_count
    &&& shown.seconds_remaining == seconds_remaining(entry.blocked_until, now)
}

fn count_down(blocked_until: Option<Moment>, now: Moment) -> (r: i64)
    ensures
        r == seconds_remaining(blocked_until, now),
{
    match blocked_until {
        Some(until) => {
            let left = moment::seconds_between(until, now);
            if left < 0 {
                0
            } else {
                left
            }
        },
        None => 0,
    }
}

/// What the panel shows: the settings, and the blocked clients in their order.
pub fn render_panel(
    cfg: &AppConfig,
    entries: Vec<LoginRateLimitEntry>,
    now: Moment,
    ui_route: String,
) -> (r: LoginSecurityPanelTemplate)
    ensures
        r.enabled == cfg.login_rate_limit_enabled,
        r.max_attempts == cfg.login_rate_limit_max_attempts,
        r.window_secs == cfg.login_rate_limit_window_secs,
        r.cooldown_secs == cfg.login_rate_limit_cooldown_secs,
        r.ui_route == ui_route,
        r.blocked@.len() == entries@.len(),
        forall|i: int|
            0 <= i < entries@.len() ==> presents(#[trigger] r.blocked@[i], entries@[i], now),
        forall|i: int|
            0 <= i < entries@.len() ==> (#[trigger] r.blocked@[i]).identifier
                == entries@[i].identifier && r.blocked@[i].failure_count == entries@[i].failure_count
                && is_countdown(
                r.blocked@[i].seconds_remaining as int,
                entries@[i].blocked_until,
                now,
            ),
{
    let n: usize = entries.len();
    let mut blocked: Vec<BlockedEntryView> = Vec::new();
    let mut i: usize = 0;
    while i < n
        invariant
            n == entries@.len(),
            i <= n,
            blocked@.len() == i,
            forall|j: int|
                0 <= j < i ==> presents(#[trigger] blocked@[j], entries@[j], now),
        decreases n - i,
    {
        let entry = &entries[i];
        blocked.push(
            BlockedEntryView {
                identifier: entry.identifier.clone(),
                failure_count: entry.failure_count,
                seconds_remaining: count_down(entry.blocked_until, now),
            },
        );
        i = i + 1;
    }
    LoginSecurityPanelTemplate {
        enabled: cfg.login_rate_limit_enabled,
        max_attempts: cfg.login_rate_limit_max_attempts,
        window_secs: cfg.login_rate_limit_window_secs,
        cooldown_secs: cfg.login_rate_limit_cooldown_secs,
        blocked,
        ui_route,
    }
}

/// Settings that make sense: each of them positive.
pub open spec fn is_sensible(form: SaveLoginSecurityForm) -> bool {
    form.max_attempts >= 1 && form.window_secs >= 1 && form.cooldown_secs >= 1
}

/// Changes the settings, if they make sense; the rest of the configuration stays.
pub fn save_login_security(cfg: &mut AppConfig, form: SaveLoginSecurityForm) -> (r: SecurityReply)
    ensures
        if is_sensible(form) {
            &&& r == SecurityReply::Panel
            &&& *final(cfg) == (AppConfig {
                login_rate_limit_enabled: form.enabled,
                login_rate_limit_max_attempts: form.max_attempts,
                login_rate_limit_window_secs: form.window_secs,
                login_rate_limit_cooldown_secs: form.cooldown_secs,
                ..*old(cfg)
            })
        } else {
            &&& r == SecurityReply::Now(
                Reply::Alert(StatusCode::BadRequest, Message::ValuesNotPositive),
            )
            &&& *final(cfg) == *old(cfg)
        },
        r is Panel <==> form.max_attempts >= 1 && form.window_secs >= 1 && form.cooldown_secs >= 1,
        r !is Panel ==> *final(cfg) == *old(cfg),
        r is Panel ==> {
            &&& final(cfg).login_rate_limit_enabled == form.enabled
            &&& final(cfg).login_rate_limit_max_attempts == form.max_attempts
            &&& final(cfg).login_rate_limit_window_secs == form.window_secs
            &&& final(cfg).login_rate_limit_cooldown_secs == form.cooldown_secs
        },
{
    if form.max_attempts < 1 || form.window_secs < 1 || form.cooldown_secs < 1 {
        return SecurityReply::Now(Reply::Alert(StatusCode::BadRequest, Message::ValuesNotPositive));
    }
    cfg.login_rate_limit_enabled = form.enabled;
    cfg.login_rate_limit_max_attempts = form.max_attempts;
    cfg.login_rate_limit_window_secs = form.window_secs;
    cfg.login_rate_limit_cooldown_secs = form.cooldown_secs;
    SecurityReply::Panel
}

/// The answer to a request to unblock a client, from what unblocking it gave.
pub fn unblock_login_rate_limit(unblocked: Result<(), StorageError>) -> (r: SecurityReply)
    ensures
        r == (match unblocked {
            Ok(_) => SecurityReply::Panel,
            Err(_) => SecurityReply::Now(
                Reply::Alert(StatusCode::InternalServerError, Message::NotUnblocked),
            ),
        }),
{
    match unblocked {
        Ok(_) => SecurityReply::Panel,
        Err(_) => SecurityReply::Now(
            Reply::Alert(StatusCode::InternalServerError, Message::NotUnblocked),
        ),
    }
}

} // verus!
