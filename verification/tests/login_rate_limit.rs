use jellyswarrm_proxy::config::AppConfig;
use jellyswarrm_proxy::encryption::Password;
use jellyswarrm_proxy::login_rate_limit_service::{
    LoginRateLimitRow, LoginRateLimitService, Tally,
};
use jellyswarrm_proxy::moment::Moment;
use jellyswarrm_proxy::status::StatusCode;
use jellyswarrm_proxy::storage::StorageError;
use jellyswarrm_proxy::ui::admin::login_security::{
    render_panel, save_login_security, unblock_login_rate_limit, SaveLoginSecurityForm,
    SecurityReply,
};

fn at(secs: i64) -> Moment {
    Moment::new(1_700_000_000 + secs, 0).unwrap()
}

fn setup_service() -> LoginRateLimitService {
    LoginRateLimitService::new()
}

#[test]
fn allows_up_to_max_attempts_then_blocks() {
    let mut service = setup_service();
    let id = "1.2.3.4";

    for _ in 0..4 {
        let blocked = service.record_failure(id, 5, 300, 900, at(0));
        assert!(!blocked, "should not block before reaching max_attempts");
    }

    assert!(
        service.seconds_until_unblocked(id, at(0)).is_none(),
        "should not be blocked yet"
    );

    let blocked = service.record_failure(id, 5, 300, 900, at(0));
    assert!(blocked, "5th failure should trigger the block");

    let remaining = service.seconds_until_unblocked(id, at(0));
    assert!(remaining.is_some() && remaining.unwrap() > 0);
    assert_eq!(remaining, Some(900));
}

#[test]
fn success_clears_the_counter() {
    let mut service = setup_service();
    let id = "1.2.3.4";

    for _ in 0..4 {
        service.record_failure(id, 5, 300, 900, at(0));
    }

    service.record_success(id);

    // A fresh run of failures afterward should need the full count again.
    for _ in 0..4 {
        let blocked = service.record_failure(id, 5, 300, 900, at(1));
        assert!(!blocked);
    }
}

#[test]
fn manual_unblock_lifts_the_cooldown() {
    let mut service = setup_service();
    let id = "1.2.3.4";

    for _ in 0..5 {
        service.record_failure(id, 5, 300, 900, at(0));
    }
    assert!(service.seconds_until_unblocked(id, at(0)).is_some());

    let unblocked = service.unblock(id);
    assert!(unblocked);
    assert!(service.seconds_until_unblocked(id, at(0)).is_none());
    assert!(!service.unblock(id));
}

#[test]
fn different_identifiers_are_tracked_independently() {
    let mut service = setup_service();

    for _ in 0..5 {
        service.record_failure("1.1.1.1", 5, 300, 900, at(0));
    }

    assert!(service.seconds_until_unblocked("1.1.1.1", at(0)).is_some());
    assert!(service.seconds_until_unblocked("2.2.2.2", at(0)).is_none());
}

#[test]
fn list_blocked_only_returns_currently_active_blocks() {
    let mut service = setup_service();

    for _ in 0..5 {
        service.record_failure("3.3.3.3", 5, 300, 900, at(0));
    }
    for _ in 0..2 {
        service.record_failure("4.4.4.4", 5, 300, 900, at(0));
    }

    let blocked = service.list_blocked(at(0));
    assert_eq!(blocked.len(), 1);
    assert_eq!(blocked[0].identifier, "3.3.3.3");
}

#[test]
fn window_runs_out_after_whole_seconds() {
    let mut service = setup_service();
    service.record_failure("a", 3, 300, 900, at(0));
    service.record_failure("a", 3, 300, 900, at(299));
    assert_eq!(service.get("a").unwrap().failure_count, 2);
    let blocked = service.record_failure("a", 3, 300, 900, at(599));
    assert!(!blocked, "the window has run out, so the count starts over");
    let tally = service.get("a").unwrap();
    assert_eq!(tally.failure_count, 1);
    assert_eq!(tally.window_started_at.secs(), at(599).secs());
    assert_eq!(tally.created_at.secs(), at(0).secs());
}

#[test]
fn window_rolls_on_with_every_failure() {
    let mut service = setup_service();
    assert!(!service.record_failure("x", 3, 300, 900, at(0)));
    assert!(!service.record_failure("x", 3, 300, 900, at(290)));
    assert!(service.record_failure("x", 3, 300, 900, at(310)));
    assert!(service.record_failure("x", 3, 300, 900, at(320)));
    let tally = service.get("x").unwrap();
    assert_eq!(tally.failure_count, 4);
    assert_eq!(tally.window_started_at.secs(), at(0).secs());
    assert_eq!(service.seconds_until_unblocked("x", at(320)), Some(900));
}

#[test]
fn fraction_of_a_second_counts_as_one_second_left() {
    let mut service = setup_service();
    let start = Moment::new(1_700_000_000, 500_000_000).unwrap();
    assert!(service.record_failure("a", 1, 300, 2, start));
    assert_eq!(service.seconds_until_unblocked("a", start), Some(2));
    let late = Moment::new(1_700_000_002, 0).unwrap();
    assert_eq!(service.seconds_until_unblocked("a", late), Some(1));
    let end = Moment::new(1_700_000_002, 500_000_000).unwrap();
    assert_eq!(service.seconds_until_unblocked("a", end), None);
    assert_eq!(service.list_blocked(end).len(), 0);
}

#[test]
fn latest_failure_is_listed_first() {
    let mut service = setup_service();
    service.record_failure("early", 1, 300, 900, at(0));
    service.record_failure("late", 1, 300, 900, at(5));
    service.record_failure("middle", 1, 300, 900, at(3));
    let blocked = service.list_blocked(at(6));
    let names: Vec<&str> = blocked.iter().map(|e| e.identifier.as_str()).collect();
    assert_eq!(names, vec!["late", "middle", "early"]);
    assert_eq!(blocked[0].last_failure_at.secs(), at(5).secs());
}

#[test]
fn later_rows_replace_earlier_ones() {
    let tally = |count: i64| Tally {
        failure_count: count,
        window_started_at: at(0),
        last_failure_at: at(0),
        blocked_until: None,
        created_at: at(0),
        updated_at: at(0),
    };
    let service = LoginRateLimitService::from_rows(vec![
        LoginRateLimitRow {
            identifier: "a".to_string(),
            tally: tally(1),
        },
        LoginRateLimitRow {
            identifier: "a".to_string(),
            tally: tally(4),
        },
    ]);
    assert_eq!(service.get("a").unwrap().failure_count, 4);
    assert!(service.get("b").is_none());
}

#[test]
fn calendar_has_its_ends() {
    assert!(Moment::new(8_210_266_876_799, 999_999_999).is_some());
    assert!(Moment::new(8_210_266_876_800, 0).is_none());
    assert!(Moment::new(-8_334_601_228_800, 0).is_some());
    assert!(Moment::new(-8_334_601_228_801, 0).is_none());
    assert!(Moment::new(0, 1_000_000_000).is_none());
    let mut service = setup_service();
    let near_the_end = Moment::new(8_210_266_876_799 - 900, 999_999_999).unwrap();
    assert!(service.record_failure("a", 1, 300, 900, near_the_end));
    assert_eq!(service.seconds_until_unblocked("a", near_the_end), Some(900));
    let first = Moment::new(-8_334_601_228_800, 0).unwrap();
    assert_eq!(
        service.seconds_until_unblocked("a", first),
        Some(8_210_266_876_799 + 8_334_601_228_800)
    );
}

fn config() -> AppConfig {
    AppConfig {
        username: "admin".to_string(),
        password: Password::new("jellyswarrm".to_string()),
        server_id: "proxy".to_string(),
        auto_create_users_on_login: true,
        login_rate_limit_enabled: true,
        login_rate_limit_max_attempts: 5,
        login_rate_limit_window_secs: 300,
        login_rate_limit_cooldown_secs: 900,
    }
}

#[test]
fn panel_counts_down_to_zero() {
    let mut service = setup_service();
    service.record_failure("a", 1, 300, 10, at(0));
    let entries = service.list_blocked(at(9));
    let panel = render_panel(&config(), entries, at(8), "ui".to_string());
    assert!(panel.enabled);
    assert_eq!(
        (panel.max_attempts, panel.window_secs, panel.cooldown_secs),
        (5, 300, 900)
    );
    assert_eq!(panel.blocked.len(), 1);
    assert_eq!(panel.blocked[0].identifier, "a");
    assert_eq!(panel.blocked[0].failure_count, 1);
    assert_eq!(panel.blocked[0].seconds_remaining, 2);
    let entries = service.list_blocked(at(9));
    let later = render_panel(&config(), entries, at(20), "ui".to_string());
    assert_eq!(later.blocked[0].seconds_remaining, 0);
}

#[test]
fn settings_must_be_positive() {
    let mut cfg = config();
    for (max, window, cooldown) in [(0, 1, 1), (1, 0, 1), (1, 1, 0), (-3, 5, 5)] {
        let form = SaveLoginSecurityForm {
            enabled: false,
            max_attempts: max,
            window_secs: window,
            cooldown_secs: cooldown,
        };
        match save_login_security(&mut cfg, form) {
            SecurityReply::Now(reply) => {
                assert_eq!(reply.status(), StatusCode::BadRequest);
                assert_eq!(
                    reply.body(),
                    "<div class=\"alert alert-error\">Values must be positive</div>"
                );
            }
            SecurityReply::Panel => panic!("these values are not positive"),
        }
        assert!(cfg.login_rate_limit_enabled);
        assert_eq!(cfg.login_rate_limit_max_attempts, 5);
    }
    let form = SaveLoginSecurityForm {
        enabled: false,
        max_attempts: 1,
        window_secs: 2,
        cooldown_secs: 3,
    };
    assert!(matches!(
        save_login_security(&mut cfg, form),
        SecurityReply::Panel
    ));
    assert!(!cfg.login_rate_limit_enabled);
    assert_eq!(cfg.login_rate_limit_max_attempts, 1);
    assert_eq!(cfg.login_rate_limit_window_secs, 2);
    assert_eq!(cfg.login_rate_limit_cooldown_secs, 3);
    assert_eq!(cfg.server_id, "proxy");
}

#[test]
fn failed_unblock_is_reported() {
    assert!(matches!(
        unblock_login_rate_limit(Ok(())),
        SecurityReply::Panel
    ));
    match unblock_login_rate_limit(Err(StorageError::other("down"))) {
        SecurityReply::Now(reply) => {
            assert_eq!(reply.status().as_u16(), 500);
            assert_eq!(
                reply.body(),
                "<div class=\"alert alert-error\">Failed to unblock</div>"
            );
        }
        SecurityReply::Panel => panic!("nothing was unblocked"),
    }
}

#[test]
fn clock_that_goes_back_stays_in_the_window() {
    let mut service = setup_service();
    service.record_failure("a", 9, 300, 900, at(0));
    service.record_failure("a", 9, 300, 900, at(-1000));
    let tally = service.get("a").unwrap();
    assert_eq!(tally.failure_count, 2);
    assert_eq!(tally.window_started_at.secs(), at(0).secs());
    assert_eq!(tally.last_failure_at.secs(), at(-1000).secs());
}

#[test]
fn failures_out_of_range_are_noticed() {
    let mut service = setup_service();
    assert!(service.can_record_failure("a", 1, 300, 900, at(0)));
    assert!(!service.can_record_failure("a", 1, 300, i64::MAX, at(0)));
    assert!(!service.can_record_failure("a", 1, 300, 9_000_000_000_000, at(0)));
    assert!(service.can_record_failure("a", 2, 300, i64::MAX, at(0)));
    service.put(
        "a",
        Tally {
            failure_count: i64::MAX,
            window_started_at: at(0),
            last_failure_at: at(0),
            blocked_until: None,
            created_at: at(0),
            updated_at: at(0),
        },
    );
    assert!(!service.can_record_failure("a", 5, 300, 900, at(1)));
    assert!(service.can_record_failure("a", 5, 300, 900, at(300)));
}
