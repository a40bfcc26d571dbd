use jellyswarrm_proxy::admin_id::AdminId;
use jellyswarrm_proxy::config::AppConfig;
use jellyswarrm_proxy::console_admin_service::{
    ConsoleAdmin, ConsoleAdminError, ConsoleAdminService,
};
use jellyswarrm_proxy::encryption::Password;
use jellyswarrm_proxy::moment::Moment;
use jellyswarrm_proxy::password_hash::verify_password;

fn now() -> Moment {
    Moment::new(1_700_000_000, 0).unwrap()
}

fn later() -> Moment {
    Moment::new(1_700_000_100, 0).unwrap()
}

fn row(id: i64, username: &str, password_hash: &str, is_superadmin: bool) -> ConsoleAdmin {
    ConsoleAdmin {
        id: AdminId::new(id),
        username: username.to_string(),
        password_hash: password_hash.to_string(),
        is_superadmin,
        created_at: now(),
        updated_at: now(),
    }
}

fn config() -> AppConfig {
    AppConfig {
        username: "admin".to_string(),
        password: Password::new("jellyswarrm".to_string()),
        server_id: "proxy".to_string(),
        auto_create_users_on_login: true,
        login_rate_limit_enabled: true,
        login_rate_limit_max_attempts: 5,
        login_rate_limit_window_secs: 300,
        login_rate_limit_cooldown_secs: 900,
    }
}

#[test]
fn create_and_verify_round_trip() {
    let mut service = ConsoleAdminService::new();

    service
        .create_admin("alice", "correct horse battery staple", false, now())
        .unwrap();

    let ok = service.verify_credentials("alice", "correct horse battery staple");
    assert!(ok.is_some());

    let wrong = service.verify_credentials("alice", "wrong password");
    assert!(wrong.is_none());
}

#[test]
fn duplicate_username_rejected() {
    let mut service = ConsoleAdminService::new();

    service.create_admin("bob", "pw1", false, now()).unwrap();
    let result = service.create_admin("bob", "pw2", false, now());
    assert!(result.is_err());
    match result.unwrap_err() {
        ConsoleAdminError::Sqlx(error) => assert!(error.unique_violation()),
        ConsoleAdminError::Hash(_) => panic!("the password could be hashed"),
    }
    assert_eq!(service.list_admins().len(), 1);
}

#[test]
fn bootstrap_is_idempotent_and_never_overwrites_a_changed_password() {
    let mut service = ConsoleAdminService::from_rows(vec![row(1, "placeholder", "", true)]).unwrap();
    let cfg = config();

    // First run fills in the placeholder account.
    service.ensure_bootstrap_admin(&cfg, now()).unwrap();
    let admins = service.list_admins();
    assert_eq!(admins.len(), 1);
    assert!(service.verify_credentials("admin", "jellyswarrm").is_some());

    // Operator changes the password through the app afterward.
    let admin_id = admins[0].id;
    service
        .update_password(admin_id, "a new stronger password", later())
        .unwrap();

    // A second bootstrap run (e.g. on restart) must not clobber it, even
    // though the configured password is still the old default.
    service.ensure_bootstrap_admin(&cfg, later()).unwrap();
    assert!(service
        .verify_credentials("admin", "a new stronger password")
        .is_some());
    assert!(service.verify_credentials("admin", "jellyswarrm").is_none());

    // Still exactly one admin.
    assert_eq!(service.list_admins().len(), 1);
}

#[test]
fn placeholder_opens_to_nobody() {
    let service = ConsoleAdminService::from_rows(vec![row(1, "placeholder", "", true)]).unwrap();
    assert!(service.verify_credentials("placeholder", "").is_none());
    assert!(service.verify_credentials("placeholder", "x").is_none());
    assert!(service.get_admin_by_username("placeholder").unwrap().is_superadmin);
}

#[test]
fn bootstrap_fills_in_the_smallest_placeholder() {
    let mut service = ConsoleAdminService::from_rows(vec![
        row(9, "nine", "", false),
        row(4, "four", "", true),
        row(6, "six", "", true),
    ])
    .unwrap();
    service.ensure_bootstrap_admin(&config(), later()).unwrap();
    let filled = service.get_admin_by_id(AdminId::new(4)).unwrap();
    assert_eq!(filled.username, "admin");
    assert!(filled.is_superadmin);
    assert_eq!(filled.created_at.secs(), now().secs());
    assert_eq!(filled.updated_at.secs(), later().secs());
    assert_eq!(service.get_admin_by_id(AdminId::new(9)).unwrap().password_hash, "");
}

#[test]
fn bootstrap_does_nothing_once_a_real_admin_exists() {
    let mut service = ConsoleAdminService::from_rows(vec![row(1, "placeholder", "", true)]).unwrap();
    service
        .create_admin("alice", "alice-password", true, now())
        .unwrap();
    service.ensure_bootstrap_admin(&config(), later()).unwrap();
    assert!(service.verify_credentials("admin", "jellyswarrm").is_none());
    assert!(service.verify_credentials("alice", "alice-password").is_some());
    let placeholder = service.get_admin_by_id(AdminId::new(1)).unwrap();
    assert_eq!(placeholder.username, "placeholder");
    assert_eq!(placeholder.password_hash, "");
}

#[test]
fn bootstrap_fails_when_the_username_is_taken() {
    let mut service = ConsoleAdminService::from_rows(vec![
        row(1, "placeholder", "", true),
        row(2, "admin", "", false),
    ])
    .unwrap();
    assert!(matches!(
        service.ensure_bootstrap_admin(&config(), now()),
        Err(ConsoleAdminError::Sqlx(_))
    ));
    assert_eq!(service.get_admin_by_id(AdminId::new(1)).unwrap().password_hash, "");
}

#[test]
fn accounts_are_listed_alphabetically() {
    let service = ConsoleAdminService::from_rows(vec![
        row(1, "zoe", "h", false),
        row(2, "Zoe", "h", false),
        row(3, "", "h", false),
        row(4, "zo", "h", false),
    ])
    .unwrap();
    let names: Vec<String> = service.list_admins().into_iter().map(|a| a.username).collect();
    assert_eq!(names, vec!["", "Zoe", "zo", "zoe"]);
}

#[test]
fn rows_that_share_an_id_or_a_username_are_refused() {
    assert!(ConsoleAdminService::from_rows(vec![row(1, "a", "h", true), row(1, "b", "h", true)]).is_none());
    assert!(ConsoleAdminService::from_rows(vec![row(1, "a", "h", true), row(2, "a", "h", true)]).is_none());
}

#[test]
fn new_accounts_get_ids_that_are_not_in_use() {
    let mut service = ConsoleAdminService::from_rows(vec![row(41, "a", "h", true)]).unwrap();
    let created = service.create_admin("b", "password", true, later()).unwrap();
    assert_ne!(created.id.as_i64(), 41);
    assert!(created.is_superadmin);
    assert_eq!(service.get_admin_by_id(created.id).unwrap().username, "b");
    let mut high = ConsoleAdminService::from_rows(vec![
        row(i64::MAX, "a", "h", true),
        row(i64::MAX - 1, "b", "h", true),
    ])
    .unwrap();
    let created = high.create_admin("c", "password", true, later()).unwrap();
    assert!(created.id.as_i64() < i64::MAX - 1);
    assert_eq!(high.list_admins().len(), 3);
}

#[test]
fn changes_reach_the_named_account_only() {
    let mut service =
        ConsoleAdminService::from_rows(vec![row(1, "a", "h", true), row(2, "b", "h", true)]).unwrap();
    assert!(service.set_superadmin(AdminId::new(2), false, later()));
    assert!(!service.set_superadmin(AdminId::new(3), false, later()));
    assert!(service.get_admin_by_id(AdminId::new(1)).unwrap().is_superadmin);
    let changed = service.get_admin_by_id(AdminId::new(2)).unwrap();
    assert!(!changed.is_superadmin);
    assert_eq!(changed.updated_at.secs(), later().secs());
    assert!(!service.update_password(AdminId::new(3), "whatever", later()).unwrap());
    assert!(service.delete_admin(AdminId::new(1)));
    assert!(!service.delete_admin(AdminId::new(1)));
    assert!(service.get_admin_by_id(AdminId::new(1)).is_none());
    assert!(service.get_admin_by_username("a").is_none());
    assert!(service.get_admin_by_username("b").is_some());
}

#[test]
fn hashes_are_salted_phc_strings() {
    let first = ConsoleAdminService::hash_password("same").unwrap();
    let second = ConsoleAdminService::hash_password("same").unwrap();
    assert_ne!(first, second);
    assert!(first.starts_with("$argon2id$v=19$"));
    assert!(verify_password("same", &first));
    assert!(!verify_password("Same", &first));
}

#[test]
fn hash_that_is_none_accepts_nothing() {
    assert!(!verify_password("x", ""));
    assert!(!verify_password("x", "x"));
    assert!(!verify_password("x", "$argon2id$v=19$m=19456,t=2,p=999999999$c2FsdHNhbHQ$aGFzaGhhc2g"));
}

#[test]
fn known_hash_is_accepted() {
    let hash = "$argon2id$v=19$m=65536,t=2,p=1$c29tZXNhbHQ$CTFhFdXPJO1aFaMaO6Mm5c8y7cJHAph8ArZWb2GRPPc";
    assert!(verify_password("password", hash));
    assert!(!verify_password("passwords", hash));
}
