use jellyswarrm_proxy::admin_id::AdminId;
use jellyswarrm_proxy::console_admin_service::ConsoleAdminService;
use jellyswarrm_proxy::encryption::HashedPassword;
use jellyswarrm_proxy::moment::Moment;
use jellyswarrm_proxy::server::LocalUser;
use jellyswarrm_proxy::status::StatusCode;
use jellyswarrm_proxy::storage::StorageError;
use jellyswarrm_proxy::ui::admin::ownership::CurrentAdmin;
use jellyswarrm_proxy::ui::auth::{
    console_admin_user_id, parse_console_admin_id, AdminLogin, AuthenticatedUser, Backend,
    Credentials, Error, SessionLookup, User, UserRole,
};

fn now() -> Moment {
    Moment::new(1_700_000_000, 0).unwrap()
}

fn local_user() -> LocalUser {
    LocalUser {
        id: "user-id".to_string(),
        virtual_key: "key".to_string(),
        original_username: "viewer".to_string(),
        original_password_hash: HashedPassword::from_hashed("stored-hash".to_string()),
    }
}

#[test]
fn admin_session_ids_round_trip() {
    for n in [0, 1, -1, 42, i64::MAX, i64::MIN] {
        let id = console_admin_user_id(AdminId::new(n));
        assert_eq!(parse_console_admin_id(&id), Some(AdminId::new(n)));
        assert_eq!(AdminId::new(n).to_text(), n.to_string());
    }
    assert_eq!(console_admin_user_id(AdminId::new(7)), "console:7");
}

#[test]
fn other_session_ids_are_no_admins() {
    for id in ["", "7", "admin", "console", "console:", "console:x", "Console:7", "console: 7", "console:9223372036854775808"] {
        assert_eq!(parse_console_admin_id(id), None, "{id}");
    }
    assert_eq!(parse_console_admin_id("console:+7"), Some(AdminId::new(7)));
    assert_eq!(parse_console_admin_id("console:007"), Some(AdminId::new(7)));
}

#[test]
fn console_admins_come_before_ordinary_users() {
    let mut admins = ConsoleAdminService::new();
    let created = admins.create_admin("boss", "secret-password", true, now()).unwrap();
    let backend = Backend::new(admins);
    let credentials = |password: &str| Credentials {
        username: "boss".to_string(),
        password: password.to_string(),
        next: None,
    };
    match backend.authenticate(credentials("secret-password")) {
        AdminLogin::Granted(user) => {
            assert_eq!(user.id(), "console:1");
            assert_eq!(user.role, UserRole::Admin);
            assert_eq!(user.session_auth_hash(), created.password_hash.as_bytes());
        }
        AdminLogin::AskUsers(_) => panic!("these are an admin's credentials"),
    }
    match backend.authenticate(credentials("other-password")) {
        AdminLogin::AskUsers(same) => assert_eq!(same.username, "boss"),
        AdminLogin::Granted(_) => panic!("the password is wrong"),
    }
    assert!(matches!(backend.get_user("console:1"), SessionLookup::Admin(Some(_))));
    assert!(matches!(backend.get_user("console:2"), SessionLookup::Admin(None)));
    assert!(matches!(backend.get_user("user-id"), SessionLookup::AskUsers));
}

#[test]
fn ordinary_user_gets_an_ordinary_session() {
    let found = Backend::user_found(Ok(Some(local_user()))).unwrap().unwrap();
    assert_eq!(found.id(), "user-id");
    assert_eq!(found.role, UserRole::User);
    assert_eq!(found.session_auth_hash(), b"stored-hash");
    let session = AuthenticatedUser(User::for_user(local_user()));
    assert_eq!(
        CurrentAdmin::claimed_id(Ok(session)).unwrap_err(),
        StatusCode::Forbidden
    );
    assert!(Backend::user_found(Ok(None)).unwrap().is_none());
    assert!(matches!(
        Backend::user_found(Err(StorageError::other("down"))),
        Err(Error::Sqlx(_))
    ));
}

#[test]
fn missing_session_is_unauthorized() {
    assert_eq!(
        AuthenticatedUser::from_session(Ok(None)).err(),
        Some(StatusCode::Unauthorized)
    );
    assert_eq!(
        AuthenticatedUser::from_session(Err(())).err(),
        Some(StatusCode::InternalServerError)
    );
    let session = AuthenticatedUser::from_session(Ok(Some(User::for_user(local_user()))));
    assert_eq!(session.ok().map(|s| s.0.id()), Some("user-id".to_string()));
}
