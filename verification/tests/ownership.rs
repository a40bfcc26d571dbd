use jellyswarrm_proxy::admin_id::AdminId;
use jellyswarrm_proxy::console_admin_service::ConsoleAdmin;
use jellyswarrm_proxy::moment::Moment;
use jellyswarrm_proxy::server::{MediaStreamingMode, Server, ServerId};
use jellyswarrm_proxy::status::StatusCode;
use jellyswarrm_proxy::storage::StorageError;
use jellyswarrm_proxy::ui::admin::ownership::{
    may_act_on, require_owner_or_superadmin, CurrentAdmin, SuperAdmin,
};
use jellyswarrm_proxy::ui::admin::servers::{
    describe_server, owner_to_show, visible_servers, ServerQuery,
};
use jellyswarrm_proxy::ui::auth::{AuthenticatedUser, User};

fn server_owned_by(owner: Option<AdminId>) -> Server {
    let now = Moment::new(1_700_000_000, 0).unwrap();
    Server {
        id: ServerId::new(1),
        name: "test".to_string(),
        url: "http://example.test".to_string(),
        priority: 100,
        media_streaming_mode: MediaStreamingMode::Redirect,
        created_at: now,
        updated_at: now,
        owner_admin_id: owner,
    }
}

fn admin(id: i64, is_superadmin: bool) -> CurrentAdmin {
    CurrentAdmin {
        id: AdminId::new(id),
        is_superadmin,
    }
}

fn account(id: i64, is_superadmin: bool) -> ConsoleAdmin {
    let now = Moment::new(0, 0).unwrap();
    ConsoleAdmin {
        id: AdminId::new(id),
        username: "owner".to_string(),
        password_hash: "hash".to_string(),
        is_superadmin,
        created_at: now,
        updated_at: now,
    }
}

#[test]
fn owner_may_act_on_their_own_server() {
    let server = server_owned_by(Some(AdminId::new(1)));
    assert!(may_act_on(&admin(1, false), &server));
}

#[test]
fn non_owner_non_superadmin_is_rejected() {
    let server = server_owned_by(Some(AdminId::new(1)));
    assert!(!may_act_on(&admin(2, false), &server));
}

#[test]
fn superadmin_may_act_on_any_server() {
    let server = server_owned_by(Some(AdminId::new(1)));
    assert!(may_act_on(&admin(2, true), &server));
}

#[test]
fn non_owner_is_rejected_even_for_an_ownerless_server() {
    let server = server_owned_by(None);
    assert!(!may_act_on(&admin(1, false), &server));
}

#[test]
fn looked_up_server_is_handed_out_to_its_owner_only() {
    let found = || Ok(Some(server_owned_by(Some(AdminId::new(1)))));
    let owner = require_owner_or_superadmin(&admin(1, false), found());
    assert_eq!(owner.unwrap().name, "test");
    let stranger = require_owner_or_superadmin(&admin(2, false), found());
    assert_eq!(stranger.unwrap_err(), StatusCode::Forbidden);
    let missing = require_owner_or_superadmin(&admin(1, true), Ok(None));
    assert_eq!(missing.unwrap_err(), StatusCode::NotFound);
    let broken = require_owner_or_superadmin(&admin(1, true), Err(StorageError::other("down")));
    assert_eq!(broken.unwrap_err(), StatusCode::InternalServerError);
}

#[test]
fn session_leads_to_the_admin_account() {
    let session = AuthenticatedUser(User::for_admin(account(7, true)));
    let id = CurrentAdmin::claimed_id(Ok(session)).unwrap();
    assert_eq!(id.as_i64(), 7);
    let current = CurrentAdmin::from_account(Ok(Some(account(7, true)))).unwrap();
    assert!(current.is_superadmin);
    assert!(SuperAdmin::from_admin(Ok(current)).is_ok());
    let plain = CurrentAdmin::from_account(Ok(Some(account(7, false))));
    assert_eq!(
        SuperAdmin::from_admin(plain).err(),
        Some(StatusCode::Forbidden)
    );
    let deleted = CurrentAdmin::from_account(Ok(None));
    assert_eq!(deleted.unwrap_err(), StatusCode::Unauthorized);
    let broken = CurrentAdmin::from_account(Err(StorageError::other("down")));
    assert_eq!(broken.unwrap_err(), StatusCode::InternalServerError);
    let nobody = CurrentAdmin::claimed_id(Err(StatusCode::Unauthorized));
    assert_eq!(nobody.unwrap_err(), StatusCode::Unauthorized);
}

#[test]
fn visible_servers_are_those_the_viewer_may_act_on() {
    assert!(matches!(
        visible_servers(&admin(1, true)),
        ServerQuery::All
    ));
    match visible_servers(&admin(3, false)) {
        ServerQuery::OwnedBy(id) => assert_eq!(id.as_i64(), 3),
        ServerQuery::All => panic!("only a superadmin sees every server"),
    }
}

#[test]
fn owner_is_shown_to_superadmins_only() {
    let server = server_owned_by(Some(AdminId::new(5)));
    assert_eq!(owner_to_show(&admin(1, true), &server), Some(AdminId::new(5)));
    assert_eq!(owner_to_show(&admin(5, false), &server), None);
    let seen = describe_server(
        &admin(1, true),
        server.clone(),
        Ok(None),
        Ok(Some(account(5, false))),
    );
    assert_eq!(seen.owner_username, Some("owner".to_string()));
    assert!(!seen.has_admin && seen.is_redirect && !seen.is_proxy);
    let hidden = describe_server(
        &admin(5, false),
        server,
        Err(StorageError::other("down")),
        Ok(Some(account(5, false))),
    );
    assert_eq!(hidden.owner_username, None);
    assert!(!hidden.has_admin);
}
