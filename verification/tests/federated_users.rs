use jellyswarrm_proxy::encryption::Password;
use jellyswarrm_proxy::federated_users::{
    account_to_record, AdminSessionEvent, DeleteEvent, DeleteUser, FederatedUserService, RemoteUser, SyncEvent,
    SyncOutcome, SyncRequest, SyncStatus, SyncUser,
};
use jellyswarrm_proxy::moment::Moment;
use jellyswarrm_proxy::server::{MediaStreamingMode, Server, ServerAdmin, ServerId};
use jellyswarrm_proxy::storage::StorageError;

fn server() -> Server {
    let now = Moment::new(0, 0).unwrap();
    Server {
        id: ServerId::new(1),
        name: "Server A".to_string(),
        url: "http://a.test".to_string(),
        priority: 1,
        media_streaming_mode: MediaStreamingMode::Redirect,
        created_at: now,
        updated_at: now,
        owner_admin_id: None,
    }
}

fn begin() -> SyncUser {
    FederatedUserService::sync_user_to_server(SyncRequest {
        server: server(),
        username: "Viewer".to_string(),
        password: Password::new("pw".to_string()),
        user_id: "local".to_string(),
    })
}

fn session(event: AdminSessionEvent) -> SyncEvent {
    SyncEvent::Session(event)
}

fn credentials() -> AdminSessionEvent {
    AdminSessionEvent::Admin(Ok(Some(ServerAdmin {
        username: "admin".to_string(),
        password: "cipher".to_string(),
    })))
}

fn decrypted() -> AdminSessionEvent {
    AdminSessionEvent::Decrypted(Ok(Password::new("clear".to_string())))
}

fn users(names: &[&str]) -> AdminSessionEvent {
    AdminSessionEvent::Users(Ok(names
        .iter()
        .map(|name| RemoteUser {
            id: format!("id-{name}"),
            name: name.to_string(),
        })
        .collect()))
}

fn open(names: &[&str]) -> SyncUser {
    begin()
        .advance(session(credentials()))
        .advance(session(decrypted()))
        .advance(session(AdminSessionEvent::Connected(Ok(()))))
        .advance(session(AdminSessionEvent::Authenticated(Ok(()))))
        .advance(session(users(names)))
}

fn told(outcome: SyncOutcome) -> (String, SyncStatus, Option<String>) {
    let shown = outcome.display();
    (shown.server_name, shown.status, shown.message)
}

fn sync_told(sync: SyncUser) -> (SyncStatus, Option<String>) {
    match sync {
        SyncUser::Done(outcome) => {
            let (name, status, message) = told(outcome);
            assert_eq!(name, "Server A");
            (status, message)
        }
        _ => panic!("the sync is over"),
    }
}

fn failure(text: &str) -> (SyncStatus, Option<String>) {
    (SyncStatus::Failed, Some(text.to_string()))
}

#[test]
fn missing_account_is_created_and_recorded() {
    let creating = open(&["someone"]);
    assert!(matches!(creating, SyncUser::CreateAccount(_)));
    let saving = creating.advance(SyncEvent::Created(Ok(())));
    match &saving {
        SyncUser::SaveMapping(request, SyncStatus::Created) => {
            let account = account_to_record(request);
            assert_eq!(account.user_id, "local");
            assert_eq!(account.server.name, "Server A");
            assert_eq!(account.username, "Viewer");
            assert_eq!(account.password.as_str(), "pw");
            assert_eq!(account.key.as_str(), "pw");
        }
        _ => panic!("the account was created"),
    }
    let done = sync_told(saving.advance(SyncEvent::MappingSaved(Ok(()))));
    assert_eq!(done, (SyncStatus::Created, None));
}

#[test]
fn account_that_is_there_is_only_checked() {
    let checking = open(&["other", "vIEWER"]);
    assert!(matches!(&checking, SyncUser::ConnectAsUser(_, id) if id == "id-vIEWER"));
    let authenticating = checking.advance(SyncEvent::UserConnected(Ok(())));
    let saved = authenticating
        .advance(SyncEvent::UserAuthenticated(true))
        .advance(SyncEvent::MappingSaved(Ok(())));
    assert_eq!(sync_told(saved), (SyncStatus::AlreadyExists, None));
    let refused = open(&["Viewer"])
        .advance(SyncEvent::UserConnected(Ok(())))
        .advance(SyncEvent::UserAuthenticated(false));
    assert_eq!(
        sync_told(refused),
        (
            SyncStatus::ExistsWithDifferentPassword,
            Some("User exists with different password".to_string())
        )
    );
}

#[test]
fn sync_needs_admin_credentials() {
    let skipped = begin().advance(session(AdminSessionEvent::Admin(Ok(None))));
    assert_eq!(
        sync_told(skipped),
        (SyncStatus::Skipped, Some("No admin credentials".to_string()))
    );
    let failed = begin().advance(session(AdminSessionEvent::Admin(Err(StorageError::other("down")))));
    assert_eq!(sync_told(failed), failure("Failed to get admin creds: down"));
}

#[test]
fn failures_are_reported() {
    let with_key = || begin().advance(session(credentials()));
    let locked = with_key().advance(session(AdminSessionEvent::Decrypted(Err("bad".to_string()))));
    assert_eq!(sync_told(locked), failure("Failed to decrypt admin password"));
    let opened = || with_key().advance(session(decrypted()));
    let unconnected = opened().advance(session(AdminSessionEvent::Connected(Err("bad".to_string()))));
    assert_eq!(sync_told(unconnected), failure("Client error: bad"));
    let connected = || opened().advance(session(AdminSessionEvent::Connected(Ok(()))));
    let denied = connected().advance(session(AdminSessionEvent::Authenticated(Err("no".to_string()))));
    assert_eq!(sync_told(denied), failure("Admin auth failed: no"));
    let unlisted = connected()
        .advance(session(AdminSessionEvent::Authenticated(Ok(()))))
        .advance(session(AdminSessionEvent::Users(Err("no".to_string()))));
    assert_eq!(sync_told(unlisted), failure("Failed to list users: no"));
    let uncreated = open(&[]).advance(SyncEvent::Created(Err("no".to_string())));
    assert_eq!(sync_told(uncreated), failure("Sync failed: no"));
    let unsaved = open(&[])
        .advance(SyncEvent::Created(Ok(())))
        .advance(SyncEvent::MappingSaved(Err(StorageError::other("down"))));
    assert_eq!(sync_told(unsaved), failure("Failed to save local mapping: down"));
    let stray = begin().advance(SyncEvent::Created(Ok(())));
    assert!(matches!(stray, SyncUser::Opening(_, _)));
}

fn delete(names: &[&str]) -> DeleteUser {
    let mut deletion = FederatedUserService::delete_user_from_server(server(), "Viewer".to_string());
    for event in [
        credentials(),
        decrypted(),
        AdminSessionEvent::Connected(Ok(())),
        AdminSessionEvent::Authenticated(Ok(())),
        users(names),
    ] {
        deletion = deletion.advance(DeleteEvent::Session(event));
    }
    deletion
}

fn delete_told(deletion: DeleteUser) -> (SyncStatus, Option<String>) {
    match deletion {
        DeleteUser::Done(outcome) => {
            let (_, status, message) = told(outcome);
            (status, message)
        }
        _ => panic!("the deletion is over"),
    }
}

#[test]
fn deletion_finds_the_account_by_name() {
    assert_eq!(delete_told(delete(&["other"])), (SyncStatus::NotFound, None));
    let deleting = delete(&["viewer"]);
    assert!(matches!(&deleting, DeleteUser::DeleteAccount(_, id) if id == "id-viewer"));
    assert_eq!(
        delete_told(deleting.advance(DeleteEvent::Deleted(Ok(())))),
        (SyncStatus::Deleted, None)
    );
    assert_eq!(
        delete_told(delete(&["viewer"]).advance(DeleteEvent::Deleted(Err("no".to_string())))),
        failure("Delete failed: no")
    );
}

#[test]
fn sweep_is_for_the_user_asked_for() {
    let sweep = FederatedUserService::sync_user_to_all_servers(Ok(vec![server()]));
    let (name, id) = ("Viewer".to_string(), "local".to_string());
    let request = sweep
        .current_request(&name, &Password::new("pw".to_string()), &id)
        .unwrap();
    assert_eq!(request.server.name, "Server A");
    assert_eq!(request.username, "Viewer");
    assert_eq!(request.password.as_str(), "pw");
    assert_eq!(request.user_id, "local");
    assert!(matches!(
        sweep.current_deletion(&name),
        Some(DeleteUser::Opening(server, username, _))
            if server.name == "Server A" && username == "Viewer"
    ));
    let none = FederatedUserService::sync_user_to_all_servers(Ok(Vec::new()));
    assert!(none.current_deletion(&name).is_none());
    assert!(none
        .current_request(&name, &Password::new("pw".to_string()), &id)
        .is_none());
}

#[test]
fn sweep_visits_every_server_in_order() {
    let mut second = server();
    second.name = "Server B".to_string();
    let mut sweep = FederatedUserService::sync_user_to_all_servers(Ok(vec![server(), second]));
    let mut visited: Vec<String> = Vec::new();
    while let Some(current) = sweep.current() {
        visited.push(current.name.clone());
        sweep.record(SyncOutcome {
            server_name: current.name,
            status: SyncStatus::Created,
            reason: None,
        });
    }
    assert_eq!(visited, vec!["Server A", "Server B"]);
    let reported: Vec<String> = sweep.into_results().into_iter().map(|r| r.server_name).collect();
    assert_eq!(reported, visited);
    let none = FederatedUserService::delete_user_from_all_servers(Err(StorageError::other("down")));
    assert!(none.current().is_none());
    assert!(none.into_results().is_empty());
}
