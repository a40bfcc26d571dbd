use jellyswarrm_proxy::admin_id::AdminId;
use jellyswarrm_proxy::encryption::{HashedPassword, Password};
use jellyswarrm_proxy::federated_users::{
    AdminSession, AdminSessionEvent, DeleteEvent, DeleteUser, RemoteUser, ServerSyncResult,
    SyncStatus,
};
use jellyswarrm_proxy::moment::Moment;
use jellyswarrm_proxy::server::{
    LocalUser, MediaStreamingMode, Server, ServerAdmin, ServerId, ServerMapping,
};
use jellyswarrm_proxy::status::StatusCode;
use jellyswarrm_proxy::storage::StorageError;
use jellyswarrm_proxy::ui::admin::ownership::CurrentAdmin;
use jellyswarrm_proxy::ui::admin::reply::{Message, Reply};
use jellyswarrm_proxy::ui::admin::users::{
    account_to_record, add_mapping, block_to_record, add_user, create_user_with_mappings, delete_mapping, delete_sessions, delete_user,
    get_user_item, get_user_list_impl, kick_user, sessions_fit, AddMapping, AddMappingEvent,
    AddMappingForm, AddUser, AddUserEvent, AddUserForm, DeleteMapping, DeleteMappingEvent,
    DeleteUserForm, KickEvent, KickUser, MappingRequest, RemoteLogin, RemoveUser, RemoveUserEvent,
    UserReply,
};

fn now() -> Moment {
    Moment::new(1_700_000_000, 0).unwrap()
}

fn server(id: i64, owner: Option<i64>) -> Server {
    Server {
        id: ServerId::new(id),
        name: format!("Server {id}"),
        url: format!("http://server-{id}.test"),
        priority: 100,
        media_streaming_mode: MediaStreamingMode::Redirect,
        created_at: now(),
        updated_at: now(),
        owner_admin_id: owner.map(AdminId::new),
    }
}

fn mapping(id: i64, server_id: i64) -> ServerMapping {
    ServerMapping {
        id,
        user_id: "kickme-id".to_string(),
        server_id: ServerId::new(server_id),
        mapped_username: "kickme".to_string(),
        mapped_password: "userpass".to_string(),
    }
}

fn user() -> LocalUser {
    LocalUser {
        id: "kickme-id".to_string(),
        virtual_key: "key".to_string(),
        original_username: "kickme".to_string(),
        original_password_hash: HashedPassword::from_hashed(String::new()),
    }
}

fn admin(id: i64) -> CurrentAdmin {
    CurrentAdmin {
        id: AdminId::new(id),
        is_superadmin: false,
    }
}

fn broken() -> StorageError {
    StorageError::other("down")
}

/// One server with one mapped user.
struct World {
    server: Server,
    mappings: Vec<ServerMapping>,
    remote: Vec<String>,
    blocked: Vec<(i64, String, i64)>,
}

impl World {
    fn new(owner: i64) -> World {
        World {
            server: server(1, Some(owner)),
            mappings: vec![mapping(5, 1)],
            remote: vec!["kickme".to_string()],
            blocked: Vec::new(),
        }
    }

    fn deletion_event(&mut self, deletion: &DeleteUser) -> DeleteEvent {
        match deletion {
            DeleteUser::Opening(_, _, session) => DeleteEvent::Session(match session {
                AdminSession::LoadAdmin(_) => AdminSessionEvent::Admin(Ok(Some(ServerAdmin {
                    username: "admin".to_string(),
                    password: "encrypted".to_string(),
                }))),
                AdminSession::DecryptPassword(_, _) => {
                    AdminSessionEvent::Decrypted(Ok(Password::new("admin-secret".to_string())))
                }
                AdminSession::Connect(_, _, _) => AdminSessionEvent::Connected(Ok(())),
                AdminSession::Authenticate(_, _, _) => AdminSessionEvent::Authenticated(Ok(())),
                AdminSession::ListUsers(_) => AdminSessionEvent::Users(Ok(self
                    .remote
                    .iter()
                    .map(|name| RemoteUser {
                        id: format!("remote-{name}-id"),
                        name: name.clone(),
                    })
                    .collect())),
                _ => unreachable!(),
            }),
            DeleteUser::DeleteAccount(_, id) => {
                self.remote.retain(|name| format!("remote-{name}-id") != *id);
                DeleteEvent::Deleted(Ok(()))
            }
            DeleteUser::Done(_) => unreachable!(),
        }
    }

    fn kick(&mut self, admin: CurrentAdmin) -> UserReply {
        let mut kick = kick_user(MappingRequest {
            admin,
            user_id: "kickme-id".to_string(),
            mapping_id: 5,
        });
        loop {
            let event = match &kick {
                KickUser::FindMapping(request) => KickEvent::Mapping(Ok(self
                    .mappings
                    .iter()
                    .find(|m| m.id == request.mapping_id)
                    .cloned())),
                KickUser::FindServer(_, id) => {
                    KickEvent::Server(Ok((*id == self.server.id).then_some(self.server.clone())))
                }
                KickUser::FindUser(_, _) => KickEvent::User(Ok(Some(user()))),
                KickUser::DeleteAccount(_, _, _, deletion) => {
                    KickEvent::Deletion(self.deletion_event(deletion))
                }
                KickUser::ForgetMapping(request, _, _, _) => {
                    let before = self.mappings.len();
                    self.mappings.retain(|m| m.id != request.mapping_id);
                    KickEvent::Forgotten(Ok(self.mappings.len() < before))
                }
                KickUser::Block(request, server, username, _) => {
                    let block = block_to_record(request, server, username);
                    self.blocked.push((
                        block.key.server_id.as_i64(),
                        block.key.username,
                        block.blocked_by.as_i64(),
                    ));
                    KickEvent::Blocked(Ok(()))
                }
                KickUser::Done(_) => break,
            };
            kick = kick.advance(event);
        }
        match kick {
            KickUser::Done(reply) => reply,
            _ => unreachable!(),
        }
    }
}

#[test]
fn kick_removes_mapping_and_blocks_recreation() {
    let mut world = World::new(1);
    let reply = world.kick(admin(1));
    match reply {
        UserReply::Item(user_id, Some(message)) => {
            assert_eq!(user_id, "kickme-id");
            assert_eq!(
                message.text(),
                "Kicked 'kickme' from 'Server 1' (remote account: Deleted). They will not be auto-recreated there."
            );
        }
        _ => panic!("the user is shown after a kick"),
    }
    assert!(world.mappings.is_empty(), "mapping should be removed after kick");
    assert!(world.remote.is_empty());
    assert_eq!(
        world.blocked,
        vec![(1, "kickme".to_string(), 1)],
        "user should be blocked on the server after kick"
    );
}

#[test]
fn kick_forbidden_for_non_owning_admin() {
    let mut world = World::new(1);
    match world.kick(admin(2)) {
        UserReply::Now(reply) => assert_eq!(reply.status(), StatusCode::Forbidden),
        _ => panic!("the kick is forbidden"),
    }
    assert_eq!(
        world.mappings.len(),
        1,
        "mapping must survive a forbidden kick attempt"
    );
    assert!(
        world.blocked.is_empty(),
        "user must not be blocked when the kick attempt was forbidden"
    );
    assert_eq!(world.remote.len(), 1);
}

fn kick_request() -> MappingRequest {
    MappingRequest {
        admin: admin(1),
        user_id: "kickme-id".to_string(),
        mapping_id: 5,
    }
}

fn now_reply(reply: UserReply) -> (u16, String) {
    match reply {
        UserReply::Now(reply) => (reply.status().as_u16(), reply.body()),
        _ => panic!("an immediate answer was expected"),
    }
}

fn kick_reply(kick: KickUser) -> UserReply {
    match kick {
        KickUser::Done(reply) => reply,
        _ => panic!("the removal is over"),
    }
}

fn alert(text: &str) -> String {
    format!("<div class=\"alert alert-error\">{text}</div>")
}

#[test]
fn kick_failures() {
    let begun = || kick_user(kick_request());
    let none = kick_reply(begun().advance(KickEvent::Mapping(Ok(None))));
    assert_eq!(now_reply(none), (404, alert("Mapping not found")));
    let failed = kick_reply(begun().advance(KickEvent::Mapping(Err(broken()))));
    assert_eq!(now_reply(failed), (500, "Database error".to_string()));
    let mapped = || begun().advance(KickEvent::Mapping(Ok(Some(mapping(5, 1)))));
    let gone = kick_reply(mapped().advance(KickEvent::Server(Ok(None))));
    assert_eq!(now_reply(gone), (404, alert("Server not found")));
    let owned = || mapped().advance(KickEvent::Server(Ok(Some(server(1, Some(1))))));
    let nobody = kick_reply(owned().advance(KickEvent::User(Ok(None))));
    assert_eq!(now_reply(nobody), (404, alert("User not found")));
    let unknown = kick_reply(owned().advance(KickEvent::User(Err(broken()))));
    assert_eq!(now_reply(unknown), (500, "Database error".to_string()));
    let skipped = || {
        owned()
            .advance(KickEvent::User(Ok(Some(user()))))
            .advance(KickEvent::Deletion(DeleteEvent::Session(
                AdminSessionEvent::Admin(Ok(None)),
            )))
    };
    assert!(matches!(
        skipped(),
        KickUser::ForgetMapping(_, _, _, SyncStatus::Skipped)
    ));
    let kept = kick_reply(skipped().advance(KickEvent::Forgotten(Err(broken()))));
    assert_eq!(now_reply(kept), (500, alert("Failed to remove local mapping")));
    let open = skipped()
        .advance(KickEvent::Forgotten(Ok(false)))
        .advance(KickEvent::Blocked(Err(broken())));
    match kick_reply(open) {
        UserReply::Item(_, Some(message)) => assert_eq!(
            message.text(),
            "Kicked 'kickme' from 'Server 1' but failed to persist the block -- they may be recreated on next login."
        ),
        _ => panic!("the user is shown after a kick"),
    }
}

#[test]
fn mapping_is_deleted_by_the_owner_only() {
    let begun = |id: i64| {
        let mut request = kick_request();
        request.admin = admin(id);
        delete_mapping(request).advance(DeleteMappingEvent::Mapping(Ok(Some(mapping(5, 1)))))
    };
    let done = |deletion: DeleteMapping| match deletion {
        DeleteMapping::Done(reply) => reply,
        _ => panic!("the deletion is over"),
    };
    let found = || DeleteMappingEvent::Server(Ok(Some(server(1, Some(1)))));
    let stranger = done(begun(2).advance(found()));
    assert_eq!(now_reply(stranger), (403, String::new()));
    let deleting = || begun(1).advance(found());
    assert!(matches!(deleting(), DeleteMapping::Delete(request) if request.mapping_id == 5));
    let deleted = done(deleting().advance(DeleteMappingEvent::Deleted(Ok(true))));
    assert!(matches!(deleted, UserReply::Item(id, None) if id == "kickme-id"));
    let missing = done(deleting().advance(DeleteMappingEvent::Deleted(Ok(false))));
    assert_eq!(now_reply(missing), (404, alert("Mapping not found")));
    let failed = done(deleting().advance(DeleteMappingEvent::Deleted(Err(broken()))));
    assert_eq!(now_reply(failed), (500, alert("Failed to delete mapping")));
    let unloaded = done(begun(1).advance(DeleteMappingEvent::Server(Err(broken()))));
    assert_eq!(now_reply(unloaded), (500, "Database error".to_string()));
}

fn mapping_form(username: &str, password: &str) -> AddMappingForm {
    AddMappingForm {
        user_id: "kickme-id".to_string(),
        server_id: ServerId::new(2),
        mapped_username: username.to_string(),
        mapped_password: Password::new(password.to_string()),
    }
}

fn popup(adding: AddMapping) -> String {
    match adding {
        AddMapping::Done(UserReply::Item(user_id, Some(message))) => {
            assert_eq!(user_id, "kickme-id");
            message.text()
        }
        _ => panic!("a message pops up"),
    }
}

#[test]
fn mapping_is_validated_before_it_is_saved() {
    assert_eq!(
        popup(add_mapping(admin(1), mapping_form(" \t", "pw"))),
        "Mapping username and password are required."
    );
    assert_eq!(
        popup(add_mapping(admin(1), mapping_form("name", ""))),
        "Mapping username and password are required."
    );
    let begun = || add_mapping(admin(1), mapping_form("name", "pw"));
    assert_eq!(
        popup(begun().advance(AddMappingEvent::Servers(Err(broken())))),
        "Could not load servers while validating this mapping."
    );
    assert_eq!(
        popup(begun().advance(AddMappingEvent::Servers(Ok(vec![server(1, Some(1))])))),
        "Selected server was not found. Please refresh and try again."
    );
    assert_eq!(
        popup(begun().advance(AddMappingEvent::Servers(Ok(vec![server(2, Some(9))])))),
        "You don't have permission to add mappings for that server."
    );
    let chosen = || {
        begun().advance(AddMappingEvent::Servers(Ok(vec![
            server(1, Some(9)),
            server(2, Some(1)),
        ])))
    };
    assert_eq!(
        popup(chosen().advance(AddMappingEvent::Connected(Err("bad url".to_string())))),
        "Failed to connect to selected server 'Server 2'."
    );
    let connected = || chosen().advance(AddMappingEvent::Connected(Ok(())));
    assert_eq!(
        popup(connected().advance(AddMappingEvent::Authenticated(RemoteLogin::Rejected))),
        "Validation failed on server 'Server 2': username or password is incorrect."
    );
    assert_eq!(
        popup(connected().advance(AddMappingEvent::Authenticated(RemoteLogin::Failed(
            "timeout".to_string()
        )))),
        "Could not validate credentials on server 'Server 2': timeout"
    );
    let accepted = || connected().advance(AddMappingEvent::Authenticated(RemoteLogin::Accepted));
    assert!(matches!(accepted(), AddMapping::Save(form, server)
        if form.mapped_username == "name" && server.id == ServerId::new(2)));
    let own = Password::new("own".to_string());
    let account = account_to_record(&mapping_form("name", "pw"), &server(2, Some(1)), &own);
    assert_eq!(account.user_id, "kickme-id");
    assert_eq!(account.server.id, ServerId::new(2));
    assert_eq!(account.username, "name");
    assert_eq!(account.password.as_str(), "pw");
    assert_eq!(account.key.as_str(), "own");
    let saved = accepted().advance(AddMappingEvent::Saved(Ok(3)));
    assert!(matches!(saved, AddMapping::Done(UserReply::Item(_, None))));
    match accepted().advance(AddMappingEvent::Saved(Err(broken()))) {
        AddMapping::Done(reply) => {
            assert_eq!(now_reply(reply), (500, alert("Failed to add mapping")))
        }
        _ => panic!("saving failed"),
    }
}

fn user_form(username: &str, password: &str, enable_federation: bool) -> AddUserForm {
    AddUserForm {
        username: username.to_string(),
        password: Password::new(password.to_string()),
        enable_federation,
    }
}

fn add_reply(adding: AddUser) -> UserReply {
    match adding {
        AddUser::Done(reply) => reply,
        _ => panic!("adding the user is over"),
    }
}

#[test]
fn user_is_added_and_synced_on_request() {
    let missing = add_reply(add_user(user_form("  ", "pw", false)));
    assert_eq!(now_reply(missing), (400, alert("Username and password required")));
    let plain = add_user(user_form("name", "pw", false));
    let listed = add_reply(plain.advance(AddUserEvent::Created(Ok(user()))));
    assert!(matches!(listed, UserReply::List(None)));
    let federated = add_user(user_form("name", "pw", true)).advance(AddUserEvent::Created(Ok(user())));
    let report = vec![ServerSyncResult {
        server_name: "Server 1".to_string(),
        status: SyncStatus::Created,
        message: None,
    }];
    match add_reply(federated.advance(AddUserEvent::Synced(report))) {
        UserReply::List(Some(report)) => assert_eq!(report[0].status, SyncStatus::Created),
        _ => panic!("the list shows the report"),
    }
    let taken = add_user(user_form("name", "pw", true)).advance(AddUserEvent::Created(Err(
        StorageError::duplicate("UNIQUE constraint failed"),
    )));
    assert_eq!(now_reply(add_reply(taken)), (409, alert("User already exists")));
    let failed = add_user(user_form("name", "pw", true)).advance(AddUserEvent::Created(Err(broken())));
    assert_eq!(now_reply(add_reply(failed)), (500, alert("Failed to create user")));
}

fn removal_reply(removal: RemoveUser) -> UserReply {
    match removal {
        RemoveUser::Done(reply) => reply,
        _ => panic!("the removal is over"),
    }
}

#[test]
fn user_is_deleted_everywhere_on_request() {
    let begun = |delete_federated: bool| {
        delete_user("kickme-id".to_string(), DeleteUserForm { delete_federated })
    };
    let nobody = removal_reply(begun(true).advance(RemoveUserEvent::Found(Ok(None))));
    assert_eq!(now_reply(nobody), (404, alert("User not found")));
    let failed = removal_reply(begun(true).advance(RemoveUserEvent::Found(Err(broken()))));
    assert_eq!(now_reply(failed), (500, alert("Database error")));
    let found = || RemoveUserEvent::Found(Ok(Some(user())));
    assert!(matches!(begun(true).advance(found()),
        RemoveUser::DeleteEverywhere(id, name) if id == "kickme-id" && name == "kickme"));
    let local = || begun(false).advance(found());
    let deleted = removal_reply(local().advance(RemoveUserEvent::Deleted(Ok(true))));
    assert!(matches!(deleted, UserReply::List(None)));
    let raced = removal_reply(local().advance(RemoveUserEvent::Deleted(Ok(false))));
    assert_eq!(now_reply(raced), (404, alert("User not found")));
    let kept = removal_reply(local().advance(RemoveUserEvent::Deleted(Err(broken()))));
    assert_eq!(now_reply(kept), (500, alert("Failed to delete user")));
    let everywhere = begun(true)
        .advance(found())
        .advance(RemoveUserEvent::DeletedEverywhere(Vec::new()))
        .advance(RemoveUserEvent::Deleted(Ok(true)));
    assert!(matches!(removal_reply(everywhere), UserReply::List(Some(report)) if report.is_empty()));
}

#[test]
fn sessions_are_deleted() {
    let done = delete_sessions("id".to_string(), Ok(()));
    assert!(matches!(done, UserReply::Item(id, None) if id == "id"));
    let failed = delete_sessions("id".to_string(), Err(broken()));
    assert_eq!(now_reply(failed), (500, alert("Failed to delete usersessions")));
}

#[test]
fn user_is_described_with_accounts_and_sessions() {
    let servers = vec![server(1, None), server(2, None), server(3, None)];
    let counts = vec![
        ("http://server-2.test".to_string(), 4),
        ("http://server-1.test".to_string(), 1),
        ("http://server-2.test".to_string(), 7),
    ];
    let mappings = vec![mapping(10, 2), mapping(11, 9), mapping(12, 3)];
    assert!(sessions_fit(&servers, &counts, &mappings));
    let described = create_user_with_mappings(user(), &servers, Ok(counts), Ok(mappings));
    let rows: Vec<(i64, i64, i64)> = described
        .mappings
        .iter()
        .map(|(m, s, n)| (m.id, s.id.as_i64(), *n))
        .collect();
    assert_eq!(rows, vec![(10, 2, 7), (12, 3, 0)]);
    let offered: Vec<i64> = described
        .available_servers
        .iter()
        .map(|s| s.id.as_i64())
        .collect();
    assert_eq!(offered, vec![1]);
    assert_eq!(described.total_sessions, 7);
}

#[test]
fn failed_lookups_count_as_empty() {
    let servers = vec![server(1, None)];
    let described = create_user_with_mappings(user(), &servers, Err(broken()), Err(broken()));
    assert!(described.mappings.is_empty());
    assert_eq!(described.available_servers.len(), 1);
    assert_eq!(described.total_sessions, 0);
}

#[test]
fn sessions_that_cannot_be_added_up_are_noticed() {
    let servers = vec![server(1, None)];
    let counts = vec![("http://server-1.test".to_string(), i64::MAX)];
    assert!(sessions_fit(&servers, &counts, &vec![mapping(1, 1)]));
    assert!(!sessions_fit(&servers, &counts, &vec![mapping(1, 1), mapping(2, 1)]));
}

#[test]
fn user_item_needs_servers_and_a_user() {
    let (found, servers) = get_user_item(Ok(vec![server(1, None)]), Ok(Some(user()))).ok().unwrap();
    assert_eq!(found.id, "kickme-id");
    assert_eq!(servers.len(), 1);
    let status = |reply: Option<Reply>| reply.map(|r| (r.status().as_u16(), r.body()));
    let unlisted = get_user_item(Err(broken()), Ok(None)).err();
    assert_eq!(status(unlisted), Some((500, "Database error".to_string())));
    let missing = get_user_item(Ok(Vec::new()), Ok(None)).err();
    assert_eq!(status(missing), Some((404, alert("User not found"))));
    let failed = get_user_item(Ok(Vec::new()), Err(broken())).err();
    assert_eq!(status(failed), Some((500, "Database error".to_string())));
}

#[test]
fn list_describes_every_user_in_turn() {
    let mut listing = get_user_list_impl(Ok(vec![server(1, None)]), Ok(vec![user(), user()]))
        .ok()
        .unwrap();
    let mut turns: usize = 0;
    while let Some(current) = listing.current() {
        assert_eq!(current.id, "kickme-id");
        assert_eq!(listing.servers().len(), 1);
        listing.record(Ok(Vec::new()), Ok(vec![mapping(1, 1)]));
        turns += 1;
    }
    assert_eq!(turns, 2);
    let users = listing.into_users();
    assert_eq!(users.len(), 2);
    assert_eq!(users[1].mappings.len(), 1);
    assert!(get_user_list_impl(Err(broken()), Ok(Vec::new())).is_err());
    assert!(get_user_list_impl(Ok(Vec::new()), Err(broken())).is_err());
}

#[test]
fn other_messages_keep_their_words() {
    assert_eq!(Message::Other("as is".to_string()).text(), "as is");
}
