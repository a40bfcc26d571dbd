use std::collections::HashMap;

use hyper::header::HeaderValue;
use hyper::HeaderMap;
use jellyswarrm_proxy::encryption::{HashedPassword, Password};
use jellyswarrm_proxy::federated_users::{
    AdminSession, AdminSessionEvent, RemoteUser, SyncEvent, SyncUser,
};
use jellyswarrm_proxy::handlers::login::{
    account_to_record, handle_authenticate_by_name, session_to_store, Attempt, Login, LoginContext, LoginEvent,
};
use jellyswarrm_proxy::handlers::users::{
    attempt_auto_create_then_authenticate, authenticate_on_server, authorization_to_store, block_to_look_up,
    extract_auth_header, handle_get_me, handle_get_user_by_id, handle_public, login_path, select_auth_header,
    user_path, AuthError, AuthHeader, AutoCreate, AutoCreateEvent, LoginAttempt, ServerLogin,
    ServerLoginEvent, SuccessfulServerAuth,
};
use jellyswarrm_proxy::login_rate_limit_service::LoginRateLimitService;
use jellyswarrm_proxy::models::{
    AuthenticateRequest, AuthenticateResponse, Authorization, SessionInfo, SyncPlayUserAccessType,
    User, UserPolicy,
};
use jellyswarrm_proxy::moment::Moment;
use jellyswarrm_proxy::server::{
    LocalUser, MediaStreamingMode, Server, ServerAdmin, ServerId, ServerMapping,
};
use jellyswarrm_proxy::status::StatusCode;
use jellyswarrm_proxy::storage::StorageError;

const MAX_ATTEMPTS: i64 = 5;
const WINDOW_SECS: i64 = 300;
const COOLDOWN_SECS: i64 = 900;

/// Servers with their accounts, and what the proxy remembers.
struct World {
    servers: Vec<Server>,
    /// Username and password of every account, by server.
    accounts: HashMap<i64, Vec<(String, String)>>,
    /// The servers whose administrator's credentials are known.
    administered: Vec<i64>,
    users: Vec<LocalUser>,
    mappings: Vec<ServerMapping>,
    blocks: Vec<(i64, String)>,
    sessions: Vec<(String, i64, Authorization)>,
    limiter: LoginRateLimitService,
    auto_create: bool,
    requests: usize,
}

fn now() -> Moment {
    Moment::new(1_700_000_000, 0).unwrap()
}

fn server(id: i64, name: &str) -> Server {
    Server {
        id: ServerId::new(id),
        name: name.to_string(),
        url: format!("http://server-{id}.test"),
        priority: 100,
        media_streaming_mode: MediaStreamingMode::Redirect,
        created_at: now(),
        updated_at: now(),
        owner_admin_id: None,
    }
}

fn authorization() -> Authorization {
    Authorization {
        client: "Jellyfin Web".to_string(),
        device: "Firefox".to_string(),
        device_id: "test-device".to_string(),
        version: "10.10.7".to_string(),
        token: None,
    }
}

fn login_headers() -> HeaderMap {
    let mut headers = HeaderMap::new();
    headers.insert(
        "authorization",
        HeaderValue::from_static(
            "MediaBrowser Client=\"Jellyfin Web\", Device=\"Firefox\", DeviceId=\"test-device\", Version=\"10.10.7\"",
        ),
    );
    headers
}

fn headers_from(ip: &'static str) -> HeaderMap {
    let mut headers = login_headers();
    headers.insert("x-forwarded-for", HeaderValue::from_static(ip));
    headers
}

fn upstream_response(username: &str) -> AuthenticateResponse {
    AuthenticateResponse {
        user: User {
            name: username.to_string(),
            server_id: "upstream-server".to_string(),
            id: "upstream-user-id".to_string(),
            policy: UserPolicy {
                is_administrator: true,
                sync_play_access: SyncPlayUserAccessType::NoAccess,
                extra: HashMap::new(),
            },
            extra: HashMap::new(),
        },
        session_info: SessionInfo {
            user_id: "upstream-user-id".to_string(),
            user_name: username.to_string(),
            server_id: "upstream-server".to_string(),
            extra: HashMap::new(),
        },
        access_token: "upstream-token".to_string(),
        server_id: "upstream-server".to_string(),
    }
}

fn request(username: &str, password: &str) -> AuthenticateRequest {
    AuthenticateRequest {
        username: username.to_string(),
        password: Password::new(password.to_string()),
    }
}

impl World {
    fn new(names: &[&str]) -> World {
        let servers: Vec<Server> = names
            .iter()
            .enumerate()
            .map(|(i, name)| server(i as i64 + 1, name))
            .collect();
        World {
            servers,
            accounts: HashMap::new(),
            administered: Vec::new(),
            users: Vec::new(),
            mappings: Vec::new(),
            blocks: Vec::new(),
            sessions: Vec::new(),
            limiter: LoginRateLimitService::new(),
            auto_create: true,
            requests: 0,
        }
    }

    fn add_account(&mut self, server: i64, username: &str, password: &str) {
        self.accounts
            .entry(server)
            .or_default()
            .push((username.to_string(), password.to_string()));
    }

    fn has_account(&self, server: i64, username: &str, password: &str) -> bool {
        self.accounts.get(&server).is_some_and(|accounts| {
            accounts
                .iter()
                .any(|(name, secret)| name == username && secret == password)
        })
    }

    fn get_or_create_user(&mut self, username: &str) -> LocalUser {
        if let Some(user) = self.users.iter().find(|u| u.original_username == username) {
            return user.clone();
        }
        let user = LocalUser {
            id: format!("local-{username}"),
            virtual_key: format!("key-{username}"),
            original_username: username.to_string(),
            original_password_hash: HashedPassword::from_hashed(String::new()),
        };
        self.users.push(user.clone());
        user
    }

    /// Records an account; the stored password opens with the password it is
    /// encrypted with.
    fn add_mapping(&mut self, user_id: &str, server_id: ServerId, username: &str, password: &str) {
        let encrypted = format!("{password}|{password}");
        if let Some(mapping) = self
            .mappings
            .iter_mut()
            .find(|m| m.user_id == user_id && m.server_id == server_id)
        {
            mapping.mapped_username = username.to_string();
            mapping.mapped_password = encrypted;
            return;
        }
        self.mappings.push(ServerMapping {
            id: self.mappings.len() as i64 + 1,
            user_id: user_id.to_string(),
            server_id,
            mapped_username: username.to_string(),
            mapped_password: encrypted,
        });
    }

    fn mappings_of(&self, user_id: &str) -> Vec<ServerMapping> {
        self.mappings
            .iter()
            .filter(|m| m.user_id == user_id)
            .cloned()
            .collect()
    }

    fn log_in_on_server(&mut self, mut login: ServerLogin) -> Result<SuccessfulServerAuth, AuthError> {
        loop {
            let event = match &login {
                ServerLogin::DecryptPassword(attempt, mapping) => {
                    let key = format!("{}|", attempt.payload.password.as_str());
                    let stored = mapping.mapped_password.as_str();
                    let opened = stored.strip_prefix(key.as_str()).unwrap_or(stored);
                    ServerLoginEvent::Decrypted(Password::new(opened.to_string()))
                }
                ServerLogin::Send(attempt, username, password) => {
                    self.requests += 1;
                    let known =
                        self.has_account(attempt.server.id.as_i64(), username, password.as_str());
                    ServerLoginEvent::Answered(Ok(if known { 200 } else { 401 }))
                }
                ServerLogin::ReadBody(_, username, _) => {
                    ServerLoginEvent::Body(Ok(username.clone()))
                }
                ServerLogin::ParseBody(_, _, _, body) => {
                    ServerLoginEvent::Parsed(Ok(upstream_response(body)))
                }
                ServerLogin::Done(_) => break,
            };
            login = login.advance(event);
        }
        match login {
            ServerLogin::Done(result) => result,
            _ => unreachable!(),
        }
    }

    fn sync_event(&mut self, sync: &SyncUser) -> SyncEvent {
        match sync {
            SyncUser::Opening(request, session) => {
                let id = request.server.id.as_i64();
                SyncEvent::Session(match session {
                    AdminSession::LoadAdmin(_) => {
                        let known = self.administered.contains(&id);
                        AdminSessionEvent::Admin(Ok(known.then_some(ServerAdmin {
                            username: "admin".to_string(),
                            password: "encrypted".to_string(),
                        })))
                    }
                    AdminSession::DecryptPassword(_, _) => AdminSessionEvent::Decrypted(Ok(
                        Password::new("admin-secret".to_string()),
                    )),
                    AdminSession::Connect(_, _, _) => AdminSessionEvent::Connected(Ok(())),
                    AdminSession::Authenticate(_, _, _) => AdminSessionEvent::Authenticated(Ok(())),
                    AdminSession::ListUsers(_) => AdminSessionEvent::Users(Ok(self
                        .accounts
                        .get(&id)
                        .map(|accounts| {
                            accounts
                                .iter()
                                .map(|(name, _)| RemoteUser {
                                    id: format!("remote-{name}"),
                                    name: name.clone(),
                                })
                                .collect()
                        })
                        .unwrap_or_default())),
                    _ => unreachable!(),
                })
            }
            SyncUser::ConnectAsUser(_, _) => SyncEvent::UserConnected(Ok(())),
            SyncUser::AuthenticateAsUser(request, _) => {
                SyncEvent::UserAuthenticated(self.has_account(
                    request.server.id.as_i64(),
                    &request.username,
                    request.password.as_str(),
                ))
            }
            SyncUser::CreateAccount(request) => {
                self.add_account(
                    request.server.id.as_i64(),
                    &request.username,
                    request.password.as_str(),
                );
                SyncEvent::Created(Ok(()))
            }
            SyncUser::SaveMapping(request, _) => {
                self.add_mapping(
                    &request.user_id,
                    request.server.id,
                    &request.username,
                    request.password.as_str(),
                );
                SyncEvent::MappingSaved(Ok(()))
            }
            SyncUser::Done(_) => unreachable!(),
        }
    }

    fn create_and_log_in(&mut self, attempt: LoginAttempt) -> Result<SuccessfulServerAuth, AuthError> {
        let mut creation = attempt_auto_create_then_authenticate(attempt);
        loop {
            let event = match &creation {
                AutoCreate::CheckEnabled(_) => AutoCreateEvent::Enabled(self.auto_create),
                AutoCreate::CheckBlocked(attempt) => {
                    let block = block_to_look_up(attempt);
                    let key = (block.server_id.as_i64(), block.username);
                    AutoCreateEvent::Blocked(Ok(self.blocks.contains(&key)))
                }
                AutoCreate::ResolveUser(attempt) => {
                    let name = attempt.payload.username.clone();
                    AutoCreateEvent::User(Ok(self.get_or_create_user(&name)))
                }
                AutoCreate::Sync(_, sync) => AutoCreateEvent::Sync(self.sync_event(sync)),
                AutoCreate::LogIn(_) | AutoCreate::Refused(_) => break,
            };
            creation = creation.advance(event);
        }
        match creation {
            AutoCreate::LogIn(login) => self.log_in_on_server(login),
            AutoCreate::Refused(error) => Err(error),
            _ => unreachable!(),
        }
    }

    fn attempt(context: &LoginContext, server: &Server) -> LoginAttempt {
        LoginAttempt {
            authorization: context.authorization.clone(),
            payload: context.payload.clone(),
            server: server.clone(),
        }
    }

    fn tried(result: Result<SuccessfulServerAuth, AuthError>) -> Attempt {
        match result {
            Ok(accepted) => Attempt::Succeeded(accepted),
            Err(error) => Attempt::Failed(error),
        }
    }

    fn login_event(&mut self, login: &Login) -> LoginEvent {
        match login {
            Login::CheckRateLimit(request) => LoginEvent::SecondsLeft(Ok(self
                .limiter
                .seconds_until_unblocked(&request.client_ip, now()))),
            Login::ListServers(_) => LoginEvent::Servers(Ok(self.servers.clone())),
            Login::ParseHeader(_, _) => LoginEvent::HeaderParsed(Some(authorization())),
            Login::FindUser(context, _) => LoginEvent::ExistingUser(Ok(self
                .users
                .iter()
                .find(|u| u.original_username == context.payload.username)
                .cloned())),
            Login::CheckAutoCreate(_, _) => LoginEvent::AutoCreate(self.auto_create),
            Login::ListMappings(_, _, user) => LoginEvent::Mappings(Ok(self.mappings_of(&user.id))),
            Login::TryMapped(context, mapped, _) => LoginEvent::Tried(
                mapped
                    .iter()
                    .map(|m| {
                        let login = authenticate_on_server(
                            World::attempt(context, &m.server),
                            Some(m.mapping.clone()),
                        );
                        World::tried(self.log_in_on_server(login))
                    })
                    .collect(),
            ),
            Login::TryUnmapped(context, _, servers) => LoginEvent::Tried(
                servers
                    .iter()
                    .map(|s| {
                        let login = authenticate_on_server(World::attempt(context, s), None);
                        World::tried(self.log_in_on_server(login))
                    })
                    .collect(),
            ),
            Login::TryAutoCreate(context, _, servers) => LoginEvent::Tried(
                servers
                    .iter()
                    .map(|s| World::tried(self.create_and_log_in(World::attempt(context, s))))
                    .collect(),
            ),
            Login::RecordFailure(context) => {
                self.limiter.record_failure(
                    &context.client_ip,
                    MAX_ATTEMPTS,
                    WINDOW_SECS,
                    COOLDOWN_SECS,
                    now(),
                );
                LoginEvent::Counted(true)
            }
            Login::RecordSuccess(context, _) => {
                self.limiter.record_success(&context.client_ip);
                LoginEvent::Counted(true)
            }
            Login::ResolveUser(context, _) => {
                let name = context.payload.username.clone();
                LoginEvent::User(Ok(self.get_or_create_user(&name)))
            }
            Login::SaveMapping(context, user, accepted, at) => {
                let account = account_to_record(context, user, &accepted[*at]);
                self.add_mapping(
                    &account.user_id,
                    account.server.id,
                    &account.username,
                    account.password.as_str(),
                );
                LoginEvent::MappingSaved(Ok(()))
            }
            Login::StoreSession(context, user, accepted, at) => {
                let session = session_to_store(context, user, &accepted[*at]);
                self.sessions.push((
                    session.user_id,
                    session.server.id.as_i64(),
                    session.authorization,
                ));
                LoginEvent::SessionStored(Ok(()))
            }
            Login::ReadServerId(_, _, _) => LoginEvent::ServerId("proxy-server".to_string()),
            Login::Done(_) => unreachable!(),
        }
    }

    fn log_in(
        &mut self,
        headers: &HeaderMap,
        username: &str,
        password: &str,
    ) -> Result<AuthenticateResponse, StatusCode> {
        let mut login = handle_authenticate_by_name(headers, request(username, password), true);
        loop {
            if let Login::Done(result) = login {
                return result;
            }
            let event = self.login_event(&login);
            login = login.advance(event);
        }
    }
}

#[test]
fn existing_user_picks_up_mapping_to_newly_reachable_unmapped_server() {
    let mut world = World::new(&["Server A", "Server B"]);
    world.add_account(1, "Exellent", "correct-password");
    world.add_account(2, "Exellent", "correct-password");

    // The user already exists locally with exactly one mapping, to server A.
    let user = world.get_or_create_user("Exellent");
    world.add_mapping(&user.id, ServerId::new(1), "Exellent", "correct-password");
    let original_mapping_id = world.mappings[0].id;

    let response = world
        .log_in(&login_headers(), "Exellent", "correct-password")
        .expect("login should succeed");
    assert_eq!(response.user.id, user.id);

    let mappings = world.mappings_of(&user.id);
    assert_eq!(mappings.len(), 2, "expected mappings to both servers");
    let mapping_a = mappings
        .iter()
        .find(|m| m.server_id == ServerId::new(1))
        .expect("server A mapping should still exist");
    assert_eq!(
        mapping_a.id, original_mapping_id,
        "server A's existing mapping should be reused, not recreated"
    );
    assert!(
        mappings.iter().any(|m| m.server_id != ServerId::new(1)),
        "server B should have picked up a new mapping"
    );
}

#[test]
fn new_user_still_probes_all_servers() {
    let mut world = World::new(&["Server A", "Server B"]);
    world.add_account(1, "Fresh", "some-password");
    world.add_account(2, "Fresh", "some-password");

    let response = world
        .log_in(&login_headers(), "Fresh", "some-password")
        .expect("login should succeed");
    assert_eq!(
        world.mappings_of(&response.user.id).len(),
        2,
        "brand new user should map to both servers"
    );
}

/// Server A is mapped for the user with working credentials; server B has admin
/// credentials but no account for the user.
fn verified_user_plus_auto_create_candidate(username: &str, password: &str) -> World {
    let mut world = World::new(&["Server A", "Server B"]);
    world.add_account(1, username, password);
    world.administered.push(2);
    let user = world.get_or_create_user(username);
    world.add_mapping(&user.id, ServerId::new(1), username, password);
    world
}

#[test]
fn auto_create_fires_only_for_a_user_already_verified_on_another_server_this_login() {
    let mut world = verified_user_plus_auto_create_candidate("verifieduser", "correct-pw");
    let response = world
        .log_in(&login_headers(), "verifieduser", "correct-pw")
        .expect("login should succeed after auto-create");
    assert_eq!(
        world.mappings_of(&response.user.id).len(),
        2,
        "should now be mapped to both the already-verified server and the auto-created one"
    );
    assert!(world.has_account(2, "verifieduser", "correct-pw"));
}

#[test]
fn first_ever_login_with_real_accounts_on_some_servers_auto_creates_the_rest() {
    let mut world = World::new(&["Server A", "Server B", "Server C"]);
    world.add_account(1, "multiuser", "correct-pw");
    world.add_account(2, "multiuser", "correct-pw");
    world.administered.push(3);

    let response = world
        .log_in(&login_headers(), "multiuser", "correct-pw")
        .expect("login should succeed via A and B, and auto-create on C");
    assert_eq!(
        world.mappings_of(&response.user.id).len(),
        3,
        "should be mapped to A and B (real accounts) plus C (auto-created)"
    );
}

#[test]
fn brand_new_username_is_never_auto_created_anywhere() {
    let mut world = World::new(&["Server A"]);
    assert!(world.auto_create);
    world.administered.push(1);

    let result = world.log_in(&login_headers(), "totally-new-nobody", "whatever-i-just-typed");
    assert_eq!(result.unwrap_err(), StatusCode::Unauthorized);
    assert!(
        world.users.is_empty(),
        "a failed login for an unknown user must not create a local user record either"
    );
    assert!(world.accounts.is_empty());
}

#[test]
fn blocked_user_is_not_auto_created_even_when_verified_elsewhere() {
    let mut world = verified_user_plus_auto_create_candidate("kicked", "correct-pw");
    world.blocks.push((2, "kicked".to_string()));

    let response = world
        .log_in(&login_headers(), "kicked", "correct-pw")
        .expect("login should still succeed via the already-mapped, non-blocked server A");
    let mappings = world.mappings_of(&response.user.id);
    assert_eq!(
        mappings.len(),
        1,
        "blocked user must not get a mapping created on the blocked server"
    );
    assert_ne!(
        mappings[0].server_id,
        ServerId::new(2),
        "the surviving mapping must be server A, not the blocked server B"
    );
}

#[test]
fn repeated_failed_logins_from_same_ip_get_rate_limited() {
    let mut world = World::new(&["Server A"]);
    let headers = headers_from("9.9.9.9");

    for _ in 0..5 {
        let result = world.log_in(&headers, "attacker", "wrong");
        assert_eq!(result.unwrap_err(), StatusCode::Unauthorized);
    }

    let result = world.log_in(&headers, "attacker", "wrong-again");
    assert_eq!(
        result.unwrap_err(),
        StatusCode::TooManyRequests,
        "6th attempt should be rate-limited"
    );
    assert_eq!(world.requests, 5, "the blocked attempt must not reach a server");
}

#[test]
fn different_client_ips_are_not_rate_limited_together() {
    let mut world = World::new(&["Server A"]);
    let headers_a = headers_from("1.1.1.1");
    let headers_b = headers_from("2.2.2.2");

    for _ in 0..5 {
        world.log_in(&headers_a, "attacker", "wrong").unwrap_err();
    }

    let result_b = world.log_in(&headers_b, "attacker", "wrong");
    assert_eq!(result_b.unwrap_err(), StatusCode::Unauthorized);

    let result_a = world.log_in(&headers_a, "attacker", "wrong");
    assert_eq!(result_a.unwrap_err(), StatusCode::TooManyRequests);
}

#[test]
fn successful_login_resets_the_rate_limit_counter() {
    let mut world = World::new(&["Server A"]);
    world.add_account(1, "resetuser", "correct");
    let headers = headers_from("8.8.8.8");

    for _ in 0..4 {
        let result = world.log_in(&headers, "resetuser", "wrong");
        assert_eq!(result.unwrap_err(), StatusCode::Unauthorized);
    }

    world
        .log_in(&headers, "resetuser", "correct")
        .expect("login should succeed");

    for _ in 0..4 {
        let result = world.log_in(&headers, "resetuser", "wrong");
        assert_eq!(
            result.unwrap_err(),
            StatusCode::Unauthorized,
            "should still be a plain auth failure, not rate-limited, since the counter reset after the success"
        );
    }
}

#[test]
fn answer_carries_the_proxys_identity_only() {
    let mut world = World::new(&["Server A"]);
    world.add_account(1, "viewer", "pw");
    let response = world.log_in(&login_headers(), "viewer", "pw").unwrap();
    assert_eq!(response.access_token, "key-viewer");
    assert_eq!(response.server_id, "proxy-server");
    assert_eq!(response.user.server_id, "proxy-server");
    assert_eq!(response.session_info.server_id, "proxy-server");
    assert_eq!(response.user.id, "local-viewer");
    assert_eq!(response.session_info.user_id, "local-viewer");
    assert_eq!(response.user.name, "viewer");
    assert_eq!(response.session_info.user_name, "viewer");
    assert!(!response.user.policy.is_administrator);
    assert_eq!(
        response.user.policy.sync_play_access,
        SyncPlayUserAccessType::CreateAndJoinGroups
    );
    assert_eq!(world.sessions.len(), 1);
    assert_eq!(world.sessions[0].2.token, Some("upstream-token".to_string()));
    assert_eq!(world.sessions[0].2.device_id, "test-device");
}

#[test]
fn user_that_exists_nowhere_is_rejected_without_auto_create() {
    let mut world = World::new(&["Server A"]);
    world.add_account(1, "viewer", "pw");
    world.auto_create = false;
    let result = world.log_in(&login_headers(), "viewer", "pw");
    assert_eq!(result.unwrap_err(), StatusCode::Unauthorized);
    assert_eq!(world.requests, 0);
}

#[test]
fn login_needs_servers_and_a_header() {
    let mut empty = World::new(&[]);
    let result = empty.log_in(&login_headers(), "viewer", "pw");
    assert_eq!(result.unwrap_err(), StatusCode::NotFound);
    let mut world = World::new(&["Server A"]);
    let result = world.log_in(&HeaderMap::new(), "viewer", "pw");
    assert_eq!(result.unwrap_err(), StatusCode::BadRequest);
}

fn start(enabled: bool) -> Login {
    handle_authenticate_by_name(&login_headers(), request("viewer", "pw"), enabled)
}

fn is_error(login: Login, status: StatusCode) -> bool {
    matches!(login, Login::Done(Err(found)) if found == status)
}

fn broken() -> StorageError {
    StorageError::other("down")
}

fn at_find_user() -> Login {
    start(false)
        .advance(LoginEvent::Servers(Ok(vec![server(1, "A"), server(2, "B")])))
        .advance(LoginEvent::HeaderParsed(Some(authorization())))
}

fn local_user() -> LocalUser {
    LocalUser {
        id: "local".to_string(),
        virtual_key: "key".to_string(),
        original_username: "viewer".to_string(),
        original_password_hash: HashedPassword::from_hashed(String::new()),
    }
}

fn success(server: Server) -> Attempt {
    Attempt::Succeeded(SuccessfulServerAuth {
        server,
        auth_response: upstream_response("viewer"),
        final_username: "viewer".to_string(),
        final_password: Password::new("pw".to_string()),
    })
}

#[test]
fn failed_lookups_end_the_login() {
    let checked = start(true).advance(LoginEvent::SecondsLeft(Err(broken())));
    assert!(is_error(checked, StatusCode::InternalServerError));
    let listed = start(false).advance(LoginEvent::Servers(Err(broken())));
    assert!(is_error(listed, StatusCode::InternalServerError));
    let unreadable = start(false)
        .advance(LoginEvent::Servers(Ok(vec![server(1, "A")])))
        .advance(LoginEvent::HeaderParsed(None));
    assert!(is_error(unreadable, StatusCode::BadRequest));
    let found = at_find_user().advance(LoginEvent::ExistingUser(Err(broken())));
    assert!(is_error(found, StatusCode::InternalServerError));
    let mapped = at_find_user()
        .advance(LoginEvent::ExistingUser(Ok(Some(local_user()))))
        .advance(LoginEvent::Mappings(Err(broken())));
    assert!(is_error(mapped, StatusCode::InternalServerError));
    let resolve = || {
        at_find_user()
            .advance(LoginEvent::ExistingUser(Ok(None)))
            .advance(LoginEvent::AutoCreate(true))
            .advance(LoginEvent::Tried(vec![success(server(1, "A")), success(server(2, "B"))]))
    };
    let resolved = resolve().advance(LoginEvent::User(Err(broken())));
    assert!(is_error(resolved, StatusCode::InternalServerError));
    let saved = resolve()
        .advance(LoginEvent::User(Ok(local_user())))
        .advance(LoginEvent::MappingSaved(Err(broken())));
    assert!(is_error(saved, StatusCode::InternalServerError));
    let stored = resolve()
        .advance(LoginEvent::User(Ok(local_user())))
        .advance(LoginEvent::MappingSaved(Ok(())))
        .advance(LoginEvent::SessionStored(Err(broken())));
    assert!(is_error(stored, StatusCode::InternalServerError));
}

#[test]
fn events_that_do_not_answer_change_nothing() {
    let login = at_find_user().advance(LoginEvent::Counted(true));
    assert!(matches!(login, Login::FindUser(_, _)));
    let probing = login
        .advance(LoginEvent::ExistingUser(Ok(None)))
        .advance(LoginEvent::AutoCreate(true));
    let short = probing.advance(LoginEvent::Tried(vec![success(server(1, "A"))]));
    assert!(matches!(short, Login::TryUnmapped(_, _, servers) if servers.len() == 2));
}

#[test]
fn attempts_without_a_result_are_not_retried() {
    let login = at_find_user()
        .advance(LoginEvent::ExistingUser(Ok(None)))
        .advance(LoginEvent::AutoCreate(true))
        .advance(LoginEvent::Tried(vec![success(server(1, "A")), Attempt::Lost]));
    assert!(matches!(login, Login::ResolveUser(_, accepted) if accepted.len() == 1));
}

#[test]
fn refused_servers_are_retried_after_a_success() {
    let login = at_find_user()
        .advance(LoginEvent::ExistingUser(Ok(None)))
        .advance(LoginEvent::AutoCreate(true))
        .advance(LoginEvent::Tried(vec![
            Attempt::Failed(AuthError::InvalidCredentials),
            success(server(2, "B")),
        ]));
    match login {
        Login::TryAutoCreate(_, accepted, servers) => {
            assert_eq!(accepted.len(), 1);
            assert_eq!(servers.len(), 1);
            assert_eq!(servers[0].name, "A");
        }
        _ => panic!("server A turned the user down"),
    }
}

fn mapping(server_id: i64) -> ServerMapping {
    ServerMapping {
        id: server_id * 10,
        user_id: "local".to_string(),
        server_id: ServerId::new(server_id),
        mapped_username: "mapped".to_string(),
        mapped_password: "secret".to_string(),
    }
}

#[test]
fn each_server_is_tried_with_its_mapping_or_without() {
    let login = at_find_user()
        .advance(LoginEvent::ExistingUser(Ok(Some(local_user()))))
        .advance(LoginEvent::Mappings(Ok(vec![mapping(7), mapping(2), mapping(2)])));
    match login {
        Login::TryMapped(_, mapped, others) => {
            assert_eq!(mapped.len(), 1);
            assert_eq!(mapped[0].server.name, "B");
            assert_eq!(mapped[0].mapping.id, 20);
            assert_eq!(others.len(), 1);
            assert_eq!(others[0].name, "A");
        }
        _ => panic!("the user has mappings"),
    }
}

fn attempt() -> LoginAttempt {
    LoginAttempt {
        authorization: authorization(),
        payload: request("viewer", "pw"),
        server: server(1, "A"),
    }
}

#[test]
fn server_login_errors() {
    let sent = || authenticate_on_server(attempt(), None);
    let unreachable_server = sent().advance(ServerLoginEvent::Answered(Err("refused".to_string())));
    assert!(matches!(unreachable_server, ServerLogin::Done(Err(AuthError::NetworkError(e))) if e == "refused"));
    for status in [100, 199, 300, 401, 500] {
        let denied = sent().advance(ServerLoginEvent::Answered(Ok(status)));
        assert!(matches!(denied, ServerLogin::Done(Err(AuthError::InvalidCredentials))));
    }
    for status in [200, 204, 299] {
        let accepted = sent().advance(ServerLoginEvent::Answered(Ok(status)));
        assert!(matches!(accepted, ServerLogin::ReadBody(_, _, _)));
    }
    let cut = sent()
        .advance(ServerLoginEvent::Answered(Ok(200)))
        .advance(ServerLoginEvent::Body(Err("cut".to_string())));
    assert!(matches!(cut, ServerLogin::Done(Err(AuthError::NetworkError(e))) if e == "cut"));
    let garbled = sent()
        .advance(ServerLoginEvent::Answered(Ok(200)))
        .advance(ServerLoginEvent::Body(Ok("{".to_string())))
        .advance(ServerLoginEvent::Parsed(Err("eof".to_string())));
    assert!(matches!(garbled, ServerLogin::Done(Err(AuthError::ParseError(e))) if e == "eof"));
}

#[test]
fn mapped_login_uses_the_mapped_account() {
    let login = authenticate_on_server(attempt(), Some(mapping(1)))
        .advance(ServerLoginEvent::Decrypted(Password::new("clear".to_string())));
    match login {
        ServerLogin::Send(_, username, password) => {
            assert_eq!(username, "mapped");
            assert_eq!(password.as_str(), "clear");
        }
        _ => panic!("the password was decrypted"),
    }
}

#[test]
fn auto_create_is_refused() {
    let begun = || attempt_auto_create_then_authenticate(attempt());
    let off = begun().advance(AutoCreateEvent::Enabled(false));
    assert!(matches!(off, AutoCreate::Refused(AuthError::InvalidCredentials)));
    let checking = || begun().advance(AutoCreateEvent::Enabled(true));
    let blocked = checking().advance(AutoCreateEvent::Blocked(Ok(true)));
    assert!(matches!(blocked, AutoCreate::Refused(_)));
    let unknown = checking().advance(AutoCreateEvent::Blocked(Err(broken())));
    assert!(matches!(unknown, AutoCreate::Refused(_)));
    let nobody = checking()
        .advance(AutoCreateEvent::Blocked(Ok(false)))
        .advance(AutoCreateEvent::User(Err(broken())));
    assert!(matches!(nobody, AutoCreate::Refused(_)));
    let unadministered = checking()
        .advance(AutoCreateEvent::Blocked(Ok(false)))
        .advance(AutoCreateEvent::User(Ok(local_user())))
        .advance(AutoCreateEvent::Sync(SyncEvent::Session(
            AdminSessionEvent::Admin(Ok(None)),
        )));
    assert!(matches!(unadministered, AutoCreate::Refused(_)));
}

#[test]
fn standard_header_comes_before_the_older_one() {
    let mut headers = HeaderMap::new();
    assert!(select_auth_header(&headers).is_none());
    headers.insert("x-emby-authorization", HeaderValue::from_static("old"));
    assert!(matches!(select_auth_header(&headers), Some(AuthHeader::Legacy(raw)) if raw == "old"));
    headers.insert("authorization", HeaderValue::from_static("new"));
    assert!(matches!(select_auth_header(&headers), Some(AuthHeader::Standard(raw)) if raw == "new"));
}

#[test]
fn unreadable_headers_are_named() {
    let complaint = |header: Option<AuthHeader>, parsed: Option<Authorization>| {
        match extract_auth_header(header, parsed) {
            Err(AuthError::ParseError(text)) => text,
            _ => panic!("there is something wrong with the header"),
        }
    };
    assert_eq!(
        complaint(Some(AuthHeader::Standard("x".to_string())), None),
        "Invalid 'Authorization' header format"
    );
    assert_eq!(
        complaint(Some(AuthHeader::Legacy("x".to_string())), None),
        "Invalid 'X-Emby-Authorization' header format"
    );
    assert_eq!(
        complaint(None, Some(authorization())),
        "No 'Authorization' header found in login request!"
    );
    let read = extract_auth_header(
        Some(AuthHeader::Legacy("x".to_string())),
        Some(authorization()),
    );
    assert_eq!(read.unwrap().device, "Firefox");
}

#[test]
fn users_are_presented_under_their_local_identity() {
    let upstream = upstream_response("upstream").user;
    let me = handle_get_me::<u16>(Ok(upstream), &local_user(), &"proxy".to_string()).unwrap();
    assert_eq!(me.id, "local");
    assert_eq!(me.name, "viewer");
    assert_eq!(me.server_id, "proxy");
    assert!(!me.policy.is_administrator);
    assert_eq!(me.policy.sync_play_access, SyncPlayUserAccessType::NoAccess);
    let failed = handle_get_user_by_id::<u16>(Err(502), &local_user(), &"proxy".to_string());
    assert_eq!(failed.unwrap_err(), 502);
    assert_eq!(user_path("abc"), "/Users/abc");
    assert_eq!(login_path(), "/Users/AuthenticateByName");
    assert!(handle_public().is_empty());
}

#[test]
fn answered_login_stays_answered() {
    let turned_away = start(true)
        .advance(LoginEvent::SecondsLeft(Ok(Some(30))))
        .advance(LoginEvent::Servers(Ok(vec![server(1, "A")])))
        .advance(LoginEvent::Counted(true));
    assert!(is_error(turned_away, StatusCode::TooManyRequests));
}

#[test]
fn every_accepting_server_is_recorded_in_turn() {
    let mut login = at_find_user()
        .advance(LoginEvent::ExistingUser(Ok(None)))
        .advance(LoginEvent::AutoCreate(true))
        .advance(LoginEvent::Tried(vec![success(server(1, "A")), success(server(2, "B"))]))
        .advance(LoginEvent::User(Ok(local_user())));
    for at in 0..2 {
        assert!(matches!(&login, Login::SaveMapping(_, _, _, n) if *n == at));
        login = login.advance(LoginEvent::MappingSaved(Ok(())));
        assert!(matches!(&login, Login::StoreSession(_, _, _, n) if *n == at));
        login = login.advance(LoginEvent::SessionStored(Ok(())));
    }
    let answered = login.advance(LoginEvent::ServerId("proxy".to_string()));
    assert!(matches!(answered, Login::Done(Ok(response)) if response.access_token == "key"));
}

#[test]
fn records_are_given_what_the_server_accepted() {
    let context = LoginContext {
        payload: request("viewer", "typed"),
        client_ip: "1.1.1.1".to_string(),
        authorization: authorization(),
        rate_limit_enabled: true,
    };
    let accepted = SuccessfulServerAuth {
        server: server(4, "D"),
        auth_response: upstream_response("mapped"),
        final_username: "mapped".to_string(),
        final_password: Password::new("secret".to_string()),
    };
    let account = account_to_record(&context, &local_user(), &accepted);
    assert_eq!(account.user_id, "local");
    assert_eq!(account.server.name, "D");
    assert_eq!(account.username, "mapped");
    assert_eq!(account.password.as_str(), "secret");
    assert_eq!(account.key.as_str(), "typed");
    let session = session_to_store(&context, &local_user(), &accepted);
    assert_eq!(session.user_id, "local");
    assert_eq!(session.server.name, "D");
    assert_eq!(session.token, "upstream-token");
    assert_eq!(session.original_user_id, "upstream-user-id");
    assert_eq!(session.authorization.client, "Jellyfin Web");
    assert_eq!(
        authorization_to_store(&context.authorization, &accepted).token,
        session.authorization.token
    );
}
