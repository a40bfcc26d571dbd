//! Users as the proxy presents them, and logging in on a single server.

use hyper::header::HeaderValue;
use hyper::HeaderMap;
use vstd::prelude::*;

use crate::encryption::Password;
use crate::federated_users::{self, FederatedUserService, SyncEvent, SyncRequest, SyncStatus, SyncUser};
use crate::headers;
use crate::models::{
    AuthenticateRequest, AuthenticateResponse, Authorization, SessionInfo, SyncPlayUserAccessType,
    User, UserPolicy,
};
use crate::server::{BlockKey, LocalUser, Server, ServerMapping};
use crate::storage::StorageError;
use crate::text;

verus! {

/// A server's user under the identity that they have with the proxy: never an
/// administrator, and everything else as the server has it.
pub open spec fn presented(server_user: User, user: LocalUser, server_id: String) -> User {
    User {
        id: user.id,
        name: user.original_username,
        server_id,
        policy: UserPolicy { is_administrator: false, ..server_user.policy },
        ..server_user
    }
}

/// `shown` is `server_user` under the identity of `user` with the proxy: the name and
/// id are those that the user has with the proxy, the server is the proxy, the user
/// is no administrator, and all else is what the server says of the user and of
/// their policy.
pub open spec fn is_presentation(
    shown: User,
    server_user: User,
    user: LocalUser,
    server_id: String,
) -> bool {
    &&& shown.id == user.id
    &&& shown.name == user.original_username
    &&& shown.server_id == server_id
    &&& shown.extra == server_user.extra
    &&& !shown.policy.is_administrator
    &&& shown.policy.sync_play_access == server_user.policy.sync_play_access
    &&& shown.policy.extra == server_user.policy.extra
}

/// A user is presented under the proxy's identity for them, with nothing else of
/// what the server says changed but that they are no administrator.
pub proof fn presentation_keeps_the_rest(server_user: User, user: LocalUser, server_id: String)
    ensures
        ({
            let shown = presented(server_user, user, server_id);
            &&& shown.id == user.id
            &&& shown.name == user.original_username
            &&& shown.server_id == server_id
            &&& shown.extra == server_user.extra
            &&& !shown.policy.is_administrator
            &&& shown.policy.sync_play_access == server_user.policy.sync_play_access
            &&& shown.policy.extra == server_user.policy.extra
        }),
{
}

/// Presents a server's user under the identity that they have with the proxy.
pub fn process_user(server_user: User, user: &LocalUser, server_id: &String) -> (r: User)
    ensures
        r == presented(server_user, *user, *server_id),
        is_presentation(r, server_user, *user, *server_id),
{
    let policy = UserPolicy { is_administrator: false, ..server_user.policy };
    User {
        name: user.original_username.clone(),
        server_id: server_id.clone(),
        id: user.id.clone(),
        policy,
        extra: server_user.extra,
    }
}

/// The users shown before login: none.
pub fn handle_public() -> (r: Vec<User>)
    ensures
        r@.len() == 0,
{
    Vec::new()
}

/// The answer to a request for the own user, from the server's answer to it.
pub fn handle_get_me<E>(
    fetched: Result<User, E>,
    user: &LocalUser,
    server_id: &String,
) -> (r: Result<User, E>)
    ensures
        r == (match fetched {
            Ok(server_user) => Ok(presented(server_user, *user, *server_id)),
            Err(error) => Err(error),
        }),
        r is Ok <==> fetched is Ok,
        r matches Ok(shown) ==> {
            &&& shown.id == user.id
            &&& shown.name == user.original_username
            &&& shown.server_id == server_id
            &&& shown.extra == fetched->Ok_0.extra
            &&& !shown.policy.is_administrator
            &&& shown.policy.sync_play_access == fetched->Ok_0.policy.sync_play_access
            &&& shown.policy.extra == fetched->Ok_0.policy.extra
        },
        r matches Err(error) ==> error == fetched->Err_0,
{
    match fetched {
        Ok(server_user) => Ok(process_user(server_user, user, server_id)),
        Err(error) => Err(error),
    }
}

/// Where a server keeps the user whose id there is `original_user_id`.
pub fn user_path(original_user_id: &str) -> (r: String)
    ensures
        r@ == "/Users/"@ + original_user_id@,
{
    text::join("/Users/", original_user_id)
}

/// The answer to a request for a user by id, from the server's answer for the
/// id that the session has there. The id that the client asked for plays no part.
pub fn handle_get_user_by_id<E>(
    fetched: Result<User, E>,
    user: &LocalUser,
    server_id: &String,
) -> (r: Result<User, E>)
    ensures
        r == (match fetched {
            Ok(server_user) => Ok(presented(server_user, *user, *server_id)),
            Err(error) => Err(error),
        }),
        r is Ok <==> fetched is Ok,
        r matches Ok(shown) ==> {
            &&& shown.id == user.id
            &&& shown.name == user.original_username
            &&& shown.server_id == server_id
            &&& shown.extra == fetched->Ok_0.extra
            &&& !shown.policy.is_administrator
            &&& shown.policy.sync_play_access == fetched->Ok_0.policy.sync_play_access
            &&& shown.policy.extra == fetched->Ok_0.policy.extra
        },
        r matches Err(error) ==> error == fetched->Err_0,
{
    handle_get_me(fetched, user, server_id)
}

/// Why a login on a server failed.
#[derive(Debug)]
pub enum AuthError {
    NetworkError(String),
    InvalidCredentials,
    ParseError(String),
    InternalError,
}

/// The header that a login request carries its authorization in.
#[derive(Debug)]
pub enum AuthHeader {
    Standard(String),
    /// The older header, which is read more leniently.
    Legacy(String),
}

/// Whether `header` is the authorization header of a login request: the standard
/// one if it is there and is text, otherwise the older one.
pub open spec fn is_auth_header_of(
    header: Option<AuthHeader>,
    headers: HeaderMap<HeaderValue>,
) -> bool {
    let standard = headers::header_text(headers, "authorization"@);
    let legacy = headers::header_text(headers, "x-emby-authorization"@);
    match header {
        Some(AuthHeader::Standard(raw)) => standard == Some(raw@),
        Some(AuthHeader::Legacy(raw)) => standard is None && legacy == Some(raw@),
        None => standard is None && legacy is None,
    }
}

/// The authorization header of a login request.
pub fn select_auth_header(headers: &HeaderMap<HeaderValue>) -> (r: Option<AuthHeader>)
    ensures
        is_auth_header_of(r, *headers),
        ({
            let standard = headers::header_text(*headers, "authorization"@);
            let legacy = headers::header_text(*headers, "x-emby-authorization"@);
            &&& standard is Some ==> (r matches Some(AuthHeader::Standard(raw)) && raw@
                == standard->0)
            &&& standard is None && legacy is Some ==> (r matches Some(AuthHeader::Legacy(raw))
                && raw@ == legacy->0)
            &&& standard is None && legacy is None ==> r is None
        }),
{
    match headers::get_text(headers, "authorization") {
        Some(raw) => Some(AuthHeader::Standard(raw)),
        None => match headers::get_text(headers, "x-emby-authorization") {
            Some(raw) => Some(AuthHeader::Legacy(raw)),
            None => None,
        },
    }
}

/// What is wrong with an authorization header that could not be read.
pub open spec fn header_complaint(header: Option<AuthHeader>) -> Seq<char> {
    match header {
        Some(AuthHeader::Standard(_)) => "Invalid 'Authorization' header format"@,
        Some(AuthHeader::Legacy(_)) => "Invalid 'X-Emby-Authorization' header format"@,
        None => "No 'Authorization' header found in login request!"@,
    }
}

/// The authorization of a login request, from the header that was selected and
/// what reading it gave. The standard header is not passed over for the older
/// one when it cannot be read.
pub fn extract_auth_header(header: Option<AuthHeader>, parsed: Option<Authorization>) -> (r: Result<
    Authorization,
    AuthError,
>)
    ensures
        match r {
            Ok(authorization) => header is Some && parsed == Some(authorization),
            Err(error) => (header is None || parsed is None) && (error matches AuthError::ParseError(
                complaint,
            ) && complaint@ == header_complaint(header)),
        },
        r is Ok <==> header is Some && parsed is Some,
        r matches Ok(authorization) ==> parsed == Some(authorization),
{
    match header {
        Some(AuthHeader::Standard(_)) => match parsed {
            Some(authorization) => Ok(authorization),
            None => Err(AuthError::ParseError("Invalid 'Authorization' header format".to_owned())),
        },
        Some(AuthHeader::Legacy(_)) => match parsed {
            Some(authorization) => Ok(authorization),
            None => Err(
                AuthError::ParseError("Invalid 'X-Emby-Authorization' header format".to_owned()),
            ),
        },
        None => Err(
            AuthError::ParseError("No 'Authorization' header found in login request!".to_owned()),
        ),
    }
}

/// A login that a server accepted, and the credentials that it accepted.
pub struct SuccessfulServerAuth {
    pub server: Server,
    pub auth_response: AuthenticateResponse,
    pub final_username: String,
    pub final_password: Password,
}

/// A server's answer to a login, as the client gets to see it: the client is
/// the local user, talks to the proxy with the proxy's own token, is never an
/// administrator, and may create and join groups.
pub open spec fn decorated(
    auth_response: AuthenticateResponse,
    user: LocalUser,
    login_username: String,
    server_id: String,
) -> AuthenticateResponse {
    AuthenticateResponse {
        user: User {
            name: login_username,
            server_id,
            id: user.id,
            policy: UserPolicy {
                is_administrator: false,
                sync_play_access: SyncPlayUserAccessType::CreateAndJoinGroups,
                ..auth_response.user.policy
            },
            ..auth_response.user
        },
        session_info: SessionInfo {
            user_id: user.id,
            user_name: login_username,
            server_id,
            ..auth_response.session_info
        },
        access_token: user.virtual_key,
        server_id,
    }
}

/// Turns a server's answer to a login into the proxy's own.
pub fn decorate_auth_response(
    auth_response: AuthenticateResponse,
    user: &LocalUser,
    login_username: &String,
    server_id: &String,
) -> (r: AuthenticateResponse)
    ensures
        r == decorated(auth_response, *user, *login_username, *server_id),
        r.user.extra == auth_response.user.extra,
        r.user.policy.extra == auth_response.user.policy.extra,
        r.session_info.extra == auth_response.session_info.extra,
{
    AuthenticateResponse {
        user: User {
            name: login_username.clone(),
            server_id: server_id.clone(),
            id: user.id.clone(),
            policy: UserPolicy {
                is_administrator: false,
                sync_play_access: SyncPlayUserAccessType::CreateAndJoinGroups,
                extra: auth_response.user.policy.extra,
            },
            extra: auth_response.user.extra,
        },
        session_info: SessionInfo {
            user_id: user.id.clone(),
            user_name: login_username.clone(),
            server_id: server_id.clone(),
            extra: auth_response.session_info.extra,
        },
        access_token: user.virtual_key.clone(),
        server_id: server_id.clone(),
    }
}

/// In place of a server's token, ids and username, the client gets the proxy's
/// own; it never gets an administrator's rights, and may create and join groups.
/// What else the server says of the user, the policy and the session stays.
pub proof fn answer_hides_the_server(
    auth_response: AuthenticateResponse,
    user: LocalUser,
    login_username: String,
    server_id: String,
)
    ensures
        ({
            let answer = decorated(auth_response, user, login_username, server_id);
            &&& answer.access_token == user.virtual_key
            &&& answer.server_id == server_id && answer.user.server_id == server_id
                && answer.session_info.server_id == server_id
            &&& answer.user.id == user.id && answer.session_info.user_id == user.id
            &&& answer.user.name == login_username && answer.session_info.user_name
                == login_username
            &&& !answer.user.policy.is_administrator
            &&& answer.user.policy.sync_play_access == SyncPlayUserAccessType::CreateAndJoinGroups
            &&& answer.user.extra == auth_response.user.extra
            &&& answer.user.policy.extra == auth_response.user.policy.extra
            &&& answer.session_info.extra == auth_response.session_info.extra
        }),
{
}

/// The authorization to keep for a session on a server: the client's own, with
/// the server's token.
pub fn authorization_to_store(login: &Authorization, accepted: &SuccessfulServerAuth) -> (r:
    Authorization)
    ensures
        r == (Authorization { token: Some(accepted.auth_response.access_token), ..*login }),
{
    let mut authorization = login.clone();
    authorization.token = Some(accepted.auth_response.access_token.clone());
    authorization
}

/// Where a server takes logins.
pub fn login_path() -> (r: &'static str)
    ensures
        r@ == "/Users/AuthenticateByName"@,
{
    "/Users/AuthenticateByName"
}

/// A login to be tried on one server.
pub struct LoginAttempt {
    pub authorization: Authorization,
    pub payload: AuthenticateRequest,
    pub server: Server,
}

/// Logging in on one server.
pub enum ServerLogin {
    /// Decrypt the password of the user's account on the server, with the
    /// password given or the proxy's own.
    DecryptPassword(LoginAttempt, ServerMapping),
    /// Send these credentials to the server.
    Send(LoginAttempt, String, Password),
    /// Read the body of the server's answer.
    ReadBody(LoginAttempt, String, Password),
    /// Read the body as an answer to a login.
    ParseBody(LoginAttempt, String, Password, String),
    Done(Result<SuccessfulServerAuth, AuthError>),
}

/// The outcome of a step of a login on one server.
pub enum ServerLoginEvent {
    Decrypted(Password),
    /// The status that the server answered with, or why it did not answer.
    Answered(Result<u16, String>),
    Body(Result<String, String>),
    Parsed(Result<AuthenticateResponse, String>),
}

/// Where a login on one server starts: with the user's account there if one is
/// recorded, otherwise with the credentials as given.
pub open spec fn server_login_start(
    attempt: LoginAttempt,
    mapping: Option<ServerMapping>,
) -> ServerLogin {
    match mapping {
        Some(mapping) => ServerLogin::DecryptPassword(attempt, mapping),
        None => ServerLogin::Send(attempt, attempt.payload.username, attempt.payload.password),
    }
}

pub open spec fn server_login_step(login: ServerLogin, event: ServerLoginEvent) -> ServerLogin {
    match (login, event) {
        (
            ServerLogin::DecryptPassword(attempt, mapping),
            ServerLoginEvent::Decrypted(password),
        ) => ServerLogin::Send(attempt, mapping.mapped_username, password),
        (ServerLogin::Send(attempt, username, password), ServerLoginEvent::Answered(answer)) => {
            match answer {
                Ok(status) => if 200 <= status <= 299 {
                    ServerLogin::ReadBody(attempt, username, password)
                } else {
                    ServerLogin::Done(Err(AuthError::InvalidCredentials))
                },
                Err(error) => ServerLogin::Done(Err(AuthError::NetworkError(error))),
            }
        },
        (ServerLogin::ReadBody(attempt, username, password), ServerLoginEvent::Body(read)) => {
            match read {
                Ok(body) => ServerLogin::ParseBody(attempt, username, password, body),
                Err(error) => ServerLogin::Done(Err(AuthError::NetworkError(error))),
            }
        },
        (
            ServerLogin::ParseBody(attempt, username, password, _),
            ServerLoginEvent::Parsed(parsed),
        ) => match parsed {
            Ok(auth_response) => ServerLogin::Done(
                Ok(
                    SuccessfulServerAuth {
                        server: attempt.server,
                        auth_response,
                        final_username: username,
                        final_password: password,
                    },
                ),
            ),
            Err(error) => ServerLogin::Done(Err(AuthError::ParseError(error))),
        },
        _ => login,
    }
}

/// Starts a login on one server.
pub fn authenticate_on_server(attempt: LoginAttempt, mapping: Option<ServerMapping>) -> (r:
    ServerLogin)
    ensures
        r == server_login_start(attempt, mapping),
        mapping matches Some(account) ==> r == ServerLogin::DecryptPassword(attempt, account),
        mapping is None ==> r == ServerLogin::Send(
            attempt,
            attempt.payload.username,
            attempt.payload.password,
        ),
{
    match mapping {
        Some(mapping) => ServerLogin::DecryptPassword(attempt, mapping),
        None => {
            let username = attempt.payload.username.clone();
            let password = attempt.payload.password.clone();
            ServerLogin::Send(attempt, username, password)
        },
    }
}

impl ServerLogin {
    /// Takes the outcome of the pending work into account.
    pub fn advance(self, event: ServerLoginEvent) -> (r: ServerLogin)
        ensures
            r == server_login_step(self, event),
    {
        match (self, event) {
            (
                ServerLogin::DecryptPassword(attempt, mapping),
                ServerLoginEvent::Decrypted(password),
            ) => ServerLogin::Send(attempt, mapping.mapped_username, password),
            (ServerLogin::Send(attempt, username, password), ServerLoginEvent::Answered(answer)) => {
                match answer {
                    Ok(status) => if 200 <= status && status <= 299 {
                        ServerLogin::ReadBody(attempt, username, password)
                    } else {
                        ServerLogin::Done(Err(AuthError::InvalidCredentials))
                    },
                    Err(error) => ServerLogin::Done(Err(AuthError::NetworkError(error))),
                }
            },
            (ServerLogin::ReadBody(attempt, username, password), ServerLoginEvent::Body(read)) => {
                match read {
                    Ok(body) => ServerLogin::ParseBody(attempt, username, password, body),
                    Err(error) => ServerLogin::Done(Err(AuthError::NetworkError(error))),
                }
            },
            (
                ServerLogin::ParseBody(attempt, username, password, _),
                ServerLoginEvent::Parsed(parsed),
            ) => match parsed {
                Ok(auth_response) => ServerLogin::Done(
                    Ok(
                        SuccessfulServerAuth {
                            server: attempt.server,
                            auth_response,
                            final_username: username,
                            final_password: password,
                        },
                    ),
                ),
                Err(error) => ServerLogin::Done(Err(AuthError::ParseError(error))),
            },
            (login, _) => login,
        }
    }
}

/// Creating the account of a user on a server in the course of their login, and
/// logging in with it.
pub enum AutoCreate {
    /// Look up whether accounts may be created at login.
    CheckEnabled(LoginAttempt),
    /// Look up whether an admin has blocked the user on the server, under the key
    /// that [`block_to_look_up`] gives.
    CheckBlocked(LoginAttempt),
    /// Find or create the local user.
    ResolveUser(LoginAttempt),
    /// Create the account, or check the one that is there.
    Sync(LoginAttempt, SyncUser),
    /// Log in with it.
    LogIn(ServerLogin),
    Refused(AuthError),
}

/// The block that keeps a login from creating the user on the server.
pub open spec fn block_looked_up(attempt: LoginAttempt) -> BlockKey {
    BlockKey { server_id: attempt.server.id, username: attempt.payload.username }
}

/// The block to look up before the user is created on the server.
pub fn block_to_look_up(attempt: &LoginAttempt) -> (r: BlockKey)
    ensures
        r == block_looked_up(*attempt),
        r.server_id == attempt.server.id,
        r.username == attempt.payload.username,
{
    BlockKey { server_id: attempt.server.id, username: attempt.payload.username.clone() }
}

/// The outcome of a step of an automatic creation.
pub enum AutoCreateEvent {
    Enabled(bool),
    Blocked(Result<bool, StorageError>),
    User(Result<LocalUser, StorageError>),
    Sync(SyncEvent),
    Login(ServerLoginEvent),
}

pub open spec fn sync_request(attempt: LoginAttempt, user: LocalUser) -> SyncRequest {
    SyncRequest {
        server: attempt.server,
        username: attempt.payload.username,
        password: attempt.payload.password,
        user_id: user.id,
    }
}

/// Where an automatic creation goes once its sync has moved on.
pub open spec fn auto_create_synced(attempt: LoginAttempt, sync: SyncUser) -> AutoCreate {
    match sync {
        SyncUser::Done(outcome) => if outcome.status == SyncStatus::Created || outcome.status
            == SyncStatus::AlreadyExists {
            AutoCreate::LogIn(server_login_start(attempt, None))
        } else {
            AutoCreate::Refused(AuthError::InvalidCredentials)
        },
        _ => AutoCreate::Sync(attempt, sync),
    }
}

pub open spec fn auto_create_step(creation: AutoCreate, event: AutoCreateEvent) -> AutoCreate {
    match (creation, event) {
        (AutoCreate::CheckEnabled(attempt), AutoCreateEvent::Enabled(enabled)) => if enabled {
            AutoCreate::CheckBlocked(attempt)
        } else {
            AutoCreate::Refused(AuthError::InvalidCredentials)
        },
        (AutoCreate::CheckBlocked(attempt), AutoCreateEvent::Blocked(blocked)) => match blocked {
            Ok(false) => AutoCreate::ResolveUser(attempt),
            _ => AutoCreate::Refused(AuthError::InvalidCredentials),
        },
        (AutoCreate::ResolveUser(attempt), AutoCreateEvent::User(resolved)) => match resolved {
            Ok(user) => AutoCreate::Sync(
                attempt,
                federated_users::sync_start(sync_request(attempt, user)),
            ),
            Err(_) => AutoCreate::Refused(AuthError::InvalidCredentials),
        },
        (AutoCreate::Sync(attempt, sync), AutoCreateEvent::Sync(answer)) => auto_create_synced(
            attempt,
            federated_users::sync_step(sync, answer),
        ),
        (AutoCreate::LogIn(login), AutoCreateEvent::Login(answer)) => AutoCreate::LogIn(
            server_login_step(login, answer),
        ),
        _ => creation,
    }
}

/// Starts creating the user's account on a server where their login failed.
pub fn attempt_auto_create_then_authenticate(attempt: LoginAttempt) -> (r: AutoCreate)
    ensures
        r == AutoCreate::CheckEnabled(attempt),
{
    AutoCreate::CheckEnabled(attempt)
}

impl AutoCreate {
    /// Takes the outcome of the pending work into account.
    pub fn advance(self, event: AutoCreateEvent) -> (r: AutoCreate)
        ensures
            r == auto_create_step(self, event),
    {
        match (self, event) {
            (AutoCreate::CheckEnabled(attempt), AutoCreateEvent::Enabled(enabled)) => if enabled {
                AutoCreate::CheckBlocked(attempt)
            } else {
                AutoCreate::Refused(AuthError::InvalidCredentials)
            },
            (AutoCreate::CheckBlocked(attempt), AutoCreateEvent::Blocked(blocked)) => {
                match blocked {
                    Ok(false) => AutoCreate::ResolveUser(attempt),
                    _ => AutoCreate::Refused(AuthError::InvalidCredentials),
                }
            },
            (AutoCreate::ResolveUser(attempt), AutoCreateEvent::User(resolved)) => {
                match resolved {
                    Ok(user) => {
                        let request = SyncRequest {
                            server: attempt.server.clone(),
                            username: attempt.payload.username.clone(),
                            password: attempt.payload.password.clone(),
                            user_id: user.id,
                        };
                        AutoCreate::Sync(
                            attempt,
                            FederatedUserService::sync_user_to_server(request),
                        )
                    },
                    Err(_) => AutoCreate::Refused(AuthError::InvalidCredentials),
                }
            },
            (AutoCreate::Sync(attempt, sync), AutoCreateEvent::Sync(answer)) => {
                match sync.advance(answer) {
                    SyncUser::Done(outcome) => match outcome.status {
                        SyncStatus::Created | SyncStatus::AlreadyExists => AutoCreate::LogIn(
                            authenticate_on_server(attempt, None),
                        ),
                        _ => AutoCreate::Refused(AuthError::InvalidCredentials),
                    },
                    running => AutoCreate::Sync(attempt, running),
                }
            },
            (AutoCreate::LogIn(login), AutoCreateEvent::Login(answer)) => AutoCreate::LogIn(
                login.advance(answer),
            ),
            (creation, _) => creation,
        }
    }
}

pub open spec fn server_login_run(login: ServerLogin, events: Seq<ServerLoginEvent>) -> ServerLogin
    decreases events.len(),
{
    if events.len() == 0 {
        login
    } else {
        server_login_step(server_login_run(login, events.drop_last()), events.last())
    }
}

/// Some event was the server answering a login with success.
pub open spec fn server_accepted(events: Seq<ServerLoginEvent>) -> bool {
    exists|i: int|
        0 <= i < events.len() && (#[trigger] events[i] matches ServerLoginEvent::Answered(
            Ok(status),
        ) && 200 <= status <= 299)
}

/// The server and the username of a login in progress or accepted.
pub open spec fn login_target(login: ServerLogin) -> Option<(Server, String)> {
    match login {
        ServerLogin::DecryptPassword(attempt, mapping) => Some(
            (attempt.server, mapping.mapped_username),
        ),
        ServerLogin::Send(attempt, username, _) => Some((attempt.server, username)),
        ServerLogin::ReadBody(attempt, username, _) => Some((attempt.server, username)),
        ServerLogin::ParseBody(attempt, username, _, _) => Some((attempt.server, username)),
        ServerLogin::Done(Ok(accepted)) => Some((accepted.server, accepted.final_username)),
        ServerLogin::Done(Err(_)) => None,
    }
}

/// A login counts as successful only after the server answered it with success,
/// and it is for the server that was tried, with the username of the account
/// recorded there or, without one, the username given.
pub proof fn login_success_is_genuine(
    attempt: LoginAttempt,
    mapping: Option<ServerMapping>,
    events: Seq<ServerLoginEvent>,
)
    ensures
        ({
            let login = server_login_run(server_login_start(attempt, mapping), events);
            &&& login is ReadBody || login is ParseBody ==> server_accepted(events)
            &&& login matches ServerLogin::Done(Ok(_)) ==> server_accepted(events)
            &&& login_target(login) matches Some(target) ==> target == (
                attempt.server,
                match mapping {
                    Some(mapping) => mapping.mapped_username,
                    None => attempt.payload.username,
                },
            )
        }),
    decreases events.len(),
{
    if events.len() > 0 {
        let before = events.drop_last();
        login_success_is_genuine(attempt, mapping, before);
        assert(events[events.len() - 1] == events.last());
        assert(server_accepted(before) ==> server_accepted(events)) by {
            if server_accepted(before) {
                let i = choose|i: int|
                    0 <= i < before.len() && (#[trigger] before[i] matches ServerLoginEvent::Answered(
                        Ok(status),
                    ) && 200 <= status <= 299);
                assert(events[i] == before[i]);
            }
        }
    }
}

pub open spec fn auto_create_run(creation: AutoCreate, events: Seq<AutoCreateEvent>) -> AutoCreate
    decreases events.len(),
{
    if events.len() == 0 {
        creation
    } else {
        auto_create_step(auto_create_run(creation, events.drop_last()), events.last())
    }
}

/// Some event said that accounts may be created at login.
pub open spec fn creation_enabled(events: Seq<AutoCreateEvent>) -> bool {
    exists|i: int| 0 <= i < events.len() && #[trigger] events[i] == AutoCreateEvent::Enabled(true)
}

/// Some event said that no admin has blocked the user on the server.
pub open spec fn found_unblocked(events: Seq<AutoCreateEvent>) -> bool {
    exists|i: int|
        0 <= i < events.len() && #[trigger] events[i] matches AutoCreateEvent::Blocked(Ok(false))
}

/// The server is left alone unless accounts may be created at login and the
/// user is known not to be blocked there: nothing is created, and no login is
/// tried again. A failed lookup counts as a block.
pub proof fn blocked_users_are_not_created(attempt: LoginAttempt, events: Seq<AutoCreateEvent>)
    ensures
        ({
            let creation = auto_create_run(AutoCreate::CheckEnabled(attempt), events);
            &&& creation is CheckBlocked ==> creation_enabled(events)
            &&& creation is ResolveUser || creation is Sync || creation is LogIn
                ==> creation_enabled(events) && found_unblocked(events)
        }),
    decreases events.len(),
{
    if events.len() > 0 {
        let before = events.drop_last();
        blocked_users_are_not_created(attempt, before);
        assert(events[events.len() - 1] == events.last());
        assert(creation_enabled(before) ==> creation_enabled(events)) by {
            if creation_enabled(before) {
                let i = choose|i: int|
                    0 <= i < before.len() && #[trigger] before[i] == AutoCreateEvent::Enabled(true);
                assert(events[i] == before[i]);
            }
        }
        assert(found_unblocked(before) ==> found_unblocked(events)) by {
            if found_unblocked(before) {
                let i = choose|i: int|
                    0 <= i < before.len() && #[trigger] before[i] matches AutoCreateEvent::Blocked(
                        Ok(false),
                    );
                assert(events[i] == before[i]);
            }
        }
    }
}

/// A login on a server sends the credentials of the recorded account, its password
/// decrypted, or without one those that were given. An answer of success is read and
/// then taken as the server's answer, together with the credentials sent.
pub proof fn server_login_takes_its_course(
    attempt: LoginAttempt,
    mapping: ServerMapping,
    username: String,
    password: Password,
    status: u16,
    body: String,
    response: AuthenticateResponse,
)
    requires
        200 <= status <= 299,
    ensures
        server_login_start(attempt, Some(mapping)) == ServerLogin::DecryptPassword(attempt, mapping),
        server_login_start(attempt, None) == ServerLogin::Send(
            attempt,
            attempt.payload.username,
            attempt.payload.password,
        ),
        server_login_step(
            ServerLogin::DecryptPassword(attempt, mapping),
            ServerLoginEvent::Decrypted(password),
        ) == ServerLogin::Send(attempt, mapping.mapped_username, password),
        ({
            let answered = server_login_step(
                ServerLogin::Send(attempt, username, password),
                ServerLoginEvent::Answered(Ok(status)),
            );
            let read = server_login_step(answered, ServerLoginEvent::Body(Ok(body)));
            let parsed = server_login_step(read, ServerLoginEvent::Parsed(Ok(response)));
            &&& answered == ServerLogin::ReadBody(attempt, username, password)
            &&& read == ServerLogin::ParseBody(attempt, username, password, body)
            &&& parsed matches ServerLogin::Done(Ok(accepted)) && accepted.server == attempt.server
                && accepted.auth_response == response && accepted.final_username == username
                && accepted.final_password == password
        }),
{
}

/// A server that answers a login with anything but success has turned the
/// credentials down; one that cannot be reached or read is a network error, and an
/// answer that is none is a parse error, each with its cause.
pub proof fn server_login_failures_tell_why(
    attempt: LoginAttempt,
    username: String,
    password: Password,
    status: u16,
    body: String,
    error: String,
)
    requires
        !(200 <= status <= 299),
    ensures
        server_login_step(
            ServerLogin::Send(attempt, username, password),
            ServerLoginEvent::Answered(Ok(status)),
        ) == ServerLogin::Done(Err(AuthError::InvalidCredentials)),
        server_login_step(
            ServerLogin::Send(attempt, username, password),
            ServerLoginEvent::Answered(Err(error)),
        ) == ServerLogin::Done(Err(AuthError::NetworkError(error))),
        server_login_step(
            ServerLogin::ReadBody(attempt, username, password),
            ServerLoginEvent::Body(Err(error)),
        ) == ServerLogin::Done(Err(AuthError::NetworkError(error))),
        server_login_step(
            ServerLogin::ParseBody(attempt, username, password, body),
            ServerLoginEvent::Parsed(Err(error)),
        ) == ServerLogin::Done(Err(AuthError::ParseError(error))),
{
}

/// The password of a login in progress or accepted.
pub open spec fn login_password(login: ServerLogin) -> Option<Password> {
    match login {
        ServerLogin::DecryptPassword(_, _) => None,
        ServerLogin::Send(_, _, password) => Some(password),
        ServerLogin::ReadBody(_, _, password) => Some(password),
        ServerLogin::ParseBody(_, _, password, _) => Some(password),
        ServerLogin::Done(Ok(accepted)) => Some(accepted.final_password),
        ServerLogin::Done(Err(_)) => None,
    }
}

/// Whatever happens in the course of a login on a server, its password is the one
/// given or, with a recorded account, one that was decrypted for it; and what it
/// takes for the server's answer is an answer that was read.
pub proof fn login_uses_the_right_password(
    attempt: LoginAttempt,
    mapping: Option<ServerMapping>,
    events: Seq<ServerLoginEvent>,
)
    ensures
        ({
            let login = server_login_run(server_login_start(attempt, mapping), events);
            &&& login matches ServerLogin::DecryptPassword(_, account) ==> mapping == Some(account)
            &&& login_password(login) matches Some(password) ==> {
                ||| mapping is None && password == attempt.payload.password
                ||| mapping is Some && events.contains(ServerLoginEvent::Decrypted(password))
            }
            &&& login matches ServerLogin::Done(Ok(accepted)) ==> events.contains(
                ServerLoginEvent::Parsed(Ok(accepted.auth_response)),
            )
        }),
    decreases events.len(),
{
    if events.len() > 0 {
        let before = events.drop_last();
        login_uses_the_right_password(attempt, mapping, before);
        login_success_is_genuine(attempt, mapping, before);
        assert(events[events.len() - 1] == events.last());
        assert forall|e: ServerLoginEvent| #[trigger]
            before.contains(e) implies events.contains(e) by {
            let i = choose|i: int| 0 <= i < before.len() && #[trigger] before[i] == e;
            assert(events[i] == e);
        }
    }
}

/// An automatic creation asks in turn whether accounts may be created and whether
/// the user is blocked, finds the local user, and syncs the user to the server with
/// the credentials given. Where the account was created or was there already, the
/// login is then tried with those credentials.
pub proof fn auto_create_takes_its_course(
    attempt: LoginAttempt,
    user: LocalUser,
    sync: SyncUser,
    answer: SyncEvent,
    login: ServerLogin,
    event: ServerLoginEvent,
)
    ensures
        auto_create_step(AutoCreate::CheckEnabled(attempt), AutoCreateEvent::Enabled(true))
            == AutoCreate::CheckBlocked(attempt),
        auto_create_step(AutoCreate::CheckBlocked(attempt), AutoCreateEvent::Blocked(Ok(false)))
            == AutoCreate::ResolveUser(attempt),
        auto_create_step(AutoCreate::ResolveUser(attempt), AutoCreateEvent::User(Ok(user)))
            == AutoCreate::Sync(
            attempt,
            federated_users::sync_start(
                SyncRequest {
                    server: attempt.server,
                    username: attempt.payload.username,
                    password: attempt.payload.password,
                    user_id: user.id,
                },
            ),
        ),
        ({
            let next = federated_users::sync_step(sync, answer);
            let synced = auto_create_step(
                AutoCreate::Sync(attempt, sync),
                AutoCreateEvent::Sync(answer),
            );
            &&& next !is Done ==> synced == AutoCreate::Sync(attempt, next)
            &&& next matches SyncUser::Done(o) ==> synced == (if o.status == SyncStatus::Created
                || o.status == SyncStatus::AlreadyExists {
                AutoCreate::LogIn(
                    ServerLogin::Send(attempt, attempt.payload.username, attempt.payload.password),
                )
            } else {
                AutoCreate::Refused(AuthError::InvalidCredentials)
            })
        }),
        auto_create_step(AutoCreate::LogIn(login), AutoCreateEvent::Login(event))
            == AutoCreate::LogIn(server_login_step(login, event)),
{
}

/// Where accounts may not be created, the user is blocked, or a lookup fails, an
/// automatic creation is turned down as if the credentials were wrong.
pub proof fn auto_create_is_refused(attempt: LoginAttempt, storage: StorageError)
    ensures
        ({
            let refused = AutoCreate::Refused(AuthError::InvalidCredentials);
            &&& auto_create_step(
                AutoCreate::CheckEnabled(attempt),
                AutoCreateEvent::Enabled(false),
            ) == refused
            &&& auto_create_step(
                AutoCreate::CheckBlocked(attempt),
                AutoCreateEvent::Blocked(Ok(true)),
            ) == refused
            &&& auto_create_step(
                AutoCreate::CheckBlocked(attempt),
                AutoCreateEvent::Blocked(Err(storage)),
            ) == refused
            &&& auto_create_step(
                AutoCreate::ResolveUser(attempt),
                AutoCreateEvent::User(Err(storage)),
            ) == refused
        }),
{
}

/// An event that does not answer the pending work changes nothing, neither in a
/// login on a server nor in an automatic creation.
pub proof fn stray_events_change_nothing(
    login: ServerLogin,
    answer: ServerLoginEvent,
    creation: AutoCreate,
    event: AutoCreateEvent,
)
    ensures
        server_login_step(login, answer) == login || {
            ||| login is DecryptPassword && answer is Decrypted
            ||| login is Send && answer is Answered
            ||| login is ReadBody && answer is Body
            ||| login is ParseBody && answer is Parsed
        },
        auto_create_step(creation, event) == creation || {
            ||| creation is CheckEnabled && event is Enabled
            ||| creation is CheckBlocked && event is Blocked
            ||| creation is ResolveUser && event is User
            ||| creation is Sync && event is Sync
            ||| creation is LogIn && event is Login
        },
{
}

/// Each way in which the authorization header of a login can be wrong is named.
pub proof fn header_complaints_name_the_header(raw: String)
    ensures
        header_complaint(Some(AuthHeader::Standard(raw)))
            == "Invalid 'Authorization' header format"@,
        header_complaint(Some(AuthHeader::Legacy(raw)))
            == "Invalid 'X-Emby-Authorization' header format"@,
        header_complaint(None) == "No 'Authorization' header found in login request!"@,
{
}

} // verus!
