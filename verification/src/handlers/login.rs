//! A client's login, which is tried on every server behind the proxy.

use hyper::header::HeaderValue;
use hyper::HeaderMap;
use vstd::prelude::*;

use crate::client_ip;
use crate::handlers::users::{self, AuthError, AuthHeader, SuccessfulServerAuth};
use crate::headers;
use crate::login_rate_limit_service::{self, RateLimit};
use crate::models::{AuthenticateRequest, AuthenticateResponse, Authorization};
use crate::moment::{self, Moment};
use crate::server::{self, AccountToRecord, LocalUser, Server, ServerMapping};
use crate::status::StatusCode;
use crate::storage::StorageError;

verus! {

/// A login as it arrived.
pub struct LoginRequest {
    pub payload: AuthenticateRequest,
    /// The client whose failed logins are counted.
    pub client_ip: String,
    pub header: Option<AuthHeader>,
    pub rate_limit_enabled: bool,
}

/// A login whose authorization header has been read.
pub struct LoginContext {
    pub payload: AuthenticateRequest,
    pub client_ip: String,
    pub authorization: Authorization,
    pub rate_limit_enabled: bool,
}

/// A server on which the user has an account.
pub struct MappedServer {
    pub server: Server,
    pub mapping: ServerMapping,
}

/// A session on a server, as it is handed to the records.
pub struct SessionToStore {
    pub user_id: String,
    pub server: Server,
    pub authorization: Authorization,
    pub token: String,
    /// The id of the user on the server.
    pub original_user_id: String,
}

/// How a login on one server went.
pub enum Attempt {
    Succeeded(SuccessfulServerAuth),
    Failed(AuthError),
    /// The attempt broke off without a result.
    Lost,
}

/// A login, by what it waits for.
pub enum Login {
    /// Look up whether the client is blocked.
    CheckRateLimit(LoginRequest),
    ListServers(LoginRequest),
    /// Read the authorization header.
    ParseHeader(LoginRequest, Vec<Server>),
    /// Look up the local user by name.
    FindUser(LoginContext, Vec<Server>),
    /// Look up whether logins may create users.
    CheckAutoCreate(LoginContext, Vec<Server>),
    /// List the accounts that are recorded for the local user.
    ListMappings(LoginContext, Vec<Server>, LocalUser),
    /// Log in on the servers with a recorded account, all at once.
    TryMapped(LoginContext, Vec<MappedServer>, Vec<Server>),
    /// Log in on the other servers with the credentials given, all at once.
    TryUnmapped(LoginContext, Vec<SuccessfulServerAuth>, Vec<Server>),
    /// Create the user on the servers that turned them down, all at once.
    TryAutoCreate(LoginContext, Vec<SuccessfulServerAuth>, Vec<Server>),
    /// Count a failed login of the client.
    RecordFailure(LoginContext),
    /// Clear the count of the client.
    RecordSuccess(LoginContext, Vec<SuccessfulServerAuth>),
    /// Find or create the local user.
    ResolveUser(LoginContext, Vec<SuccessfulServerAuth>),
    /// Record the account on the server at this position.
    SaveMapping(LoginContext, LocalUser, Vec<SuccessfulServerAuth>, usize),
    /// Store the session on the server at this position.
    StoreSession(LoginContext, LocalUser, Vec<SuccessfulServerAuth>, usize),
    /// Look up the proxy's own server id.
    ReadServerId(LoginContext, LocalUser, Vec<SuccessfulServerAuth>),
    Done(Result<AuthenticateResponse, StatusCode>),
}

/// The state of a login, with sequences in place of vectors.
pub enum LoginView {
    CheckRateLimit(LoginRequest),
    ListServers(LoginRequest),
    ParseHeader(LoginRequest, Seq<Server>),
    FindUser(LoginContext, Seq<Server>),
    CheckAutoCreate(LoginContext, Seq<Server>),
    ListMappings(LoginContext, Seq<Server>, LocalUser),
    TryMapped(LoginContext, Seq<MappedServer>, Seq<Server>),
    TryUnmapped(LoginContext, Seq<SuccessfulServerAuth>, Seq<Server>),
    TryAutoCreate(LoginContext, Seq<SuccessfulServerAuth>, Seq<Server>),
    RecordFailure(LoginContext),
    RecordSuccess(LoginContext, Seq<SuccessfulServerAuth>),
    ResolveUser(LoginContext, Seq<SuccessfulServerAuth>),
    SaveMapping(LoginContext, LocalUser, Seq<SuccessfulServerAuth>, int),
    StoreSession(LoginContext, LocalUser, Seq<SuccessfulServerAuth>, int),
    ReadServerId(LoginContext, LocalUser, Seq<SuccessfulServerAuth>),
    Done(Result<AuthenticateResponse, StatusCode>),
}

/// The outcome of a step of a login.
pub enum LoginEvent {
    /// For how many more seconds the client is blocked, if it is.
    SecondsLeft(Result<Option<i64>, StorageError>),
    Servers(Result<Vec<Server>, StorageError>),
    HeaderParsed(Option<Authorization>),
    ExistingUser(Result<Option<LocalUser>, StorageError>),
    AutoCreate(bool),
    Mappings(Result<Vec<ServerMapping>, StorageError>),
    /// One outcome for each server that was tried, in the order of the servers.
    Tried(Vec<Attempt>),
    /// Whether counting the failure or clearing the count worked.
    Counted(bool),
    User(Result<LocalUser, StorageError>),
    MappingSaved(Result<(), StorageError>),
    SessionStored(Result<(), StorageError>),
    ServerId(String),
}

impl View for Login {
    type V = LoginView;

    open spec fn view(&self) -> LoginView {
        match *self {
            Login::CheckRateLimit(request) => LoginView::CheckRateLimit(request),
            Login::ListServers(request) => LoginView::ListServers(request),
            Login::ParseHeader(request, servers) => LoginView::ParseHeader(request, servers@),
            Login::FindUser(context, servers) => LoginView::FindUser(context, servers@),
            Login::CheckAutoCreate(context, servers) => LoginView::CheckAutoCreate(
                context,
                servers@,
            ),
            Login::ListMappings(context, servers, user) => LoginView::ListMappings(
                context,
                servers@,
                user,
            ),
            Login::TryMapped(context, mapped, others) => LoginView::TryMapped(
                context,
                mapped@,
                others@,
            ),
            Login::TryUnmapped(context, accepted, servers) => LoginView::TryUnmapped(
                context,
                accepted@,
                servers@,
            ),
            Login::TryAutoCreate(context, accepted, servers) => LoginView::TryAutoCreate(
                context,
                accepted@,
                servers@,
            ),
            Login::RecordFailure(context) => LoginView::RecordFailure(context),
            Login::RecordSuccess(context, accepted) => LoginView::RecordSuccess(context, accepted@),
            Login::ResolveUser(context, accepted) => LoginView::ResolveUser(context, accepted@),
            Login::SaveMapping(context, user, accepted, at) => LoginView::SaveMapping(
                context,
                user,
                accepted@,
                at as int,
            ),
            Login::StoreSession(context, user, accepted, at) => LoginView::StoreSession(
                context,
                user,
                accepted@,
                at as int,
            ),
            Login::ReadServerId(context, user, accepted) => LoginView::ReadServerId(
                context,
                user,
                accepted@,
            ),
            Login::Done(result) => LoginView::Done(result),
        }
    }
}

/// What holds of every state that a login reaches. In particular, users are
/// created on servers, and a local user is looked up or created, only after some
/// server has accepted the login.
pub open spec fn login_wf(login: LoginView) -> bool {
    match login {
        LoginView::ParseHeader(request, _) => request.header is Some,
        LoginView::TryAutoCreate(_, accepted, servers) => accepted.len() > 0 && servers.len() > 0,
        LoginView::RecordFailure(context) => context.rate_limit_enabled,
        LoginView::RecordSuccess(context, accepted) => context.rate_limit_enabled && accepted.len()
            > 0,
        LoginView::ResolveUser(_, accepted) => accepted.len() > 0,
        LoginView::SaveMapping(_, _, accepted, at) => 0 <= at < accepted.len(),
        LoginView::StoreSession(_, _, accepted, at) => 0 <= at < accepted.len(),
        LoginView::ReadServerId(_, _, accepted) => accepted.len() > 0,
        _ => true,
    }
}

/// How the servers are divided for a user with these recorded accounts: one
/// after the other, each account takes its server out of those that are left.
pub open spec fn divided(servers: Seq<Server>, mappings: Seq<ServerMapping>) -> (
    Seq<MappedServer>,
    Seq<Server>,
)
    decreases mappings.len(),
{
    if mappings.len() == 0 {
        (Seq::empty(), servers)
    } else {
        let (mapped, left) = divided(servers, mappings.drop_last());
        let mapping = mappings.last();
        let at = server::position_of(left, mapping.server_id);
        if at < left.len() {
            (mapped.push(MappedServer { server: left[at], mapping }), left.remove(at))
        } else {
            (mapped, left)
        }
    }
}

/// The logins that were accepted, in order.
pub open spec fn successes(attempts: Seq<Attempt>) -> Seq<SuccessfulServerAuth>
    decreases attempts.len(),
{
    if attempts.len() == 0 {
        Seq::empty()
    } else {
        let earlier = successes(attempts.drop_last());
        match attempts.last() {
            Attempt::Succeeded(accepted) => earlier.push(accepted),
            _ => earlier,
        }
    }
}

/// The servers that turned the user down, in order.
pub open spec fn refusals(servers: Seq<Server>, attempts: Seq<Attempt>) -> Seq<Server>
    decreases attempts.len(),
{
    if attempts.len() == 0 {
        Seq::empty()
    } else {
        let earlier = refusals(servers, attempts.drop_last());
        match attempts.last() {
            Attempt::Failed(_) => earlier.push(servers[attempts.len() - 1]),
            _ => earlier,
        }
    }
}

/// What follows once every server has been tried.
pub open spec fn concluded(context: LoginContext, accepted: Seq<SuccessfulServerAuth>) -> LoginView {
    if accepted.len() == 0 {
        if context.rate_limit_enabled {
            LoginView::RecordFailure(context)
        } else {
            LoginView::Done(Err(StatusCode::Unauthorized))
        }
    } else if context.rate_limit_enabled {
        LoginView::RecordSuccess(context, accepted)
    } else {
        LoginView::ResolveUser(context, accepted)
    }
}

pub open spec fn login_failed(status: StatusCode) -> LoginView {
    LoginView::Done(Err(status))
}

pub open spec fn login_step(login: LoginView, event: LoginEvent) -> LoginView {
    match (login, event) {
        (LoginView::CheckRateLimit(request), LoginEvent::SecondsLeft(left)) => match left {
            Ok(None) => LoginView::ListServers(request),
            Ok(Some(_)) => login_failed(StatusCode::TooManyRequests),
            Err(_) => login_failed(StatusCode::InternalServerError),
        },
        (LoginView::ListServers(request), LoginEvent::Servers(listed)) => match listed {
            Ok(servers) => if servers@.len() == 0 {
                login_failed(StatusCode::NotFound)
            } else if request.header is None {
                login_failed(StatusCode::BadRequest)
            } else {
                LoginView::ParseHeader(request, servers@)
            },
            Err(_) => login_failed(StatusCode::InternalServerError),
        },
        (LoginView::ParseHeader(request, servers), LoginEvent::HeaderParsed(parsed)) => {
            match parsed {
                Some(authorization) => LoginView::FindUser(
                    LoginContext {
                        payload: request.payload,
                        client_ip: request.client_ip,
                        authorization,
                        rate_limit_enabled: request.rate_limit_enabled,
                    },
                    servers,
                ),
                None => login_failed(StatusCode::BadRequest),
            }
        },
        (LoginView::FindUser(context, servers), LoginEvent::ExistingUser(found)) => match found {
            Ok(Some(user)) => LoginView::ListMappings(context, servers, user),
            Ok(None) => LoginView::CheckAutoCreate(context, servers),
            Err(_) => login_failed(StatusCode::InternalServerError),
        },
        (LoginView::CheckAutoCreate(context, servers), LoginEvent::AutoCreate(enabled)) => {
            if enabled {
                LoginView::TryUnmapped(context, Seq::empty(), servers)
            } else {
                login_failed(StatusCode::Unauthorized)
            }
        },
        (LoginView::ListMappings(context, servers, _), LoginEvent::Mappings(listed)) => {
            match listed {
                Ok(mappings) => {
                    let (mapped, left) = divided(servers, mappings@);
                    LoginView::TryMapped(context, mapped, left)
                },
                Err(_) => login_failed(StatusCode::InternalServerError),
            }
        },
        (LoginView::TryMapped(context, mapped, others), LoginEvent::Tried(attempts)) => {
            if attempts@.len() == mapped.len() {
                LoginView::TryUnmapped(context, successes(attempts@), others)
            } else {
                login
            }
        },
        (LoginView::TryUnmapped(context, accepted, servers), LoginEvent::Tried(attempts)) => {
            if attempts@.len() == servers.len() {
                let all = accepted + successes(attempts@);
                let refused = refusals(servers, attempts@);
                if all.len() > 0 && refused.len() > 0 {
                    LoginView::TryAutoCreate(context, all, refused)
                } else {
                    concluded(context, all)
                }
            } else {
                login
            }
        },
        (LoginView::TryAutoCreate(context, accepted, servers), LoginEvent::Tried(attempts)) => {
            if attempts@.len() == servers.len() {
                concluded(context, accepted + successes(attempts@))
            } else {
                login
            }
        },
        (LoginView::RecordFailure(_), LoginEvent::Counted(_)) => login_failed(
            StatusCode::Unauthorized,
        ),
        (LoginView::RecordSuccess(context, accepted), LoginEvent::Counted(_)) => {
            LoginView::ResolveUser(context, accepted)
        },
        (LoginView::ResolveUser(context, accepted), LoginEvent::User(resolved)) => match resolved {
            Ok(user) => LoginView::SaveMapping(context, user, accepted, 0),
            Err(_) => login_failed(StatusCode::InternalServerError),
        },
        (LoginView::SaveMapping(context, user, accepted, at), LoginEvent::MappingSaved(saved)) => {
            match saved {
                Ok(()) => LoginView::StoreSession(context, user, accepted, at),
                Err(_) => login_failed(StatusCode::InternalServerError),
            }
        },
        (LoginView::StoreSession(context, user, accepted, at), LoginEvent::SessionStored(stored)) => {
            match stored {
                Ok(()) => if at + 1 < accepted.len() {
                    LoginView::SaveMapping(context, user, accepted, at + 1)
                } else {
                    LoginView::ReadServerId(context, user, accepted)
                },
                Err(_) => login_failed(StatusCode::InternalServerError),
            }
        },
        (LoginView::ReadServerId(context, user, accepted), LoginEvent::ServerId(server_id)) => {
            LoginView::Done(
                Ok(
                    users::decorated(
                        accepted[0].auth_response,
                        user,
                        context.payload.username,
                        server_id,
                    ),
                ),
            )
        },
        _ => login,
    }
}

/// Divides the servers for a user with these recorded accounts.
fn divide(servers: Vec<Server>, mappings: Vec<ServerMapping>) -> (r: (
    Vec<MappedServer>,
    Vec<Server>,
))
    ensures
        (r.0@, r.1@) == divided(servers@, mappings@),
{
    let mut left = servers;
    let mut mapped: Vec<MappedServer> = Vec::new();
    let n: usize = mappings.len();
    let mut i: usize = 0;
    assert(mapped@ =~= Seq::<MappedServer>::empty());
    while i < n
        invariant
            n == mappings@.len(),
            i <= n,
            (mapped@, left@) == divided(servers@, mappings@.take(i as int)),
        decreases n - i,
    {
        let ghost (earlier, before) = (mapped@, left@);
        assert(mappings@.take(i + 1).drop_last() =~= mappings@.take(i as int));
        assert(mappings@.take(i + 1).last() == mappings@[i as int]);
        let at = server::find_server(&left, mappings[i].server_id);
        if at < left.len() {
            let server = left.remove(at);
            mapped.push(MappedServer { server, mapping: mappings[i].clone() });
        }
        i = i + 1;
    }
    assert(mappings@.take(n as int) =~= mappings@);
    (mapped, left)
}

/// Adds the logins that were accepted, and lists the servers that turned the
/// user down.
fn sort_attempts(
    accepted: &mut Vec<SuccessfulServerAuth>,
    servers: &Vec<Server>,
    attempts: Vec<Attempt>,
) -> (refused: Vec<Server>)
    requires
        attempts@.len() == servers@.len(),
    ensures
        final(accepted)@ == old(accepted)@ + successes(attempts@),
        refused@ == refusals(servers@, attempts@),
{
    let mut refused: Vec<Server> = Vec::new();
    let mut attempts = attempts;
    let ghost all = attempts@;
    let n: usize = servers.len();
    let mut i: usize = 0;
    while i < n
        invariant
            n == servers@.len() == all.len(),
            i <= n,
            attempts@ == all.skip(i as int),
            accepted@ == old(accepted)@ + successes(all.take(i as int)),
            refused@ == refusals(servers@, all.take(i as int)),
        decreases n - i,
    {
        assert(all.take(i + 1).drop_last() =~= all.take(i as int));
        assert(all.take(i + 1).last() == all[i as int]);
        assert(all.skip(i as int)[0] == all[i as int]);
        match attempts.remove(0) {
            Attempt::Succeeded(success) => {
                accepted.push(success);
            },
            Attempt::Failed(_) => {
                refused.push(servers[i].clone());
            },
            Attempt::Lost => {},
        }
        assert(attempts@ =~= all.skip(i + 1));
        i = i + 1;
    }
    assert(all.take(n as int) =~= all);
    refused
}

/// Adds the logins that were accepted.
fn collect_successes(accepted: &mut Vec<SuccessfulServerAuth>, attempts: Vec<Attempt>)
    ensures
        final(accepted)@ == old(accepted)@ + successes(attempts@),
{
    let mut attempts = attempts;
    let ghost all = attempts@;
    let n: usize = attempts.len();
    let mut i: usize = 0;
    while i < n
        invariant
            n == all.len(),
            i <= n,
            attempts@ == all.skip(i as int),
            accepted@ == old(accepted)@ + successes(all.take(i as int)),
        decreases n - i,
    {
        assert(all.take(i + 1).drop_last() =~= all.take(i as int));
        assert(all.take(i + 1).last() == all[i as int]);
        assert(all.skip(i as int)[0] == all[i as int]);
        match attempts.remove(0) {
            Attempt::Succeeded(success) => {
                accepted.push(success);
            },
            _ => {},
        }
        assert(attempts@ =~= all.skip(i + 1));
        i = i + 1;
    }
    assert(all.take(n as int) =~= all);
}

fn conclude(context: LoginContext, accepted: Vec<SuccessfulServerAuth>) -> (r: Login)
    ensures
        r@ == concluded(context, accepted@),
{
    if accepted.len() == 0 {
        if context.rate_limit_enabled {
            Login::RecordFailure(context)
        } else {
            Login::Done(Err(StatusCode::Unauthorized))
        }
    } else if context.rate_limit_enabled {
        Login::RecordSuccess(context, accepted)
    } else {
        Login::ResolveUser(context, accepted)
    }
}

/// Whether `request` is the login with this payload under these headers.
pub open spec fn is_request_of(
    request: LoginRequest,
    headers: HeaderMap<HeaderValue>,
    payload: AuthenticateRequest,
    rate_limit_enabled: bool,
) -> bool {
    &&& request.payload == payload
    &&& request.client_ip@ == client_ip::client_name(
        headers::header_text(headers, "x-forwarded-for"@),
    )
    &&& users::is_auth_header_of(request.header, headers)
    &&& request.rate_limit_enabled == rate_limit_enabled
}

/// Starts a login. With rate limiting, the client's standing is looked up first.
pub fn handle_authenticate_by_name(
    headers: &HeaderMap<HeaderValue>,
    payload: AuthenticateRequest,
    rate_limit_enabled: bool,
) -> (r: Login)
    ensures
        login_wf(r@),
        if rate_limit_enabled {
            r@ matches LoginView::CheckRateLimit(request) && is_request_of(
                request,
                *headers,
                payload,
                true,
            )
        } else {
            r@ matches LoginView::ListServers(request) && is_request_of(
                request,
                *headers,
                payload,
                false,
            )
        },
        ({
            let forwarded = headers::header_text(*headers, "x-forwarded-for"@);
            let started = if rate_limit_enabled {
                r->CheckRateLimit_0
            } else {
                r->ListServers_0
            };
            &&& r is CheckRateLimit <==> rate_limit_enabled
            &&& r is ListServers <==> !rate_limit_enabled
            &&& started.payload == payload
            &&& started.rate_limit_enabled == rate_limit_enabled
            &&& started.client_ip@ == client_ip::client_name(forwarded)
            &&& started.header is Some <==> headers::header_text(*headers, "authorization"@) is Some
                || headers::header_text(*headers, "x-emby-authorization"@) is Some
        }),
{
    let request = LoginRequest {
        payload,
        client_ip: client_ip::extract_client_ip(headers),
        header: users::select_auth_header(headers),
        rate_limit_enabled,
    };
    if rate_limit_enabled {
        Login::CheckRateLimit(request)
    } else {
        Login::ListServers(request)
    }
}

/// The account to record for a server that accepted the login: the credentials
/// that it accepted, encrypted with the password given at login.
pub fn account_to_record(
    context: &LoginContext,
    user: &LocalUser,
    accepted: &SuccessfulServerAuth,
) -> (r: AccountToRecord)
    ensures
        r == (AccountToRecord {
            user_id: user.id,
            server: accepted.server,
            username: accepted.final_username,
            password: accepted.final_password,
            key: context.payload.password,
        }),
{
    AccountToRecord {
        user_id: user.id.clone(),
        server: accepted.server.clone(),
        username: accepted.final_username.clone(),
        password: accepted.final_password.clone(),
        key: context.payload.password.clone(),
    }
}

/// The session to store for a server that accepted the login: the client's own
/// authorization with the server's token, and the user's id on the server.
pub fn session_to_store(
    context: &LoginContext,
    user: &LocalUser,
    accepted: &SuccessfulServerAuth,
) -> (r: SessionToStore)
    ensures
        r == (SessionToStore {
            user_id: user.id,
            server: accepted.server,
            authorization: Authorization {
                token: Some(accepted.auth_response.access_token),
                ..context.authorization
            },
            token: accepted.auth_response.access_token,
            original_user_id: accepted.auth_response.user.id,
        }),
{
    SessionToStore {
        user_id: user.id.clone(),
        server: accepted.server.clone(),
        authorization: users::authorization_to_store(&context.authorization, accepted),
        token: accepted.auth_response.access_token.clone(),
        original_user_id: accepted.auth_response.user.id.clone(),
    }
}

impl Login {
    /// Takes the outcome of the pending work into account. An outcome that does
    /// not answer it changes nothing.
    pub fn advance(self, event: LoginEvent) -> (r: Login)
        requires
            login_wf(self@),
        ensures
            r@ == login_step(self@, event),
            login_wf(r@),
    {
        match (self, event) {
            (Login::CheckRateLimit(request), LoginEvent::SecondsLeft(left)) => match left {
                Ok(None) => Login::ListServers(request),
                Ok(Some(_)) => Login::Done(Err(StatusCode::TooManyRequests)),
                Err(_) => Login::Done(Err(StatusCode::InternalServerError)),
            },
            (Login::ListServers(request), LoginEvent::Servers(listed)) => match listed {
                Ok(servers) => if servers.len() == 0 {
                    Login::Done(Err(StatusCode::NotFound))
                } else if request.header.is_none() {
                    Login::Done(Err(StatusCode::BadRequest))
                } else {
                    Login::ParseHeader(request, servers)
                },
                Err(_) => Login::Done(Err(StatusCode::InternalServerError)),
            },
            (Login::ParseHeader(request, servers), LoginEvent::HeaderParsed(parsed)) => {
                match users::extract_auth_header(request.header, parsed) {
                    Ok(authorization) => Login::FindUser(
                        LoginContext {
                            payload: request.payload,
                            client_ip: request.client_ip,
                            authorization,
                            rate_limit_enabled: request.rate_limit_enabled,
                        },
                        servers,
                    ),
                    Err(_) => Login::Done(Err(StatusCode::BadRequest)),
                }
            },
            (Login::FindUser(context, servers), LoginEvent::ExistingUser(found)) => match found {
                Ok(Some(user)) => Login::ListMappings(context, servers, user),
                Ok(None) => Login::CheckAutoCreate(context, servers),
                Err(_) => Login::Done(Err(StatusCode::InternalServerError)),
            },
            (Login::CheckAutoCreate(context, servers), LoginEvent::AutoCreate(enabled)) => {
                if enabled {
                    Login::TryUnmapped(context, Vec::new(), servers)
                } else {
                    Login::Done(Err(StatusCode::Unauthorized))
                }
            },
            (Login::ListMappings(context, servers, _), LoginEvent::Mappings(listed)) => {
                match listed {
                    Ok(mappings) => {
                        let (mapped, left) = divide(servers, mappings);
                        Login::TryMapped(context, mapped, left)
                    },
                    Err(_) => Login::Done(Err(StatusCode::InternalServerError)),
                }
            },
            (Login::TryMapped(context, mapped, others), LoginEvent::Tried(attempts)) => {
                if attempts.len() == mapped.len() {
                    let mut accepted: Vec<SuccessfulServerAuth> = Vec::new();
                    collect_successes(&mut accepted, attempts);
                    Login::TryUnmapped(context, accepted, others)
                } else {
                    Login::TryMapped(context, mapped, others)
                }
            },
            (Login::TryUnmapped(context, accepted, servers), LoginEvent::Tried(attempts)) => {
                if attempts.len() == servers.len() {
                    let mut accepted = accepted;
                    let refused = sort_attempts(&mut accepted, &servers, attempts);
                    if accepted.len() > 0 && refused.len() > 0 {
                        Login::TryAutoCreate(context, accepted, refused)
                    } else {
                        conclude(context, accepted)
                    }
                } else {
                    Login::TryUnmapped(context, accepted, servers)
                }
            },
            (Login::TryAutoCreate(context, accepted, servers), LoginEvent::Tried(attempts)) => {
                if attempts.len() == servers.len() {
                    let mut accepted = accepted;
                    collect_successes(&mut accepted, attempts);
                    conclude(context, accepted)
                } else {
                    Login::TryAutoCreate(context, accepted, servers)
                }
            },
            (Login::RecordFailure(_), LoginEvent::Counted(_)) => Login::Done(
                Err(StatusCode::Unauthorized),
            ),
            (Login::RecordSuccess(context, accepted), LoginEvent::Counted(_)) => {
                Login::ResolveUser(context, accepted)
            },
            (Login::ResolveUser(context, accepted), LoginEvent::User(resolved)) => match resolved {
                Ok(user) => Login::SaveMapping(context, user, accepted, 0),
                Err(_) => Login::Done(Err(StatusCode::InternalServerError)),
            },
            (Login::SaveMapping(context, user, accepted, at), LoginEvent::MappingSaved(saved)) => {
                match saved {
                    Ok(()) => Login::StoreSession(context, user, accepted, at),
                    Err(_) => Login::Done(Err(StatusCode::InternalServerError)),
                }
            },
            (
                Login::StoreSession(context, user, accepted, at),
                LoginEvent::SessionStored(stored),
            ) => match stored {
                Ok(()) => if at < accepted.len() - 1 {
                    Login::SaveMapping(context, user, accepted, at + 1)
                } else {
                    Login::ReadServerId(context, user, accepted)
                },
                Err(_) => Login::Done(Err(StatusCode::InternalServerError)),
            },
            (Login::ReadServerId(context, user, accepted), LoginEvent::ServerId(server_id)) => {
                let mut accepted = accepted;
                let first = accepted.remove(0);
                Login::Done(
                    Ok(
                        users::decorate_auth_response(
                            first.auth_response,
                            &user,
                            &context.payload.username,
                            &server_id,
                        ),
                    ),
                )
            },
            (login, _) => login,
        }
    }
}

pub open spec fn login_run(login: LoginView, events: Seq<LoginEvent>) -> LoginView
    decreases events.len(),
{
    if events.len() == 0 {
        login
    } else {
        login_step(login_run(login, events.drop_last()), events.last())
    }
}

/// Where a login starts.
pub open spec fn login_start(request: LoginRequest) -> LoginView {
    if request.rate_limit_enabled {
        LoginView::CheckRateLimit(request)
    } else {
        LoginView::ListServers(request)
    }
}

/// Some of these logins was accepted.
pub open spec fn some_accepted(attempts: Seq<Attempt>) -> bool {
    exists|j: int| 0 <= j < attempts.len() && #[trigger] attempts[j] is Succeeded
}

/// Some event was a server accepting the login.
pub open spec fn verified_somewhere(events: Seq<LoginEvent>) -> bool {
    exists|i: int|
        0 <= i < events.len() && (#[trigger] events[i] matches LoginEvent::Tried(attempts)
            && some_accepted(attempts@))
}

/// Some event said that the client is not blocked.
pub open spec fn found_free(events: Seq<LoginEvent>) -> bool {
    exists|i: int|
        0 <= i < events.len() && #[trigger] events[i] matches LoginEvent::SecondsLeft(Ok(None))
}

/// Some event was the client's count being brought up to date.
pub open spec fn count_updated(events: Seq<LoginEvent>) -> bool {
    exists|i: int| 0 <= i < events.len() && #[trigger] events[i] is Counted
}

/// The logins that a login has had accepted so far.
pub open spec fn accepted_so_far(login: LoginView) -> Seq<SuccessfulServerAuth> {
    match login {
        LoginView::TryUnmapped(_, accepted, _) => accepted,
        LoginView::TryAutoCreate(_, accepted, _) => accepted,
        LoginView::RecordSuccess(_, accepted) => accepted,
        LoginView::ResolveUser(_, accepted) => accepted,
        LoginView::SaveMapping(_, _, accepted, _) => accepted,
        LoginView::StoreSession(_, _, accepted, _) => accepted,
        LoginView::ReadServerId(_, _, accepted) => accepted,
        _ => Seq::empty(),
    }
}

/// What a login is for, once its header has been read.
pub open spec fn context_of(login: LoginView) -> Option<LoginContext> {
    match login {
        LoginView::FindUser(context, _) => Some(context),
        LoginView::CheckAutoCreate(context, _) => Some(context),
        LoginView::ListMappings(context, _, _) => Some(context),
        LoginView::TryMapped(context, _, _) => Some(context),
        LoginView::TryUnmapped(context, _, _) => Some(context),
        LoginView::TryAutoCreate(context, _, _) => Some(context),
        LoginView::RecordFailure(context) => Some(context),
        LoginView::RecordSuccess(context, _) => Some(context),
        LoginView::ResolveUser(context, _) => Some(context),
        LoginView::SaveMapping(context, _, _, _) => Some(context),
        LoginView::StoreSession(context, _, _, _) => Some(context),
        LoginView::ReadServerId(context, _, _) => Some(context),
        _ => None,
    }
}

/// What a login is for, until its header has been read.
pub open spec fn request_of(login: LoginView) -> Option<LoginRequest> {
    match login {
        LoginView::CheckRateLimit(request) => Some(request),
        LoginView::ListServers(request) => Some(request),
        LoginView::ParseHeader(request, _) => Some(request),
        _ => None,
    }
}

proof fn successes_are_accepted(attempts: Seq<Attempt>)
    ensures
        successes(attempts).len() > 0 <==> some_accepted(attempts),
    decreases attempts.len(),
{
    if attempts.len() > 0 {
        let earlier = attempts.drop_last();
        successes_are_accepted(earlier);
        if some_accepted(earlier) {
            let j = choose|j: int| 0 <= j < earlier.len() && #[trigger] earlier[j] is Succeeded;
            assert(attempts[j] is Succeeded);
        }
        if some_accepted(attempts) && !(attempts.last() is Succeeded) {
            let j = choose|j: int| 0 <= j < attempts.len() && #[trigger] attempts[j] is Succeeded;
            assert(earlier[j] is Succeeded);
        }
        if attempts.last() is Succeeded {
            assert(attempts[attempts.len() - 1] is Succeeded);
        }
    }
}

/// Whatever happens in the course of a login:
/// - it stays with its payload, its client and its header;
/// - without a server that accepted the login, no user is created on any server
///   or locally, nothing is recorded, and the login is not answered with success:
///   a username that no server knows is never created anywhere;
/// - with rate limiting, nothing is asked of a server or the user records before
///   the client was found not to be blocked, and the login is answered with
///   success only after the client's count was cleared.
pub proof fn login_is_careful(request: LoginRequest, events: Seq<LoginEvent>)
    ensures
        ({
            let login = login_run(login_start(request), events);
            &&& login_wf(login)
            &&& request_of(login) matches Some(current) ==> current == request
            &&& context_of(login) matches Some(context) ==> context.payload == request.payload
                && context.client_ip == request.client_ip && context.rate_limit_enabled
                == request.rate_limit_enabled
            &&& accepted_so_far(login).len() > 0 ==> verified_somewhere(events)
            &&& login matches LoginView::Done(Ok(_)) ==> verified_somewhere(events)
            &&& request.rate_limit_enabled && !(login is CheckRateLimit || login is Done)
                ==> found_free(events)
            &&& request.rate_limit_enabled && (login is ResolveUser || login is SaveMapping
                || login is StoreSession || login is ReadServerId) ==> count_updated(events)
            &&& (login matches LoginView::Done(Ok(_)) ==> (request.rate_limit_enabled
                ==> found_free(events) && count_updated(events)))
        }),
    decreases events.len(),
{
    if events.len() > 0 {
        let before = events.drop_last();
        login_is_careful(request, before);
        assert(events[events.len() - 1] == events.last());
        if verified_somewhere(before) {
            let i = choose|i: int|
                0 <= i < before.len() && (#[trigger] before[i] matches LoginEvent::Tried(attempts)
                    && some_accepted(attempts@));
            assert(events[i] == before[i]);
            assert(verified_somewhere(events));
        }
        if found_free(before) {
            let i = choose|i: int|
                0 <= i < before.len() && #[trigger] before[i] matches LoginEvent::SecondsLeft(
                    Ok(None),
                );
            assert(events[i] == before[i]);
            assert(found_free(events));
        }
        if count_updated(before) {
            let i = choose|i: int| 0 <= i < before.len() && #[trigger] before[i] is Counted;
            assert(events[i] == before[i]);
            assert(count_updated(events));
        }
        if let LoginEvent::Tried(attempts) = events.last() {
            successes_are_accepted(attempts@);
        }
    }
}

/// An answered login stays as it is.
pub proof fn answer_is_final(
    result: Result<AuthenticateResponse, StatusCode>,
    events: Seq<LoginEvent>,
)
    ensures
        login_run(LoginView::Done(result), events) == LoginView::Done(result),
    decreases events.len(),
{
    if events.len() > 0 {
        answer_is_final(result, events.drop_last());
    }
}

/// Once some server has accepted the login, only a failure of the proxy's own
/// records can still make it fail.
pub proof fn accepted_login_goes_through(login: LoginView, event: LoginEvent)
    requires
        login_wf(login),
        accepted_so_far(login).len() > 0,
    ensures
        ({
            let next = login_step(login, event);
            &&& next matches LoginView::Done(Err(status)) ==> status
                == StatusCode::InternalServerError && (event matches LoginEvent::User(Err(_))
                || event matches LoginEvent::MappingSaved(Err(_))
                || event matches LoginEvent::SessionStored(Err(_)))
            &&& next !is Done ==> accepted_so_far(next).len() >= accepted_so_far(login).len()
        }),
{
}

/// A blocked client is turned away at once, whatever else would have happened.
pub proof fn blocked_client_is_turned_away(
    request: LoginRequest,
    seconds: i64,
    events: Seq<LoginEvent>,
)
    requires
        request.rate_limit_enabled,
        events.len() > 0,
        events[0] matches LoginEvent::SecondsLeft(Ok(Some(left))) && left == seconds,
    ensures
        login_run(login_start(request), events) == LoginView::Done(
            Err(StatusCode::TooManyRequests),
        ),
    decreases events.len(),
{
    if events.len() > 1 {
        let before = events.drop_last();
        assert(before[0] == events[0]);
        blocked_client_is_turned_away(request, seconds, before);
    } else {
        assert(events.drop_last() =~= Seq::<LoginEvent>::empty());
        assert(login_run(login_start(request), events.drop_last()) == login_start(request));
    }
}

/// A login that every server turned down is answered as unauthorized; with rate
/// limiting, the failure is counted first.
pub proof fn failed_login_is_counted(
    context: LoginContext,
    servers: Seq<Server>,
    attempts: Vec<Attempt>,
    counted: bool,
)
    requires
        attempts@.len() == servers.len(),
        !some_accepted(attempts@),
    ensures
        ({
            let tried = login_step(
                LoginView::TryUnmapped(context, Seq::empty(), servers),
                LoginEvent::Tried(attempts),
            );
            if context.rate_limit_enabled {
                tried == LoginView::RecordFailure(context) && login_step(
                    tried,
                    LoginEvent::Counted(counted),
                ) == LoginView::Done(Err(StatusCode::Unauthorized))
            } else {
                tried == LoginView::Done(Err(StatusCode::Unauthorized))
            }
        }),
{
    successes_are_accepted(attempts@);
}

/// The servers are divided between those with a recorded account and the others,
/// so that each is tried exactly once before any user is created; and each
/// account goes with the server that it is for.
pub proof fn each_server_is_tried_once(servers: Seq<Server>, mappings: Seq<ServerMapping>)
    ensures
        ({
            let (mapped, left) = divided(servers, mappings);
            &&& mapped.map_values(|m: MappedServer| m.server).to_multiset().add(left.to_multiset())
                == servers.to_multiset()
            &&& forall|i: int|
                0 <= i < mapped.len() ==> (#[trigger] mapped[i]).mapping.server_id
                    == mapped[i].server.id && mappings.contains(mapped[i].mapping)
        }),
    decreases mappings.len(),
{
    broadcast use vstd::seq_lib::group_to_multiset_ensures;

    let of = |m: MappedServer| m.server;
    if mappings.len() == 0 {
        assert(Seq::<MappedServer>::empty().map_values(of) =~= Seq::<Server>::empty());
        assert(Seq::<Server>::empty().to_multiset().add(servers.to_multiset())
            =~= servers.to_multiset());
    } else {
        let earlier = mappings.drop_last();
        each_server_is_tried_once(servers, earlier);
        let (mapped, left) = divided(servers, earlier);
        let mapping = mappings.last();
        let at = server::position_of(left, mapping.server_id);
        server::position_is_of_that_server(left, mapping.server_id);
        assert(mappings[mappings.len() - 1] == mapping);
        assert forall|i: int| 0 <= i < mapped.len() implies mappings.contains(
            (#[trigger] mapped[i]).mapping,
        ) by {
            let j = choose|j: int| 0 <= j < earlier.len() && earlier[j] == mapped[i].mapping;
            assert(mappings[j] == mapped[i].mapping);
        }
        if at < left.len() {
            let entry = MappedServer { server: left[at], mapping };
            assert(mapped.push(entry).map_values(of) =~= mapped.map_values(of).push(left[at]));
            assert(mapped.map_values(of).push(left[at]).to_multiset().add(
                left.remove(at).to_multiset(),
            ) =~= mapped.map_values(of).to_multiset().add(left.to_multiset()));
        }
    }
}

/// Users are created only on servers that were tried and turned the user down.
pub proof fn created_only_where_refused(servers: Seq<Server>, attempts: Seq<Attempt>)
    requires
        attempts.len() == servers.len(),
    ensures
        forall|server: Server| #[trigger]
            refusals(servers, attempts).contains(server) ==> exists|j: int|
                0 <= j < servers.len() && servers[j] == server && #[trigger] attempts[j] is Failed,
{
    refusals_come_from(servers, attempts);
}

proof fn refusals_come_from(servers: Seq<Server>, attempts: Seq<Attempt>)
    requires
        attempts.len() <= servers.len(),
    ensures
        forall|server: Server| #[trigger]
            refusals(servers, attempts).contains(server) ==> exists|j: int|
                0 <= j < attempts.len() && servers[j] == server && #[trigger] attempts[j] is Failed,
    decreases attempts.len(),
{
    if attempts.len() > 0 {
        let earlier = attempts.drop_last();
        let last = attempts.len() - 1;
        refusals_come_from(servers, earlier);
        assert forall|server: Server| #[trigger]
            refusals(servers, attempts).contains(server) implies exists|j: int|
            0 <= j < attempts.len() && servers[j] == server && #[trigger] attempts[j] is Failed by {
            let refused = refusals(servers, attempts);
            let i = choose|i: int| 0 <= i < refused.len() && refused[i] == server;
            if i < refusals(servers, earlier).len() {
                assert(refusals(servers, earlier)[i] == server);
                assert(refusals(servers, earlier).contains(server));
                let j = choose|j: int|
                    0 <= j < earlier.len() && servers[j] == server && #[trigger] earlier[j] is Failed;
                assert(attempts[j] is Failed);
            } else {
                assert(attempts[last] is Failed);
            }
        }
    }
}

/// The events of recording an account and a session `n` times, all of which work.
pub open spec fn all_recorded(n: nat) -> Seq<LoginEvent>
    decreases n,
{
    if n == 0 {
        Seq::empty()
    } else {
        all_recorded((n - 1) as nat).push(LoginEvent::MappingSaved(Ok(()))).push(
            LoginEvent::SessionStored(Ok(())),
        )
    }
}

/// Before a login is answered with success, an account and a session are
/// recorded for every server that accepted it, one server after the other, and
/// the answer is the first server's, under the local user's identity.
pub proof fn every_success_is_recorded(
    context: LoginContext,
    user: LocalUser,
    accepted: Seq<SuccessfulServerAuth>,
    n: nat,
    server_id: String,
)
    requires
        accepted.len() > 0,
        n <= accepted.len(),
    ensures
        ({
            let recorded = login_run(
                LoginView::SaveMapping(context, user, accepted, 0),
                all_recorded(n),
            );
            if n < accepted.len() {
                recorded == LoginView::SaveMapping(context, user, accepted, n as int)
            } else {
                recorded == LoginView::ReadServerId(context, user, accepted) && login_step(
                    recorded,
                    LoginEvent::ServerId(server_id),
                ) == LoginView::Done(
                    Ok(
                        users::decorated(
                            accepted[0].auth_response,
                            user,
                            context.payload.username,
                            server_id,
                        ),
                    ),
                )
            }
        }),
    decreases n,
{
    if n > 0 {
        let m = (n - 1) as nat;
        every_success_is_recorded(context, user, accepted, m, server_id);
        let first = LoginView::SaveMapping(context, user, accepted, 0);
        let saved = all_recorded(m).push(LoginEvent::MappingSaved(Ok(())));
        assert(saved.drop_last() =~= all_recorded(m));
        assert(all_recorded(n).drop_last() =~= saved);
        assert(login_run(first, saved) == LoginView::StoreSession(context, user, accepted, m as int));
    }
}

/// After failures from a clean record, none of which came after the window had
/// passed since the one before, the client's next login is turned away while the
/// cooldown runs if they have reached the limit, and is tried otherwise.
pub proof fn failures_up_to_the_limit_block(
    request: LoginRequest,
    limit: RateLimit,
    nows: Seq<Moment>,
    later: Moment,
    left: Option<i64>,
)
    requires
        1 <= nows.len() <= i64::MAX,
        login_rate_limit_service::in_one_run(nows, limit.window_secs as int),
        moment::in_calendar(nows.last().spec_secs() + limit.cooldown_secs),
        later.nanos_since_epoch() < nows.last().nanos_since_epoch() + limit.cooldown_secs
            * 1_000_000_000,
        ({
            let tally = login_rate_limit_service::after_failures(None, limit, nows);
            match left {
                Some(n) => login_rate_limit_service::seconds_left(tally, later) == Some(n as int),
                None => login_rate_limit_service::seconds_left(tally, later) is None,
            }
        }),
    ensures
        login_step(LoginView::CheckRateLimit(request), LoginEvent::SecondsLeft(Ok(left))) == (
        if nows.len() >= limit.max_attempts {
            LoginView::Done(Err(StatusCode::TooManyRequests))
        } else {
            LoginView::ListServers(request)
        }),
{
    login_rate_limit_service::blocks_exactly_at_the_threshold(limit, nows);
    moment::later_by_adds(nows.last(), limit.cooldown_secs as int);
}

/// The logins among these attempts that were accepted, in the order in which the
/// servers were tried.
pub open spec fn accepted_logins(attempts: Seq<Attempt>) -> Seq<SuccessfulServerAuth> {
    attempts.filter(|a: Attempt| a is Succeeded).map_values(|a: Attempt| a->Succeeded_0)
}

/// The servers that turned the user down, in the order in which they were tried.
pub open spec fn servers_refusing(servers: Seq<Server>, attempts: Seq<Attempt>) -> Seq<Server> {
    Seq::new(attempts.len(), |i: int| (servers[i], attempts[i])).filter(
        |p: (Server, Attempt)| p.1 is Failed,
    ).map_values(|p: (Server, Attempt)| p.0)
}

proof fn successes_are_the_accepted_logins(attempts: Seq<Attempt>)
    ensures
        successes(attempts) == accepted_logins(attempts),
    decreases attempts.len(),
{
    reveal(Seq::filter);
    if attempts.len() > 0 {
        let earlier = attempts.drop_last();
        successes_are_the_accepted_logins(earlier);
        let of = |a: Attempt| a->Succeeded_0;
        let kept = earlier.filter(|a: Attempt| a is Succeeded);
        assert(kept.push(attempts.last()).map_values(of) =~= kept.map_values(of).push(
            of(attempts.last()),
        ));
    } else {
        assert(accepted_logins(attempts) =~= Seq::<SuccessfulServerAuth>::empty());
    }
}

proof fn refusals_are_the_servers_refusing(servers: Seq<Server>, attempts: Seq<Attempt>)
    ensures
        refusals(servers, attempts) == servers_refusing(servers, attempts),
    decreases attempts.len(),
{
    reveal(Seq::filter);
    let pairs = Seq::new(attempts.len(), |i: int| (servers[i], attempts[i]));
    if attempts.len() > 0 {
        let earlier = attempts.drop_last();
        refusals_are_the_servers_refusing(servers, earlier);
        let before = Seq::new(earlier.len(), |i: int| (servers[i], earlier[i]));
        assert(pairs.drop_last() =~= before);
        let of = |p: (Server, Attempt)| p.0;
        let kept = before.filter(|p: (Server, Attempt)| p.1 is Failed);
        assert(kept.push(pairs.last()).map_values(of) =~= kept.map_values(of).push(
            of(pairs.last()),
        ));
    } else {
        assert(servers_refusing(servers, attempts) =~= Seq::<Server>::empty());
    }
}

/// What is to be done with these logins once every server was tried: the failure
/// is counted, or the count is cleared and the user looked up.
pub open spec fn is_settled(
    login: LoginView,
    context: LoginContext,
    accepted: Seq<SuccessfulServerAuth>,
) -> bool {
    if context.rate_limit_enabled {
        if accepted.len() > 0 {
            login == LoginView::RecordSuccess(context, accepted)
        } else {
            login == LoginView::RecordFailure(context)
        }
    } else {
        if accepted.len() > 0 {
            login == LoginView::ResolveUser(context, accepted)
        } else {
            login == LoginView::Done(Err(StatusCode::Unauthorized))
        }
    }
}

/// In each of the three rounds, the logins that the round had accepted are added,
/// in order, to those of the rounds before it, and none is lost. Users are created
/// on the servers that turned them down, if there are any and some server accepted
/// the login; else, and after that, the login is settled.
pub proof fn rounds_add_up(
    context: LoginContext,
    mapped: Seq<MappedServer>,
    accepted: Seq<SuccessfulServerAuth>,
    servers: Seq<Server>,
    attempts: Vec<Attempt>,
)
    ensures
        ({
            let event = LoginEvent::Tried(attempts);
            let found = accepted_logins(attempts@);
            let all = accepted + found;
            let refusing = servers_refusing(servers, attempts@);
            &&& attempts@.len() == mapped.len() ==> login_step(
                LoginView::TryMapped(context, mapped, servers),
                event,
            ) == LoginView::TryUnmapped(context, found, servers)
            &&& attempts@.len() == servers.len() ==> {
                let unmapped = login_step(
                    LoginView::TryUnmapped(context, accepted, servers),
                    event,
                );
                let created = login_step(
                    LoginView::TryAutoCreate(context, accepted, servers),
                    event,
                );
                &&& all.len() > 0 && refusing.len() > 0 ==> unmapped == LoginView::TryAutoCreate(
                    context,
                    all,
                    refusing,
                )
                &&& !(all.len() > 0 && refusing.len() > 0) ==> is_settled(unmapped, context, all)
                &&& is_settled(created, context, all)
            }
        }),
        forall|j: int|
            0 <= j < attempts@.len() && (#[trigger] attempts@[j] is Succeeded)
                ==> accepted_logins(attempts@).contains(attempts@[j]->Succeeded_0),
        forall|j: int|
            0 <= j < attempts@.len() && (#[trigger] attempts@[j] is Failed)
                ==> servers_refusing(servers, attempts@).contains(servers[j]),
        forall|s: SuccessfulServerAuth| #[trigger]
            accepted_logins(attempts@).contains(s) ==> attempts@.contains(Attempt::Succeeded(s)),
{
    successes_are_the_accepted_logins(attempts@);
    refusals_are_the_servers_refusing(servers, attempts@);
    each_accepted_login_is_kept(attempts@);
    each_refusal_is_kept(servers, attempts@);
}

proof fn each_accepted_login_is_kept(attempts: Seq<Attempt>)
    ensures
        forall|j: int|
            0 <= j < attempts.len() && (#[trigger] attempts[j] is Succeeded) ==> accepted_logins(
                attempts,
            ).contains(attempts[j]->Succeeded_0),
        forall|s: SuccessfulServerAuth| #[trigger]
            accepted_logins(attempts).contains(s) ==> attempts.contains(Attempt::Succeeded(s)),
{
    broadcast use vstd::seq_lib::group_filter_ensures;

    let succeeded = |a: Attempt| a is Succeeded;
    let kept = attempts.filter(succeeded);
    assert forall|j: int|
        0 <= j < attempts.len() && (#[trigger] attempts[j] is Succeeded) implies accepted_logins(
        attempts,
    ).contains(attempts[j]->Succeeded_0) by {
        assert(succeeded(attempts[j]));
        assert(kept.contains(attempts[j]));
        let i = choose|i: int| 0 <= i < kept.len() && kept[i] == attempts[j];
        assert(accepted_logins(attempts)[i] == attempts[j]->Succeeded_0);
    }
    assert forall|s: SuccessfulServerAuth| #[trigger]
        accepted_logins(attempts).contains(s) implies attempts.contains(Attempt::Succeeded(s)) by {
        let i = choose|i: int|
            0 <= i < accepted_logins(attempts).len() && accepted_logins(attempts)[i] == s;
        assert(succeeded(kept[i]));
        kept_come_from(attempts, succeeded, i);
        assert(kept[i] == Attempt::Succeeded(s));
    }
}

proof fn each_refusal_is_kept(servers: Seq<Server>, attempts: Seq<Attempt>)
    ensures
        forall|j: int|
            0 <= j < attempts.len() && (#[trigger] attempts[j] is Failed) ==> servers_refusing(
                servers,
                attempts,
            ).contains(servers[j]),
{
    broadcast use vstd::seq_lib::group_filter_ensures;

    let pairs = Seq::new(attempts.len(), |i: int| (servers[i], attempts[i]));
    let failed = |p: (Server, Attempt)| p.1 is Failed;
    let kept = pairs.filter(failed);
    assert forall|j: int|
        0 <= j < attempts.len() && (#[trigger] attempts[j] is Failed) implies servers_refusing(
        servers,
        attempts,
    ).contains(servers[j]) by {
        assert(pairs[j] == (servers[j], attempts[j]));
        assert(failed(pairs[j]));
        assert(kept.contains(pairs[j]));
        let i = choose|i: int| 0 <= i < kept.len() && kept[i] == pairs[j];
        assert(servers_refusing(servers, attempts)[i] == servers[j]);
    }
}

proof fn kept_come_from(attempts: Seq<Attempt>, keep: spec_fn(Attempt) -> bool, i: int)
    requires
        0 <= i < attempts.filter(keep).len(),
    ensures
        attempts.contains(attempts.filter(keep)[i]),
    decreases attempts.len(),
{
    reveal(Seq::filter);
    if attempts.len() > 0 {
        let earlier = attempts.drop_last();
        if i < earlier.filter(keep).len() {
            kept_come_from(earlier, keep, i);
            let j = choose|j: int| 0 <= j < earlier.len() && earlier[j] == attempts.filter(keep)[i];
            assert(attempts[j] == attempts.filter(keep)[i]);
        } else {
            assert(attempts[attempts.len() - 1] == attempts.last());
        }
    }
}

/// How many servers a login waits to have been tried, if it is in one of its
/// rounds.
pub open spec fn awaited_attempts(login: LoginView) -> Option<nat> {
    match login {
        LoginView::TryMapped(_, mapped, _) => Some(mapped.len()),
        LoginView::TryUnmapped(_, _, servers) => Some(servers.len()),
        LoginView::TryAutoCreate(_, _, servers) => Some(servers.len()),
        _ => None,
    }
}

/// The logins that servers accepted in the rounds of a run, round after round, each
/// in the order of its servers.
pub open spec fn accepted_in(request: LoginRequest, events: Seq<LoginEvent>) -> Seq<
    SuccessfulServerAuth,
>
    decreases events.len(),
{
    if events.len() == 0 {
        Seq::empty()
    } else {
        let before = events.drop_last();
        let earlier = accepted_in(request, before);
        match events.last() {
            LoginEvent::Tried(attempts) => if awaited_attempts(
                login_run(login_start(request), before),
            ) == Some(attempts@.len()) {
                earlier + accepted_logins(attempts@)
            } else {
                earlier
            },
            _ => earlier,
        }
    }
}

/// Whatever happens in the course of a login, the accepted logins that it goes on
/// with, records and answers from are those of all its rounds so far, in order and
/// with none missing; it gives up only if there are none.
pub proof fn no_accepted_login_is_lost(request: LoginRequest, events: Seq<LoginEvent>)
    ensures
        ({
            let all = accepted_in(request, events);
            match login_run(login_start(request), events) {
                LoginView::TryUnmapped(_, accepted, _) => accepted == all,
                LoginView::TryAutoCreate(_, accepted, _) => accepted == all,
                LoginView::RecordSuccess(_, accepted) => accepted == all,
                LoginView::ResolveUser(_, accepted) => accepted == all,
                LoginView::SaveMapping(_, _, accepted, _) => accepted == all,
                LoginView::StoreSession(_, _, accepted, _) => accepted == all,
                LoginView::ReadServerId(_, _, accepted) => accepted == all,
                LoginView::Done(Err(status)) => all.len() > 0 ==> status
                    == StatusCode::InternalServerError,
                LoginView::Done(Ok(_)) => all.len() > 0,
                _ => all.len() == 0,
            }
        }),
    decreases events.len(),
{
    if events.len() > 0 {
        let before = events.drop_last();
        no_accepted_login_is_lost(request, before);
        login_is_careful(request, before);
        if let LoginEvent::Tried(attempts) = events.last() {
            successes_are_the_accepted_logins(attempts@);
            assert(Seq::<SuccessfulServerAuth>::empty() + accepted_logins(attempts@)
                =~= accepted_logins(attempts@));
        }
    }
}

/// `answer` is what the proxy makes of a server's answer to a login.
pub open spec fn is_answer_from(
    answer: AuthenticateResponse,
    response: AuthenticateResponse,
    user: LocalUser,
    username: String,
    server_id: String,
) -> bool {
    &&& answer.access_token == user.virtual_key
    &&& answer.server_id == server_id
    &&& answer.user.id == user.id
    &&& answer.user.name == username
    &&& answer.user.server_id == server_id
    &&& !answer.user.policy.is_administrator
    &&& answer.user.extra == response.user.extra
    &&& answer.user.policy.extra == response.user.policy.extra
    &&& answer.session_info.user_id == user.id
    &&& answer.session_info.user_name == username
    &&& answer.session_info.server_id == server_id
    &&& answer.session_info.extra == response.session_info.extra
}

/// Whatever happens in the course of a login, the local user that it goes on with
/// is one that was found or created for it, and an answer of success is made of
/// the first accepted login's, under that user's identity and the name given.
pub proof fn answer_is_the_first_servers(request: LoginRequest, events: Seq<LoginEvent>)
    ensures
        match login_run(login_start(request), events) {
            LoginView::SaveMapping(_, user, _, _) => events.contains(LoginEvent::User(Ok(user))),
            LoginView::StoreSession(_, user, _, _) => events.contains(LoginEvent::User(Ok(user))),
            LoginView::ReadServerId(_, user, _) => events.contains(LoginEvent::User(Ok(user))),
            LoginView::Done(Ok(answer)) => exists|user: LocalUser, id: String| #[trigger]
                events.contains(LoginEvent::User(Ok(user))) && #[trigger] events.contains(
                    LoginEvent::ServerId(id),
                ) && is_answer_from(
                    answer,
                    accepted_in(request, events)[0].auth_response,
                    user,
                    request.payload.username,
                    id,
                ),
            _ => true,
        },
    decreases events.len(),
{
    if events.len() > 0 {
        let before = events.drop_last();
        answer_is_the_first_servers(request, before);
        no_accepted_login_is_lost(request, before);
        login_is_careful(request, before);
        assert(events[events.len() - 1] == events.last());
        assert forall|e: LoginEvent| #[trigger] before.contains(e) implies events.contains(e) by {
            let i = choose|i: int| 0 <= i < before.len() && #[trigger] before[i] == e;
            assert(events[i] == e);
        }
        let login = login_run(login_start(request), before);
        if let LoginView::Done(Ok(answer)) = login {
            let (user, id) = choose|user: LocalUser, id: String| #[trigger]
                before.contains(LoginEvent::User(Ok(user))) && #[trigger] before.contains(
                    LoginEvent::ServerId(id),
                ) && is_answer_from(
                    answer,
                    accepted_in(request, before)[0].auth_response,
                    user,
                    request.payload.username,
                    id,
                );
            assert(events.contains(LoginEvent::User(Ok(user))));
            assert(events.contains(LoginEvent::ServerId(id)));
        }
        if let (LoginView::ReadServerId(_, user, _), LoginEvent::ServerId(id)) = (
            login,
            events.last(),
        ) {
            assert(events.contains(LoginEvent::User(Ok(user))));
            assert(events.contains(LoginEvent::ServerId(id)));
        }
    }
}

/// The event is a reason to answer the login with this status.
pub open spec fn explains(request: LoginRequest, event: LoginEvent, status: StatusCode) -> bool {
    match status {
        StatusCode::TooManyRequests => event matches LoginEvent::SecondsLeft(Ok(Some(_))),
        StatusCode::NotFound => event matches LoginEvent::Servers(Ok(servers)) && servers@.len()
            == 0,
        StatusCode::BadRequest => {
            ||| event matches LoginEvent::HeaderParsed(None)
            ||| event matches LoginEvent::Servers(Ok(servers)) && servers@.len() > 0
                && request.header is None
        },
        StatusCode::Unauthorized => event matches LoginEvent::AutoCreate(false)
            || event matches LoginEvent::Tried(_),
        StatusCode::InternalServerError => {
            ||| event matches LoginEvent::SecondsLeft(Err(_))
            ||| event matches LoginEvent::Servers(Err(_))
            ||| event matches LoginEvent::ExistingUser(Err(_))
            ||| event matches LoginEvent::Mappings(Err(_))
            ||| event matches LoginEvent::User(Err(_))
            ||| event matches LoginEvent::MappingSaved(Err(_))
            ||| event matches LoginEvent::SessionStored(Err(_))
        },
        _ => false,
    }
}

/// Whatever happens in the course of a login, it is answered with an error only for
/// a reason that some event gives: the client is blocked, there is no server, the
/// header is missing or cannot be read, no user may be created or no server
/// accepted the login, or the proxy's own records failed.
pub proof fn errors_have_a_reason(request: LoginRequest, events: Seq<LoginEvent>)
    ensures
        login_run(login_start(request), events) matches LoginView::Done(Err(status)) ==> exists|i:
            int|
            0 <= i < events.len() && explains(request, #[trigger] events[i], status),
        login_run(login_start(request), events) is RecordFailure ==> exists|i: int|
            0 <= i < events.len() && #[trigger] events[i] is Tried,
    decreases events.len(),
{
    if events.len() > 0 {
        let before = events.drop_last();
        errors_have_a_reason(request, before);
        login_is_careful(request, before);
        assert(events[events.len() - 1] == events.last());
        let login = login_run(login_start(request), before);
        if let LoginView::Done(Err(status)) = login {
            let i = choose|i: int|
                0 <= i < before.len() && explains(request, #[trigger] before[i], status);
            assert(events[i] == before[i]);
        }
        if login is RecordFailure {
            let i = choose|i: int| 0 <= i < before.len() && #[trigger] before[i] is Tried;
            assert(events[i] == before[i]);
            assert(explains(request, events[i], StatusCode::Unauthorized));
        }
    }
}

/// A login goes its way stage by stage, and keeps what it has learned: a client
/// that is free, the servers, the authorization, the local user and their
/// accounts.
pub proof fn login_takes_its_course(
    request: LoginRequest,
    context: LoginContext,
    listed: Vec<Server>,
    servers: Seq<Server>,
    authorization: Authorization,
    user: LocalUser,
    mappings: Vec<ServerMapping>,
    accepted: Seq<SuccessfulServerAuth>,
    counted: bool,
)
    ensures
        login_step(
            LoginView::ListMappings(context, servers, user),
            LoginEvent::Mappings(Ok(mappings)),
        ) == LoginView::TryMapped(
            context,
            divided(servers, mappings@).0,
            divided(servers, mappings@).1,
        ),
        login_start(request) == (if request.rate_limit_enabled {
            LoginView::CheckRateLimit(request)
        } else {
            LoginView::ListServers(request)
        }),
        login_step(LoginView::CheckRateLimit(request), LoginEvent::SecondsLeft(Ok(None)))
            == LoginView::ListServers(request),
        listed@.len() > 0 && request.header is Some ==> login_step(
            LoginView::ListServers(request),
            LoginEvent::Servers(Ok(listed)),
        ) == LoginView::ParseHeader(request, listed@),
        login_step(
            LoginView::ParseHeader(request, servers),
            LoginEvent::HeaderParsed(Some(authorization)),
        ) == LoginView::FindUser(
            LoginContext {
                payload: request.payload,
                client_ip: request.client_ip,
                authorization,
                rate_limit_enabled: request.rate_limit_enabled,
            },
            servers,
        ),
        login_step(
            LoginView::FindUser(context, servers),
            LoginEvent::ExistingUser(Ok(Some(user))),
        ) == LoginView::ListMappings(context, servers, user),
        login_step(LoginView::FindUser(context, servers), LoginEvent::ExistingUser(Ok(None)))
            == LoginView::CheckAutoCreate(context, servers),
        login_step(LoginView::CheckAutoCreate(context, servers), LoginEvent::AutoCreate(true))
            == LoginView::TryUnmapped(context, Seq::empty(), servers),
        login_step(LoginView::RecordSuccess(context, accepted), LoginEvent::Counted(counted))
            == LoginView::ResolveUser(context, accepted),
        login_step(LoginView::ResolveUser(context, accepted), LoginEvent::User(Ok(user)))
            == LoginView::SaveMapping(context, user, accepted, 0),
{
}

/// The reasons to turn a login down take effect at once.
pub proof fn login_is_turned_down(
    request: LoginRequest,
    context: LoginContext,
    listed: Vec<Server>,
    servers: Seq<Server>,
    user: LocalUser,
    accepted: Seq<SuccessfulServerAuth>,
    at: int,
    seconds: i64,
    counted: bool,
    error: StorageError,
)
    ensures
        ({
            let failed = |status: StatusCode| LoginView::Done(Err(status));
            &&& login_step(
                LoginView::CheckRateLimit(request),
                LoginEvent::SecondsLeft(Ok(Some(seconds))),
            ) == failed(StatusCode::TooManyRequests)
            &&& listed@.len() == 0 ==> login_step(
                LoginView::ListServers(request),
                LoginEvent::Servers(Ok(listed)),
            ) == failed(StatusCode::NotFound)
            &&& listed@.len() > 0 && request.header is None ==> login_step(
                LoginView::ListServers(request),
                LoginEvent::Servers(Ok(listed)),
            ) == failed(StatusCode::BadRequest)
            &&& login_step(
                LoginView::ParseHeader(request, servers),
                LoginEvent::HeaderParsed(None),
            ) == failed(StatusCode::BadRequest)
            &&& login_step(
                LoginView::CheckAutoCreate(context, servers),
                LoginEvent::AutoCreate(false),
            ) == failed(StatusCode::Unauthorized)
            &&& login_step(LoginView::RecordFailure(context), LoginEvent::Counted(counted))
                == failed(StatusCode::Unauthorized)
            &&& login_step(LoginView::CheckRateLimit(request), LoginEvent::SecondsLeft(Err(error)))
                == failed(StatusCode::InternalServerError)
            &&& login_step(LoginView::ListServers(request), LoginEvent::Servers(Err(error)))
                == failed(StatusCode::InternalServerError)
            &&& login_step(
                LoginView::FindUser(context, servers),
                LoginEvent::ExistingUser(Err(error)),
            ) == failed(StatusCode::InternalServerError)
            &&& login_step(
                LoginView::ListMappings(context, servers, user),
                LoginEvent::Mappings(Err(error)),
            ) == failed(StatusCode::InternalServerError)
            &&& login_step(LoginView::ResolveUser(context, accepted), LoginEvent::User(Err(error)))
                == failed(StatusCode::InternalServerError)
            &&& login_step(
                LoginView::SaveMapping(context, user, accepted, at),
                LoginEvent::MappingSaved(Err(error)),
            ) == failed(StatusCode::InternalServerError)
            &&& login_step(
                LoginView::StoreSession(context, user, accepted, at),
                LoginEvent::SessionStored(Err(error)),
            ) == failed(StatusCode::InternalServerError)
        }),
{
}

/// An event that does not answer the pending work changes nothing, nor do attempts
/// that are not one for each server.
pub proof fn stray_events_change_nothing(login: LoginView, event: LoginEvent)
    ensures
        login_step(login, event) == login || {
            ||| login is CheckRateLimit && event is SecondsLeft
            ||| login is ListServers && event is Servers
            ||| login is ParseHeader && event is HeaderParsed
            ||| login is FindUser && event is ExistingUser
            ||| login is CheckAutoCreate && event is AutoCreate
            ||| login is ListMappings && event is Mappings
            ||| event matches LoginEvent::Tried(attempts) && awaited_attempts(login) == Some(
                attempts@.len(),
            )
            ||| login is RecordFailure && event is Counted
            ||| login is RecordSuccess && event is Counted
            ||| login is ResolveUser && event is User
            ||| login is SaveMapping && event is MappingSaved
            ||| login is StoreSession && event is SessionStored
            ||| login is ReadServerId && event is ServerId
        },
{
}

/// `a` stands somewhere before `b`.
pub open spec fn comes_before<A>(all: Seq<A>, a: A, b: A) -> bool {
    exists|p: int, q: int| 0 <= p < q < all.len() && #[trigger] all[p] == a && #[trigger] all[q] == b
}

/// A recorded account is passed over only where no server that is left is the one
/// it is for. The accounts are taken in the order in which they are recorded, and
/// the servers that are left keep theirs.
pub proof fn recorded_accounts_are_used(servers: Seq<Server>, mappings: Seq<ServerMapping>)
    ensures
        ({
            let (mapped, left) = divided(servers, mappings);
            &&& forall|i: int, j: int|
                0 <= i < mappings.len() && 0 <= j < left.len() && (#[trigger] left[j]).id == (
                #[trigger] mappings[i]).server_id ==> exists|k: int|
                    0 <= k < mapped.len() && (#[trigger] mapped[k]).mapping == mappings[i]
            &&& forall|i: int, j: int|
                0 <= i < j < mapped.len() ==> comes_before(
                    mappings,
                    (#[trigger] mapped[i]).mapping,
                    (#[trigger] mapped[j]).mapping,
                )
            &&& forall|i: int, j: int|
                0 <= i < j < left.len() ==> comes_before(
                    servers,
                    #[trigger] left[i],
                    #[trigger] left[j],
                )
        }),
    decreases mappings.len(),
{
    if mappings.len() > 0 {
        let earlier = mappings.drop_last();
        let n = mappings.len() - 1;
        recorded_accounts_are_used(servers, earlier);
        each_server_is_tried_once(servers, earlier);
        let (mapped, left) = divided(servers, earlier);
        let (mapped1, left1) = divided(servers, mappings);
        let at = server::position_of(left, mappings.last().server_id);
        server::position_is_of_that_server(left, mappings.last().server_id);
        assert forall|i: int, j: int|
            0 <= i < mappings.len() && 0 <= j < left1.len() && (#[trigger] left1[j]).id == (
            #[trigger] mappings[i]).server_id implies exists|k: int|
            0 <= k < mapped1.len() && (#[trigger] mapped1[k]).mapping == mappings[i] by {
            if i == n {
                if at >= left.len() {
                    assert(left[j].id == mappings.last().server_id);
                } else {
                    assert(mapped1[mapped.len() as int].mapping == mappings[i]);
                }
            } else {
                let j0 = if at < left.len() && j >= at {
                    j + 1
                } else {
                    j
                };
                assert(left1[j] == left[j0]);
                assert(earlier[i] == mappings[i]);
                let k = choose|k: int|
                    0 <= k < mapped.len() && (#[trigger] mapped[k]).mapping == earlier[i];
                assert(mapped1[k] == mapped[k]);
            }
        }
        assert forall|i: int, j: int| 0 <= i < j < mapped1.len() implies comes_before(
            mappings,
            (#[trigger] mapped1[i]).mapping,
            (#[trigger] mapped1[j]).mapping,
        ) by {
            assert(mapped1[i] == mapped[i]);
            if j < mapped.len() {
                assert(mapped1[j] == mapped[j]);
                let (p, q) = choose|p: int, q: int|
                    0 <= p < q < earlier.len() && #[trigger] earlier[p] == mapped[i].mapping
                        && #[trigger] earlier[q] == mapped[j].mapping;
                assert(mappings[p] == mapped[i].mapping && mappings[q] == mapped[j].mapping);
            } else {
                assert(earlier.contains(mapped[i].mapping));
                let p = choose|p: int| 0 <= p < earlier.len() && earlier[p] == mapped[i].mapping;
                assert(mappings[p] == mapped[i].mapping && mappings[n] == mapped1[j].mapping);
            }
        }
        assert forall|i: int, j: int| 0 <= i < j < left1.len() implies comes_before(
            servers,
            #[trigger] left1[i],
            #[trigger] left1[j],
        ) by {
            let i0 = if at < left.len() && i >= at {
                i + 1
            } else {
                i
            };
            let j0 = if at < left.len() && j >= at {
                j + 1
            } else {
                j
            };
            assert(left1[i] == left[i0] && left1[j] == left[j0]);
        }
    }
}

/// The logins that a state past its rounds goes on with, or that are known in the
/// last round, are these.
pub open spec fn goes_on_with(login: LoginView, accepted: Seq<SuccessfulServerAuth>) -> bool {
    match login {
        LoginView::TryAutoCreate(_, known, _) => known == accepted,
        LoginView::RecordSuccess(_, known) => known == accepted,
        LoginView::ResolveUser(_, known) => known == accepted,
        _ => false,
    }
}

/// A login that a server accepts, in the round of the servers without a recorded
/// account or in that of the accounts created, is among those that the login goes on
/// with, and so is every one accepted before.
pub proof fn accepted_login_is_kept(
    context: LoginContext,
    accepted: Seq<SuccessfulServerAuth>,
    servers: Seq<Server>,
    attempts: Vec<Attempt>,
    j: int,
)
    requires
        attempts@.len() == servers.len(),
        0 <= j < attempts@.len(),
        attempts@[j] is Succeeded,
    ensures
        exists|all: Seq<SuccessfulServerAuth>| #[trigger]
            goes_on_with(
                login_step(
                    LoginView::TryUnmapped(context, accepted, servers),
                    LoginEvent::Tried(attempts),
                ),
                all,
            ) && all.contains(attempts@[j]->Succeeded_0) && accepted.is_prefix_of(all),
        exists|all: Seq<SuccessfulServerAuth>| #[trigger]
            goes_on_with(
                login_step(
                    LoginView::TryAutoCreate(context, accepted, servers),
                    LoginEvent::Tried(attempts),
                ),
                all,
            ) && all.contains(attempts@[j]->Succeeded_0) && accepted.is_prefix_of(all),
{
    let found = accepted_logins(attempts@);
    let all = accepted + found;
    rounds_add_up(context, Seq::empty(), accepted, servers, attempts);
    let s = attempts@[j]->Succeeded_0;
    assert(found.contains(s));
    let i = choose|i: int| 0 <= i < found.len() && found[i] == s;
    assert(all[accepted.len() + i] == s);
    assert(accepted.is_prefix_of(all));
    assert(goes_on_with(
        login_step(
            LoginView::TryUnmapped(context, accepted, servers),
            LoginEvent::Tried(attempts),
        ),
        all,
    ));
    assert(goes_on_with(
        login_step(
            LoginView::TryAutoCreate(context, accepted, servers),
            LoginEvent::Tried(attempts),
        ),
        all,
    ));
}

} // verus!
