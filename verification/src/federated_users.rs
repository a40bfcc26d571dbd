//! Creating and deleting users' accounts on the servers behind the proxy.
//!
//! Each flow is a state that names the outside work to do next. The outcome of
//! that work is an event, which leads to the next state; an event that does not
//! answer the pending work changes nothing.

use vstd::prelude::*;

use crate::encryption::Password;
use crate::server::{AccountToRecord, Server, ServerAdmin};
use crate::storage::StorageError;
use crate::text;

verus! {

#[derive(Clone, Copy, Debug, PartialEq, Eq, Structural)]
pub enum SyncStatus {
    Created,
    AlreadyExists,
    ExistsWithDifferentPassword,
    Failed,
    Skipped,
    Deleted,
    NotFound,
}

/// What a sync did on one server, for display.
#[derive(Debug)]
pub struct ServerSyncResult {
    pub server_name: String,
    pub status: SyncStatus,
    pub message: Option<String>,
}

/// Why a sync ended as it did. The texts are those of the failed operations.
#[derive(Debug)]
pub enum SyncReason {
    NoAdminCredentials,
    AdminCredentials(String),
    AdminPassword,
    Client(String),
    AdminAuth(String),
    ListUsers(String),
    DifferentPassword,
    LocalMapping(String),
    Create(String),
    Delete(String),
}

/// What a sync did on one server.
#[derive(Debug)]
pub struct SyncOutcome {
    pub server_name: String,
    pub status: SyncStatus,
    pub reason: Option<SyncReason>,
}

/// An account on a server.
#[derive(Debug)]
pub struct RemoteUser {
    pub id: String,
    pub name: String,
}

impl SyncStatus {
    pub open spec fn spec_name(self) -> Seq<char> {
        match self {
            SyncStatus::Created => "Created"@,
            SyncStatus::AlreadyExists => "AlreadyExists"@,
            SyncStatus::ExistsWithDifferentPassword => "ExistsWithDifferentPassword"@,
            SyncStatus::Failed => "Failed"@,
            SyncStatus::Skipped => "Skipped"@,
            SyncStatus::Deleted => "Deleted"@,
            SyncStatus::NotFound => "NotFound"@,
        }
    }

    /// The name of the status.
    pub fn name(self) -> (r: &'static str)
        ensures
            r@ == self.spec_name(),
    {
        match self {
            SyncStatus::Created => "Created",
            SyncStatus::AlreadyExists => "AlreadyExists",
            SyncStatus::ExistsWithDifferentPassword => "ExistsWithDifferentPassword",
            SyncStatus::Failed => "Failed",
            SyncStatus::Skipped => "Skipped",
            SyncStatus::Deleted => "Deleted",
            SyncStatus::NotFound => "NotFound",
        }
    }
}

impl SyncReason {
    pub open spec fn spec_text(self) -> Seq<char> {
        match self {
            SyncReason::NoAdminCredentials => "No admin credentials"@,
            SyncReason::AdminCredentials(error) => "Failed to get admin creds: "@ + error@,
            SyncReason::AdminPassword => "Failed to decrypt admin password"@,
            SyncReason::Client(error) => "Client error: "@ + error@,
            SyncReason::AdminAuth(error) => "Admin auth failed: "@ + error@,
            SyncReason::ListUsers(error) => "Failed to list users: "@ + error@,
            SyncReason::DifferentPassword => "User exists with different password"@,
            SyncReason::LocalMapping(error) => "Failed to save local mapping: "@ + error@,
            SyncReason::Create(error) => "Sync failed: "@ + error@,
            SyncReason::Delete(error) => "Delete failed: "@ + error@,
        }
    }

    /// The reason in words.
    pub fn text(&self) -> (r: String)
        ensures
            r@ == self.spec_text(),
    {
        match self {
            SyncReason::NoAdminCredentials => "No admin credentials".to_owned(),
            SyncReason::AdminCredentials(error) => text::join(
                "Failed to get admin creds: ",
                error.as_str(),
            ),
            SyncReason::AdminPassword => "Failed to decrypt admin password".to_owned(),
            SyncReason::Client(error) => text::join("Client error: ", error.as_str()),
            SyncReason::AdminAuth(error) => text::join("Admin auth failed: ", error.as_str()),
            SyncReason::ListUsers(error) => text::join("Failed to list users: ", error.as_str()),
            SyncReason::DifferentPassword => "User exists with different password".to_owned(),
            SyncReason::LocalMapping(error) => text::join(
                "Failed to save local mapping: ",
                error.as_str(),
            ),
            SyncReason::Create(error) => text::join("Sync failed: ", error.as_str()),
            SyncReason::Delete(error) => text::join("Delete failed: ", error.as_str()),
        }
    }
}

/// `shown` displays `outcome`.
pub open spec fn displays(shown: ServerSyncResult, outcome: SyncOutcome) -> bool {
    &&& shown.server_name == outcome.server_name
    &&& shown.status == outcome.status
    &&& match outcome.reason {
        Some(reason) => shown.message matches Some(message) && message@ == reason.spec_text(),
        None => shown.message is None,
    }
}

impl SyncOutcome {
    /// The outcome in words.
    pub fn display(self) -> (r: ServerSyncResult)
        ensures
            displays(r, self),
            r.server_name == self.server_name,
            r.status == self.status,
            r.message is Some <==> self.reason is Some,
            self.reason matches Some(reason) ==> r.message->0@ == reason.spec_text(),
    {
        let message = match self.reason {
            Some(reason) => Some(reason.text()),
            None => None,
        };
        ServerSyncResult { server_name: self.server_name, status: self.status, message }
    }
}

pub open spec fn outcome(
    server: Server,
    status: SyncStatus,
    reason: Option<SyncReason>,
) -> SyncOutcome {
    SyncOutcome { server_name: server.name, status, reason }
}

fn make_outcome(server: &Server, status: SyncStatus, reason: Option<SyncReason>) -> (r: SyncOutcome)
    ensures
        r == outcome(*server, status, reason),
{
    SyncOutcome { server_name: server.name.clone(), status, reason }
}

/// Opening a session as a server's administrator and listing its accounts.
pub enum AdminSession {
    /// Look up the server's admin credentials.
    LoadAdmin(Server),
    /// Decrypt the password of the credentials with the proxy's own.
    DecryptPassword(Server, ServerAdmin),
    /// Set up a client for the server.
    Connect(Server, String, Password),
    /// Log in as the administrator.
    Authenticate(Server, String, Password),
    /// List the accounts on the server.
    ListUsers(Server),
    /// The accounts are known.
    Ready(Server, Vec<RemoteUser>),
    /// The session could not be opened.
    Failed(SyncOutcome),
}

/// The outcome of a step of opening a session.
pub enum AdminSessionEvent {
    Admin(Result<Option<ServerAdmin>, StorageError>),
    Decrypted(Result<Password, String>),
    Connected(Result<(), String>),
    Authenticated(Result<(), String>),
    Users(Result<Vec<RemoteUser>, String>),
}

pub open spec fn session_failed(
    server: Server,
    status: SyncStatus,
    reason: SyncReason,
) -> AdminSession {
    AdminSession::Failed(outcome(server, status, Some(reason)))
}

pub open spec fn session_step(session: AdminSession, event: AdminSessionEvent) -> AdminSession {
    match (session, event) {
        (AdminSession::LoadAdmin(server), AdminSessionEvent::Admin(loaded)) => match loaded {
            Ok(Some(admin)) => AdminSession::DecryptPassword(server, admin),
            Ok(None) => session_failed(server, SyncStatus::Skipped, SyncReason::NoAdminCredentials),
            Err(error) => session_failed(
                server,
                SyncStatus::Failed,
                SyncReason::AdminCredentials(error.text),
            ),
        },
        (
            AdminSession::DecryptPassword(server, admin),
            AdminSessionEvent::Decrypted(decrypted),
        ) => match decrypted {
            Ok(password) => AdminSession::Connect(server, admin.username, password),
            Err(_) => session_failed(server, SyncStatus::Failed, SyncReason::AdminPassword),
        },
        (
            AdminSession::Connect(server, username, password),
            AdminSessionEvent::Connected(connected),
        ) => match connected {
            Ok(()) => AdminSession::Authenticate(server, username, password),
            Err(error) => session_failed(server, SyncStatus::Failed, SyncReason::Client(error)),
        },
        (
            AdminSession::Authenticate(server, _, _),
            AdminSessionEvent::Authenticated(authenticated),
        ) => match authenticated {
            Ok(()) => AdminSession::ListUsers(server),
            Err(error) => session_failed(server, SyncStatus::Failed, SyncReason::AdminAuth(error)),
        },
        (AdminSession::ListUsers(server), AdminSessionEvent::Users(listed)) => match listed {
            Ok(users) => AdminSession::Ready(server, users),
            Err(error) => session_failed(server, SyncStatus::Failed, SyncReason::ListUsers(error)),
        },
        _ => session,
    }
}

impl AdminSession {
    /// Takes the outcome of the pending work into account.
    pub fn advance(self, event: AdminSessionEvent) -> (r: AdminSession)
        ensures
            r == session_step(self, event),
    {
        match (self, event) {
            (AdminSession::LoadAdmin(server), AdminSessionEvent::Admin(loaded)) => match loaded {
                Ok(Some(admin)) => AdminSession::DecryptPassword(server, admin),
                Ok(None) => AdminSession::Failed(
                    make_outcome(
                        &server,
                        SyncStatus::Skipped,
                        Some(SyncReason::NoAdminCredentials),
                    ),
                ),
                Err(error) => AdminSession::Failed(
                    make_outcome(
                        &server,
                        SyncStatus::Failed,
                        Some(SyncReason::AdminCredentials(error.text)),
                    ),
                ),
            },
            (
                AdminSession::DecryptPassword(server, admin),
                AdminSessionEvent::Decrypted(decrypted),
            ) => match decrypted {
                Ok(password) => AdminSession::Connect(server, admin.username, password),
                Err(_) => AdminSession::Failed(
                    make_outcome(&server, SyncStatus::Failed, Some(SyncReason::AdminPassword)),
                ),
            },
            (
                AdminSession::Connect(server, username, password),
                AdminSessionEvent::Connected(connected),
            ) => match connected {
                Ok(()) => AdminSession::Authenticate(server, username, password),
                Err(error) => AdminSession::Failed(
                    make_outcome(&server, SyncStatus::Failed, Some(SyncReason::Client(error))),
                ),
            },
            (
                AdminSession::Authenticate(server, _, _),
                AdminSessionEvent::Authenticated(authenticated),
            ) => match authenticated {
                Ok(()) => AdminSession::ListUsers(server),
                Err(error) => AdminSession::Failed(
                    make_outcome(&server, SyncStatus::Failed, Some(SyncReason::AdminAuth(error))),
                ),
            },
            (AdminSession::ListUsers(server), AdminSessionEvent::Users(listed)) => match listed {
                Ok(users) => AdminSession::Ready(server, users),
                Err(error) => AdminSession::Failed(
                    make_outcome(&server, SyncStatus::Failed, Some(SyncReason::ListUsers(error))),
                ),
            },
            (session, _) => session,
        }
    }
}

/// The first account in the list whose name is `username`, in either case.
pub open spec fn first_named(users: Seq<RemoteUser>, username: Seq<char>) -> Option<RemoteUser>
    decreases users.len(),
{
    if users.len() == 0 {
        None
    } else if text::same_ignoring_ascii_case(users[0].name@, username) {
        Some(users[0])
    } else {
        first_named(users.drop_first(), username)
    }
}

/// The name of `user` is `username`: as long, and letter for letter the same but for
/// the case of ASCII letters.
pub open spec fn is_called(user: RemoteUser, username: Seq<char>) -> bool {
    text::same_letters(user.name@, username)
}

/// The account at `i` is called `username`, and none before it is.
pub open spec fn is_first_called(users: Seq<RemoteUser>, i: int, username: Seq<char>) -> bool {
    &&& 0 <= i < users.len()
    &&& is_called(users[i], username)
    &&& forall|j: int| 0 <= j < i ==> !is_called(#[trigger] users[j], username)
}

/// No account in the list is called `username`.
pub open spec fn none_called(users: Seq<RemoteUser>, username: Seq<char>) -> bool {
    forall|j: int| 0 <= j < users.len() ==> !is_called(#[trigger] users[j], username)
}

/// The account that is found is called by the username and stands before all others
/// that are; none is found exactly when none is called so.
pub proof fn found_account_has_the_name(users: Seq<RemoteUser>, username: Seq<char>)
    ensures
        first_named(users, username) matches Some(user) ==> exists|i: int| #[trigger]
            is_first_called(users, i, username) && users[i] == user,
        first_named(users, username) is None <==> none_called(users, username),
        forall|i: int| #[trigger]
            is_first_called(users, i, username) ==> first_named(users, username) == Some(users[i]),
    decreases users.len(),
{
    if users.len() > 0 {
        let rest = users.drop_first();
        text::same_up_to_case_letter_by_letter(users[0].name@, username);
        found_account_has_the_name(rest, username);
        if is_called(users[0], username) {
            assert(is_first_called(users, 0, username));
        } else {
            if let Some(user) = first_named(rest, username) {
                let i = choose|i: int| #[trigger]
                    is_first_called(rest, i, username) && rest[i] == user;
                assert forall|j: int| 0 <= j < i + 1 implies !is_called(
                    #[trigger] users[j],
                    username,
                ) by {
                    if j > 0 {
                        assert(rest[j - 1] == users[j]);
                    }
                }
                assert(users[i + 1] == rest[i]);
                assert(is_first_called(users, i + 1, username));
            } else {
                assert forall|j: int| 0 <= j < users.len() implies !is_called(
                    #[trigger] users[j],
                    username,
                ) by {
                    if j > 0 {
                        assert(rest[j - 1] == users[j]);
                    }
                }
            }
        }
        assert forall|i: int| #[trigger] is_first_called(users, i, username) implies first_named(
            users,
            username,
        ) == Some(users[i]) by {
            if is_called(users[0], username) {
                if i > 0 {
                    assert(!is_called(users[0], username));
                }
            } else {
                assert(rest[i - 1] == users[i]);
                assert forall|j: int| 0 <= j < i - 1 implies !is_called(
                    #[trigger] rest[j],
                    username,
                ) by {
                    assert(rest[j] == users[j + 1]);
                }
                assert(is_first_called(rest, i - 1, username));
            }
        }
    }
}

/// The id of the first account in the list whose name is `username`, in either case.
pub fn find_account(users: &Vec<RemoteUser>, username: &str) -> (r: Option<String>)
    ensures
        r matches Some(id) ==> exists|i: int| #[trigger]
            is_first_called(users@, i, username@) && users@[i].id == id,
        r is None <==> none_called(users@, username@),
        r == (match first_named(users@, username@) {
            Some(user) => Some(user.id),
            None => None,
        }),
{
    let mut i: usize = 0;
    proof {
        found_account_has_the_name(users@, username@);
    }
    assert(users@.skip(0) =~= users@);
    while i < users.len()
        invariant
            i <= users@.len(),
            first_named(users@, username@) == first_named(users@.skip(i as int), username@),
        decreases users@.len() - i,
    {
        if text::same_ignoring_case(users[i].name.as_str(), username) {
            proof {
                found_account_has_the_name(users@, username@);
            }
            return Some(users[i].id.clone());
        }
        assert(users@.skip(i as int).drop_first() =~= users@.skip(i + 1));
        i = i + 1;
    }
    None
}

/// A user to be synced to a server.
pub struct SyncRequest {
    pub server: Server,
    pub username: String,
    pub password: Password,
    /// The id of the local user.
    pub user_id: String,
}

/// Creating a user's account on one server, or checking the one that is there.
pub enum SyncUser {
    /// Open a session as the server's administrator.
    Opening(SyncRequest, AdminSession),
    /// The account with this id has the username: set up a client to try the password.
    ConnectAsUser(SyncRequest, String),
    /// Try the password on that account.
    AuthenticateAsUser(SyncRequest, String),
    /// No account has the username: create it.
    CreateAccount(SyncRequest),
    /// Record the account for the local user, the password encrypted with itself.
    SaveMapping(SyncRequest, SyncStatus),
    Done(SyncOutcome),
}

/// The outcome of a step of a sync.
pub enum SyncEvent {
    Session(AdminSessionEvent),
    UserConnected(Result<(), String>),
    /// Whether the account accepted the password.
    UserAuthenticated(bool),
    Created(Result<(), String>),
    MappingSaved(Result<(), StorageError>),
}

/// Where a sync goes once its administrator's session has moved on.
pub open spec fn sync_opened(request: SyncRequest, session: AdminSession) -> SyncUser {
    match session {
        AdminSession::Ready(_, users) => match first_named(users@, request.username@) {
            Some(user) => SyncUser::ConnectAsUser(request, user.id),
            None => SyncUser::CreateAccount(request),
        },
        AdminSession::Failed(failure) => SyncUser::Done(failure),
        _ => SyncUser::Opening(request, session),
    }
}

pub open spec fn sync_done(
    request: SyncRequest,
    status: SyncStatus,
    reason: Option<SyncReason>,
) -> SyncUser {
    SyncUser::Done(outcome(request.server, status, reason))
}

pub open spec fn sync_step(sync: SyncUser, event: SyncEvent) -> SyncUser {
    match (sync, event) {
        (SyncUser::Opening(request, session), SyncEvent::Session(answer)) => sync_opened(
            request,
            session_step(session, answer),
        ),
        (SyncUser::ConnectAsUser(request, remote_id), SyncEvent::UserConnected(connected)) => {
            match connected {
                Ok(()) => SyncUser::AuthenticateAsUser(request, remote_id),
                Err(error) => sync_done(
                    request,
                    SyncStatus::Failed,
                    Some(SyncReason::Client(error)),
                ),
            }
        },
        (SyncUser::AuthenticateAsUser(request, _), SyncEvent::UserAuthenticated(accepted)) => {
            if accepted {
                SyncUser::SaveMapping(request, SyncStatus::AlreadyExists)
            } else {
                sync_done(
                    request,
                    SyncStatus::ExistsWithDifferentPassword,
                    Some(SyncReason::DifferentPassword),
                )
            }
        },
        (SyncUser::CreateAccount(request), SyncEvent::Created(created)) => match created {
            Ok(()) => SyncUser::SaveMapping(request, SyncStatus::Created),
            Err(error) => sync_done(request, SyncStatus::Failed, Some(SyncReason::Create(error))),
        },
        (SyncUser::SaveMapping(request, status), SyncEvent::MappingSaved(saved)) => match saved {
            Ok(()) => sync_done(request, status, None),
            Err(error) => sync_done(
                request,
                SyncStatus::Failed,
                Some(SyncReason::LocalMapping(error.text)),
            ),
        },
        _ => sync,
    }
}

pub open spec fn sync_start(request: SyncRequest) -> SyncUser {
    SyncUser::Opening(request, AdminSession::LoadAdmin(request.server))
}

/// The account to record for a synced user, the password encrypted with itself.
pub fn account_to_record(request: &SyncRequest) -> (r: AccountToRecord)
    ensures
        r == (AccountToRecord {
            user_id: request.user_id,
            server: request.server,
            username: request.username,
            password: request.password,
            key: request.password,
        }),
{
    AccountToRecord {
        user_id: request.user_id.clone(),
        server: request.server.clone(),
        username: request.username.clone(),
        password: request.password.clone(),
        key: request.password.clone(),
    }
}

impl SyncUser {
    /// Takes the outcome of the pending work into account.
    pub fn advance(self, event: SyncEvent) -> (r: SyncUser)
        ensures
            r == sync_step(self, event),
    {
        match (self, event) {
            (SyncUser::Opening(request, session), SyncEvent::Session(answer)) => {
                match session.advance(answer) {
                    AdminSession::Ready(_, users) => {
                        match find_account(&users, request.username.as_str()) {
                            Some(remote_id) => SyncUser::ConnectAsUser(request, remote_id),
                            None => SyncUser::CreateAccount(request),
                        }
                    },
                    AdminSession::Failed(failure) => SyncUser::Done(failure),
                    opening => SyncUser::Opening(request, opening),
                }
            },
            (SyncUser::ConnectAsUser(request, remote_id), SyncEvent::UserConnected(connected)) => {
                match connected {
                    Ok(()) => SyncUser::AuthenticateAsUser(request, remote_id),
                    Err(error) => SyncUser::Done(
                        make_outcome(
                            &request.server,
                            SyncStatus::Failed,
                            Some(SyncReason::Client(error)),
                        ),
                    ),
                }
            },
            (SyncUser::AuthenticateAsUser(request, _), SyncEvent::UserAuthenticated(accepted)) => {
                if accepted {
                    SyncUser::SaveMapping(request, SyncStatus::AlreadyExists)
                } else {
                    SyncUser::Done(
                        make_outcome(
                            &request.server,
                            SyncStatus::ExistsWithDifferentPassword,
                            Some(SyncReason::DifferentPassword),
                        ),
                    )
                }
            },
            (SyncUser::CreateAccount(request), SyncEvent::Created(created)) => match created {
                Ok(()) => SyncUser::SaveMapping(request, SyncStatus::Created),
                Err(error) => SyncUser::Done(
                    make_outcome(
                        &request.server,
                        SyncStatus::Failed,
                        Some(SyncReason::Create(error)),
                    ),
                ),
            },
            (SyncUser::SaveMapping(request, status), SyncEvent::MappingSaved(saved)) => {
                match saved {
                    Ok(()) => SyncUser::Done(make_outcome(&request.server, status, None)),
                    Err(error) => SyncUser::Done(
                        make_outcome(
                            &request.server,
                            SyncStatus::Failed,
                            Some(SyncReason::LocalMapping(error.text)),
                        ),
                    ),
                }
            },
            (sync, _) => sync,
        }
    }
}

/// Deleting a user's account on one server.
pub enum DeleteUser {
    /// Open a session as the server's administrator.
    Opening(Server, String, AdminSession),
    /// Delete the account with this id.
    DeleteAccount(Server, String),
    Done(SyncOutcome),
}

/// The outcome of a step of a deletion.
pub enum DeleteEvent {
    Session(AdminSessionEvent),
    Deleted(Result<(), String>),
}

/// Where a deletion goes once its administrator's session has moved on.
pub open spec fn delete_opened(
    server: Server,
    username: String,
    session: AdminSession,
) -> DeleteUser {
    match session {
        AdminSession::Ready(_, users) => match first_named(users@, username@) {
            Some(user) => DeleteUser::DeleteAccount(server, user.id),
            None => DeleteUser::Done(outcome(server, SyncStatus::NotFound, None)),
        },
        AdminSession::Failed(failure) => DeleteUser::Done(failure),
        _ => DeleteUser::Opening(server, username, session),
    }
}

pub open spec fn delete_step(deletion: DeleteUser, event: DeleteEvent) -> DeleteUser {
    match (deletion, event) {
        (DeleteUser::Opening(server, username, session), DeleteEvent::Session(answer)) => {
            delete_opened(server, username, session_step(session, answer))
        },
        (DeleteUser::DeleteAccount(server, _), DeleteEvent::Deleted(deleted)) => match deleted {
            Ok(()) => DeleteUser::Done(outcome(server, SyncStatus::Deleted, None)),
            Err(error) => DeleteUser::Done(
                outcome(server, SyncStatus::Failed, Some(SyncReason::Delete(error))),
            ),
        },
        _ => deletion,
    }
}

pub open spec fn delete_start(server: Server, username: String) -> DeleteUser {
    DeleteUser::Opening(server, username, AdminSession::LoadAdmin(server))
}

impl DeleteUser {
    /// Takes the outcome of the pending work into account.
    pub fn advance(self, event: DeleteEvent) -> (r: DeleteUser)
        ensures
            r == delete_step(self, event),
    {
        match (self, event) {
            (DeleteUser::Opening(server, username, session), DeleteEvent::Session(answer)) => {
                match session.advance(answer) {
                    AdminSession::Ready(_, users) => {
                        match find_account(&users, username.as_str()) {
                            Some(remote_id) => DeleteUser::DeleteAccount(server, remote_id),
                            None => DeleteUser::Done(
                                make_outcome(&server, SyncStatus::NotFound, None),
                            ),
                        }
                    },
                    AdminSession::Failed(failure) => DeleteUser::Done(failure),
                    opening => DeleteUser::Opening(server, username, opening),
                }
            },
            (DeleteUser::DeleteAccount(server, _), DeleteEvent::Deleted(deleted)) => match deleted {
                Ok(()) => DeleteUser::Done(make_outcome(&server, SyncStatus::Deleted, None)),
                Err(error) => DeleteUser::Done(
                    make_outcome(&server, SyncStatus::Failed, Some(SyncReason::Delete(error))),
                ),
            },
            (deletion, _) => deletion,
        }
    }
}

/// A sync or a deletion on every server, one after the other.
pub struct ServerSweep {
    servers: Vec<Server>,
    results: Vec<ServerSyncResult>,
}

/// What is known of a sweep: the servers, and the results so far.
pub struct SweepView {
    pub servers: Seq<Server>,
    pub results: Seq<ServerSyncResult>,
}

impl View for ServerSweep {
    type V = SweepView;

    closed spec fn view(&self) -> SweepView {
        SweepView { servers: self.servers@, results: self.results@ }
    }
}

/// The servers that were listed; none when they could not be.
pub open spec fn listed_servers(listed: Result<Vec<Server>, StorageError>) -> Seq<Server> {
    match listed {
        Ok(servers) => servers@,
        Err(_) => Seq::empty(),
    }
}

/// The server whose turn it is, until every server has had its turn.
pub open spec fn pending_server(sweep: SweepView) -> Option<Server> {
    if sweep.results.len() < sweep.servers.len() {
        Some(sweep.servers[sweep.results.len() as int])
    } else {
        None
    }
}

/// `outcome` names the server whose turn it is.
pub open spec fn is_of_pending_server(sweep: SweepView, outcome: SyncOutcome) -> bool {
    pending_server(sweep) matches Some(server) && outcome.server_name == server.name
}

/// `after` is the sweep `before` once `outcome` is taken down.
pub open spec fn takes_down(before: SweepView, after: SweepView, outcome: SyncOutcome) -> bool {
    &&& after.servers == before.servers
    &&& after.results.len() == before.results.len() + 1
    &&& after.results.drop_last() == before.results
    &&& displays(after.results.last(), outcome)
}

impl ServerSweep {
    /// A sweep over the servers that were listed; over none when they could not be.
    fn start(listed: Result<Vec<Server>, StorageError>) -> (r: ServerSweep)
        ensures
            r@.servers == listed_servers(listed),
            listed matches Ok(servers) ==> r@.servers == servers@,
            listed is Err ==> r@.servers.len() == 0,
            r@.results == Seq::<ServerSyncResult>::empty(),
    {
        let servers = match listed {
            Ok(servers) => servers,
            Err(_) => Vec::new(),
        };
        ServerSweep { servers, results: Vec::new() }
    }

    /// The server whose turn it is, until every server has had its turn.
    pub fn current(&self) -> (r: Option<Server>)
        ensures
            r == pending_server(self@),
            r is Some <==> self@.results.len() < self@.servers.len(),
            r matches Some(server) ==> server == self@.servers[self@.results.len() as int],
    {
        if self.results.len() < self.servers.len() {
            Some(self.servers[self.results.len()].clone())
        } else {
            None
        }
    }

    /// What to sync to the current server: this user, with this password.
    pub fn current_request(&self, username: &String, password: &Password, user_id: &String) -> (r:
        Option<SyncRequest>)
        ensures
            r == (match pending_server(self@) {
                Some(server) => Some(
                    SyncRequest {
                        server,
                        username: *username,
                        password: *password,
                        user_id: *user_id,
                    },
                ),
                None => None,
            }),
    {
        match self.current() {
            Some(server) => Some(
                SyncRequest {
                    server,
                    username: username.clone(),
                    password: password.clone(),
                    user_id: user_id.clone(),
                },
            ),
            None => None,
        }
    }

    /// Starts deleting the account of `username` on the current server.
    pub fn current_deletion(&self, username: &String) -> (r: Option<DeleteUser>)
        ensures
            r == (match pending_server(self@) {
                Some(server) => Some(delete_start(server, *username)),
                None => None,
            }),
    {
        match self.current() {
            Some(server) => Some(
                FederatedUserService::delete_user_from_server(server, username.clone()),
            ),
            None => None,
        }
    }

    /// Takes down what happened on the current server.
    pub fn record(&mut self, outcome: SyncOutcome)
        requires
            old(self)@.results.len() < old(self)@.servers.len(),
        ensures
            takes_down(old(self)@, final(self)@, outcome),
            final(self)@.servers == old(self)@.servers,
            final(self)@.results.len() == old(self)@.results.len() + 1,
            forall|i: int|
                0 <= i < old(self)@.results.len() ==> #[trigger] final(self)@.results[i]
                    == old(self)@.results[i],
            final(self)@.results.last().server_name == outcome.server_name,
            final(self)@.results.last().status == outcome.status,
            final(self)@.results.last().message is Some <==> outcome.reason is Some,
            outcome.reason matches Some(reason) ==> final(self)@.results.last().message->0@
                == reason.spec_text(),
    {
        self.results.push(outcome.display());
        assert(self.results@.drop_last() =~= old(self).results@);
    }

    /// The results, in the order of the servers.
    pub fn into_results(self) -> (r: Vec<ServerSyncResult>)
        ensures
            r@ == self@.results,
    {
        self.results
    }
}

/// Carries users over to the servers behind the proxy.
pub struct FederatedUserService;

impl FederatedUserService {
    /// Starts syncing a user to one server: the account is created if it is
    /// missing, and otherwise only checked.
    pub fn sync_user_to_server(request: SyncRequest) -> (r: SyncUser)
        ensures
            r == sync_start(request),
    {
        let server = request.server.clone();
        SyncUser::Opening(request, AdminSession::LoadAdmin(server))
    }

    /// Starts deleting the account of `username` on `server`.
    pub fn delete_user_from_server(server: Server, username: String) -> (r: DeleteUser)
        ensures
            r == delete_start(server, username),
    {
        let same = server.clone();
        DeleteUser::Opening(server, username, AdminSession::LoadAdmin(same))
    }

    /// Starts syncing a user to every server that was listed; to none when they
    /// could not be.
    pub fn sync_user_to_all_servers(listed: Result<Vec<Server>, StorageError>) -> (r: ServerSweep)
        ensures
            r@.servers == listed_servers(listed),
            listed matches Ok(servers) ==> r@.servers == servers@,
            listed is Err ==> r@.servers.len() == 0,
            r@.results == Seq::<ServerSyncResult>::empty(),
    {
        ServerSweep::start(listed)
    }

    /// Starts deleting a user from every server that was listed; from none when
    /// they could not be.
    pub fn delete_user_from_all_servers(listed: Result<Vec<Server>, StorageError>) -> (r:
        ServerSweep)
        ensures
            r@.servers == listed_servers(listed),
            listed matches Ok(servers) ==> r@.servers == servers@,
            listed is Err ==> r@.servers.len() == 0,
            r@.results == Seq::<ServerSyncResult>::empty(),
    {
        ServerSweep::start(listed)
    }
}

/// A sweep that has taken down one outcome after the other, each naming the server
/// whose turn it was, has one result for each of them, in the order of the
/// servers, and each result tells of its server. Once there are as many as
/// servers, no server is left.
pub proof fn sweep_reports_in_order(states: Seq<SweepView>, outcomes: Seq<SyncOutcome>)
    requires
        states.len() == outcomes.len() + 1,
        states[0].results.len() == 0,
        forall|i: int, j: int|
            0 <= i < outcomes.len() && j == i + 1 ==> takes_down(
                #[trigger] states[i],
                #[trigger] states[j],
                outcomes[i],
            ),
        forall|i: int|
            0 <= i < outcomes.len() ==> is_of_pending_server(states[i], #[trigger] outcomes[i]),
    ensures
        ({
            let servers = states[0].servers;
            let end = states.last();
            &&& end.servers == servers
            &&& end.results.len() == outcomes.len() <= servers.len()
            &&& forall|i: int|
                0 <= i < outcomes.len() ==> displays(#[trigger] end.results[i], outcomes[i])
                    && end.results[i].server_name == servers[i].name && end.results[i].status
                    == outcomes[i].status
            &&& pending_server(end) is None <==> outcomes.len() == servers.len()
        }),
    decreases outcomes.len(),
{
    if outcomes.len() > 0 {
        let last = outcomes.len() - 1;
        let earlier = states.drop_last();
        let known = outcomes.drop_last();
        assert forall|i: int, j: int| 0 <= i < known.len() && j == i + 1 implies takes_down(
            #[trigger] earlier[i],
            #[trigger] earlier[j],
            known[i],
        ) by {
            assert(takes_down(states[i], states[j], outcomes[i]));
        }
        assert forall|i: int| 0 <= i < known.len() implies is_of_pending_server(
            earlier[i],
            #[trigger] known[i],
        ) by {
            assert(known[i] == outcomes[i]);
        }
        sweep_reports_in_order(earlier, known);
        let before = states[last];
        let end = states[last + 1];
        assert(earlier.last() == before);
        assert(takes_down(before, end, outcomes[last]));
        assert(outcomes[last].server_name == before.servers[last].name);
        assert forall|i: int| 0 <= i < outcomes.len() implies displays(
            #[trigger] end.results[i],
            outcomes[i],
        ) && end.results[i].server_name == states[0].servers[i].name && end.results[i].status
            == outcomes[i].status by {
            if i < last {
                assert(end.results.drop_last()[i] == end.results[i]);
                assert(displays(before.results[i], known[i]));
            }
        }
    }
}

pub open spec fn sync_run(sync: SyncUser, events: Seq<SyncEvent>) -> SyncUser
    decreases events.len(),
{
    if events.len() == 0 {
        sync
    } else {
        sync_step(sync_run(sync, events.drop_last()), events.last())
    }
}

pub open spec fn delete_run(deletion: DeleteUser, events: Seq<DeleteEvent>) -> DeleteUser
    decreases events.len(),
{
    if events.len() == 0 {
        deletion
    } else {
        delete_step(delete_run(deletion, events.drop_last()), events.last())
    }
}

/// The request that a running sync works on.
pub open spec fn request_of(sync: SyncUser) -> Option<SyncRequest> {
    match sync {
        SyncUser::Opening(request, _) => Some(request),
        SyncUser::ConnectAsUser(request, _) => Some(request),
        SyncUser::AuthenticateAsUser(request, _) => Some(request),
        SyncUser::CreateAccount(request) => Some(request),
        SyncUser::SaveMapping(request, _) => Some(request),
        SyncUser::Done(_) => None,
    }
}

/// The server that an open session is for.
pub open spec fn server_of(session: AdminSession) -> Option<Server> {
    match session {
        AdminSession::LoadAdmin(server) => Some(server),
        AdminSession::DecryptPassword(server, _) => Some(server),
        AdminSession::Connect(server, _, _) => Some(server),
        AdminSession::Authenticate(server, _, _) => Some(server),
        AdminSession::ListUsers(server) => Some(server),
        AdminSession::Ready(server, _) => Some(server),
        AdminSession::Failed(_) => None,
    }
}

/// Some event listed the accounts on the server, and none of them has the username.
pub open spec fn listed_without(events: Seq<SyncEvent>, username: Seq<char>) -> bool {
    exists|i: int|
        0 <= i < events.len() && (#[trigger] events[i] matches SyncEvent::Session(
            AdminSessionEvent::Users(Ok(users)),
        ) && none_called(users@, username))
}

/// Some event was the server accepting the user's password.
pub open spec fn password_accepted(events: Seq<SyncEvent>) -> bool {
    exists|i: int|
        0 <= i < events.len() && #[trigger] events[i] == SyncEvent::UserAuthenticated(true)
}

/// Some event was the server creating the account.
pub open spec fn account_created(events: Seq<SyncEvent>) -> bool {
    exists|i: int|
        0 <= i < events.len() && #[trigger] events[i] matches SyncEvent::Created(Ok(_))
}

/// Some event was the mapping being saved.
pub open spec fn mapping_saved(events: Seq<SyncEvent>) -> bool {
    exists|i: int|
        0 <= i < events.len() && #[trigger] events[i] matches SyncEvent::MappingSaved(Ok(_))
}

/// Whatever happens in the course of a sync of `request`:
/// - it works on that request only, and its outcome names that server;
/// - an account is created only after the accounts on the server were listed
///   and none had the username;
/// - the account is recorded only after the server accepted the user's password
///   for it or created it;
/// - it ends as created or already existing only after the account was
///   recorded, and after the server created it or accepted the password.
pub proof fn sync_is_careful(request: SyncRequest, events: Seq<SyncEvent>)
    ensures
        ({
            let sync = sync_run(sync_start(request), events);
            &&& request_of(sync) matches Some(current) ==> current == request
            &&& sync matches SyncUser::Opening(_, session) ==> session !is Ready && server_of(
                session,
            ) == Some(request.server)
            &&& sync matches SyncUser::Done(o) ==> o.server_name == request.server.name
            &&& sync is CreateAccount ==> listed_without(events, request.username@)
            &&& sync matches SyncUser::SaveMapping(_, status) ==> {
                ||| status == SyncStatus::Created && account_created(events) && listed_without(
                    events,
                    request.username@,
                )
                ||| status == SyncStatus::AlreadyExists && password_accepted(events)
            }
            &&& sync matches SyncUser::Done(o) ==> {
                &&& o.status == SyncStatus::Created ==> mapping_saved(events) && account_created(
                    events,
                ) && listed_without(events, request.username@)
                &&& o.status == SyncStatus::AlreadyExists ==> mapping_saved(events)
                    && password_accepted(events)
                &&& o.status != SyncStatus::Deleted && o.status != SyncStatus::NotFound
            }
        }),
    decreases events.len(),
{
    if events.len() > 0 {
        let before = events.drop_last();
        let event = events.last();
        sync_is_careful(request, before);
        let sync = sync_run(sync_start(request), before);
        assert(events[events.len() - 1] == event);
        assert(listed_without(before, request.username@) ==> listed_without(
            events,
            request.username@,
        )) by {
            if listed_without(before, request.username@) {
                let i = choose|i: int|
                    0 <= i < before.len() && (#[trigger] before[i] matches SyncEvent::Session(
                        AdminSessionEvent::Users(Ok(users)),
                    ) && none_called(users@, request.username@));
                assert(events[i] == before[i]);
            }
        }
        assert(password_accepted(before) ==> password_accepted(events)) by {
            if password_accepted(before) {
                let i = choose|i: int|
                    0 <= i < before.len() && #[trigger] before[i] == SyncEvent::UserAuthenticated(
                        true,
                    );
                assert(events[i] == before[i]);
            }
        }
        assert(account_created(before) ==> account_created(events)) by {
            if account_created(before) {
                let i = choose|i: int|
                    0 <= i < before.len() && #[trigger] before[i] matches SyncEvent::Created(Ok(_));
                assert(events[i] == before[i]);
            }
        }
        assert(mapping_saved(before) ==> mapping_saved(events)) by {
            if mapping_saved(before) {
                let i = choose|i: int|
                    0 <= i < before.len() && #[trigger] before[i] matches SyncEvent::MappingSaved(Ok(_));
                assert(events[i] == before[i]);
            }
        }
        if let (SyncUser::Opening(_, session), SyncEvent::Session(answer)) = (sync, event) {
            let next = session_step(session, answer);
            if let AdminSession::Ready(_, users) = next {
                found_account_has_the_name(users@, request.username@);
                assert(none_called(users@, request.username@) ==> listed_without(
                    events,
                    request.username@,
                ));
            }
        }
    }
}

/// Without admin credentials for the server nothing is done on it.
pub proof fn sync_without_credentials_is_skipped(request: SyncRequest)
    ensures
        sync_step(sync_start(request), SyncEvent::Session(AdminSessionEvent::Admin(Ok(None))))
            == sync_done(request, SyncStatus::Skipped, Some(SyncReason::NoAdminCredentials)),
{
}

/// The event brought a list in which the account with this id is the first called
/// `username`.
pub open spec fn brings(event: DeleteEvent, username: Seq<char>, id: String) -> bool {
    match event {
        DeleteEvent::Session(AdminSessionEvent::Users(Ok(users))) => exists|j: int| #[trigger]
            is_first_called(users@, j, username) && users@[j].id == id,
        _ => false,
    }
}

/// The account with this id is the first called `username` in a list that some
/// event brought.
pub open spec fn listed_as(events: Seq<DeleteEvent>, username: Seq<char>, id: String) -> bool {
    exists|i: int| 0 <= i < events.len() && brings(#[trigger] events[i], username, id)
}

/// Some event listed the accounts on the server, and none of them is called
/// `username`.
pub open spec fn listed_nowhere(events: Seq<DeleteEvent>, username: Seq<char>) -> bool {
    exists|i: int|
        0 <= i < events.len() && (#[trigger] events[i] matches DeleteEvent::Session(
            AdminSessionEvent::Users(Ok(users)),
        ) && none_called(users@, username))
}

/// Some event was the server deleting the account.
pub open spec fn account_deleted(events: Seq<DeleteEvent>) -> bool {
    exists|i: int| 0 <= i < events.len() && #[trigger] events[i] matches DeleteEvent::Deleted(Ok(_))
}

/// Whatever happens in the course of a deletion, only the account that has the
/// username is deleted, only on that server, and the outcome names the server. It
/// ends as deleted only after the server deleted that account, and as not found
/// only after the accounts were listed and none had the username.
pub proof fn deletion_is_careful(server: Server, username: String, events: Seq<DeleteEvent>)
    ensures
        ({
            let deletion = delete_run(delete_start(server, username), events);
            &&& deletion matches DeleteUser::Opening(on, of, session) ==> on == server && of
                == username && session !is Ready && server_of(session) == Some(server)
            &&& deletion matches DeleteUser::DeleteAccount(on, remote_id) ==> on == server
                && listed_as(events, username@, remote_id)
            &&& deletion matches DeleteUser::Done(o) ==> {
                &&& o.server_name == server.name
                &&& o.status == SyncStatus::Deleted ==> account_deleted(events) && exists|id: String|
                    listed_as(events, username@, id)
                &&& o.status == SyncStatus::NotFound ==> listed_nowhere(events, username@)
                &&& o.status == SyncStatus::Deleted || o.status == SyncStatus::NotFound || o.status
                    == SyncStatus::Failed || o.status == SyncStatus::Skipped
                &&& o.reason is None <==> o.status == SyncStatus::Deleted || o.status
                    == SyncStatus::NotFound
            }
        }),
    decreases events.len(),
{
    if events.len() > 0 {
        let before = events.drop_last();
        deletion_is_careful(server, username, before);
        let deletion = delete_run(delete_start(server, username), before);
        assert(events[events.len() - 1] == events.last());
        assert forall|id: String| listed_as(before, username@, id) implies listed_as(
            events,
            username@,
            id,
        ) by {
            let i = choose|i: int|
                0 <= i < before.len() && brings(#[trigger] before[i], username@, id);
            assert(events[i] == before[i]);
        }
        assert(listed_nowhere(before, username@) ==> listed_nowhere(events, username@)) by {
            if listed_nowhere(before, username@) {
                let i = choose|i: int|
                    0 <= i < before.len() && (#[trigger] before[i] matches DeleteEvent::Session(
                        AdminSessionEvent::Users(Ok(users)),
                    ) && none_called(users@, username@));
                assert(events[i] == before[i]);
            }
        }
        assert(account_deleted(before) ==> account_deleted(events)) by {
            if account_deleted(before) {
                let i = choose|i: int|
                    0 <= i < before.len() && #[trigger] before[i] matches DeleteEvent::Deleted(
                        Ok(_),
                    );
                assert(events[i] == before[i]);
            }
        }
        if let (DeleteUser::Opening(_, _, session), DeleteEvent::Session(answer)) = (
            deletion,
            events.last(),
        ) {
            if let AdminSession::Ready(_, users) = session_step(session, answer) {
                found_account_has_the_name(users@, username@);
            }
        }
    }
}

/// A session is opened stage by stage: the server's credentials are decrypted, a
/// client is set up and logged in with the administrator's name and that password,
/// and the accounts that the server lists are the ones at hand.
pub proof fn session_opens_in_stages(
    server: Server,
    admin: ServerAdmin,
    password: Password,
    users: Vec<RemoteUser>,
)
    ensures
        ({
            let loaded = session_step(
                AdminSession::LoadAdmin(server),
                AdminSessionEvent::Admin(Ok(Some(admin))),
            );
            let decrypted = session_step(loaded, AdminSessionEvent::Decrypted(Ok(password)));
            let connected = session_step(decrypted, AdminSessionEvent::Connected(Ok(())));
            let authenticated = session_step(connected, AdminSessionEvent::Authenticated(Ok(())));
            let listed = session_step(authenticated, AdminSessionEvent::Users(Ok(users)));
            &&& loaded == AdminSession::DecryptPassword(server, admin)
            &&& decrypted == AdminSession::Connect(server, admin.username, password)
            &&& connected == AdminSession::Authenticate(server, admin.username, password)
            &&& authenticated == AdminSession::ListUsers(server)
            &&& listed == AdminSession::Ready(server, users)
        }),
{
}

/// The session is over, with this to report of the server.
pub open spec fn session_reports(
    session: AdminSession,
    server: Server,
    status: SyncStatus,
    reason: SyncReason,
) -> bool {
    session matches AdminSession::Failed(o) && o.server_name == server.name && o.status == status
        && o.reason == Some(reason)
}

/// Whatever goes wrong while a session is opened ends it, with the server's name and
/// the error of that stage to report. Only a server without credentials is skipped.
pub proof fn session_failures_are_reported(
    server: Server,
    admin: ServerAdmin,
    username: String,
    password: Password,
    storage: StorageError,
    error: String,
)
    ensures
        session_reports(
            session_step(AdminSession::LoadAdmin(server), AdminSessionEvent::Admin(Ok(None))),
            server,
            SyncStatus::Skipped,
            SyncReason::NoAdminCredentials,
        ),
        session_reports(
            session_step(
                AdminSession::LoadAdmin(server),
                AdminSessionEvent::Admin(Err(storage)),
            ),
            server,
            SyncStatus::Failed,
            SyncReason::AdminCredentials(storage.text),
        ),
        session_reports(
            session_step(
                AdminSession::DecryptPassword(server, admin),
                AdminSessionEvent::Decrypted(Err(error)),
            ),
            server,
            SyncStatus::Failed,
            SyncReason::AdminPassword,
        ),
        session_reports(
            session_step(
                AdminSession::Connect(server, username, password),
                AdminSessionEvent::Connected(Err(error)),
            ),
            server,
            SyncStatus::Failed,
            SyncReason::Client(error),
        ),
        session_reports(
            session_step(
                AdminSession::Authenticate(server, username, password),
                AdminSessionEvent::Authenticated(Err(error)),
            ),
            server,
            SyncStatus::Failed,
            SyncReason::AdminAuth(error),
        ),
        session_reports(
            session_step(
                AdminSession::ListUsers(server),
                AdminSessionEvent::Users(Err(error)),
            ),
            server,
            SyncStatus::Failed,
            SyncReason::ListUsers(error),
        ),
{
}

/// An event that does not answer the pending work leaves a session, a sync and a
/// deletion as they are, and so does any event once they are over.
pub proof fn stray_events_change_nothing(
    session: AdminSession,
    answer: AdminSessionEvent,
    sync: SyncUser,
    event: SyncEvent,
    deletion: DeleteUser,
    outcome: DeleteEvent,
)
    ensures
        session_step(session, answer) == session || {
            ||| session is LoadAdmin && answer is Admin
            ||| session is DecryptPassword && answer is Decrypted
            ||| session is Connect && answer is Connected
            ||| session is Authenticate && answer is Authenticated
            ||| session is ListUsers && answer is Users
        },
        sync_step(sync, event) == sync || {
            ||| sync is Opening && event is Session
            ||| sync is ConnectAsUser && event is UserConnected
            ||| sync is AuthenticateAsUser && event is UserAuthenticated
            ||| sync is CreateAccount && event is Created
            ||| sync is SaveMapping && event is MappingSaved
        },
        delete_step(deletion, outcome) == deletion || {
            ||| deletion is Opening && outcome is Session
            ||| deletion is DeleteAccount && outcome is Deleted
        },
{
}

/// A sync starts by looking up the server's credentials. Once the accounts are
/// listed, the first one called by the username is tried with the password, and
/// only where there is none it is created; either way the account is then recorded,
/// and the sync ends as created or already existing, as the case was.
pub proof fn sync_takes_its_course(request: SyncRequest, users: Vec<RemoteUser>, i: int)
    ensures
        sync_start(request) == SyncUser::Opening(request, AdminSession::LoadAdmin(request.server)),
        ({
            let opened = sync_step(
                SyncUser::Opening(request, AdminSession::ListUsers(request.server)),
                SyncEvent::Session(AdminSessionEvent::Users(Ok(users))),
            );
            &&& is_first_called(users@, i, request.username@) ==> opened == SyncUser::ConnectAsUser(
                request,
                users@[i].id,
            )
            &&& none_called(users@, request.username@) ==> opened == SyncUser::CreateAccount(request)
        }),
        ({
            let connected = sync_step(
                SyncUser::ConnectAsUser(request, users@[i].id),
                SyncEvent::UserConnected(Ok(())),
            );
            let accepted = sync_step(connected, SyncEvent::UserAuthenticated(true));
            let ended = sync_step(accepted, SyncEvent::MappingSaved(Ok(())));
            &&& connected == SyncUser::AuthenticateAsUser(request, users@[i].id)
            &&& accepted == SyncUser::SaveMapping(request, SyncStatus::AlreadyExists)
            &&& sync_reports(ended, request.server, SyncStatus::AlreadyExists, None)
        }),
        ({
            let created = sync_step(
                SyncUser::CreateAccount(request),
                SyncEvent::Created(Ok(())),
            );
            let ended = sync_step(created, SyncEvent::MappingSaved(Ok(())));
            &&& created == SyncUser::SaveMapping(request, SyncStatus::Created)
            &&& sync_reports(ended, request.server, SyncStatus::Created, None)
        }),
{
    found_account_has_the_name(users@, request.username@);
}

/// While the session is still being opened a sync and a deletion wait for it, and
/// they end with its report where it fails.
pub proof fn opening_decides(
    request: SyncRequest,
    username: String,
    session: AdminSession,
    answer: AdminSessionEvent,
)
    ensures
        ({
            let next = session_step(session, answer);
            let sync = sync_step(SyncUser::Opening(request, session), SyncEvent::Session(answer));
            let deletion = delete_step(
                DeleteUser::Opening(request.server, username, session),
                DeleteEvent::Session(answer),
            );
            &&& next matches AdminSession::Failed(o) ==> sync == SyncUser::Done(o) && deletion
                == DeleteUser::Done(o)
            &&& next !is Failed && next !is Ready ==> sync == SyncUser::Opening(request, next)
                && deletion == DeleteUser::Opening(request.server, username, next)
        }),
{
}

/// The sync is over, with this to report of the server.
pub open spec fn sync_reports(
    sync: SyncUser,
    server: Server,
    status: SyncStatus,
    reason: Option<SyncReason>,
) -> bool {
    sync matches SyncUser::Done(o) && o.server_name == server.name && o.status == status && o.reason
        == reason
}

/// Whatever goes wrong in a sync ends it, with the server's name and the error to
/// report. An account that refuses the password is told from every other failure.
pub proof fn sync_failures_are_reported(
    request: SyncRequest,
    remote_id: String,
    status: SyncStatus,
    storage: StorageError,
    error: String,
)
    ensures
        sync_reports(
            sync_step(
                SyncUser::ConnectAsUser(request, remote_id),
                SyncEvent::UserConnected(Err(error)),
            ),
            request.server,
            SyncStatus::Failed,
            Some(SyncReason::Client(error)),
        ),
        sync_reports(
            sync_step(
                SyncUser::AuthenticateAsUser(request, remote_id),
                SyncEvent::UserAuthenticated(false),
            ),
            request.server,
            SyncStatus::ExistsWithDifferentPassword,
            Some(SyncReason::DifferentPassword),
        ),
        sync_reports(
            sync_step(SyncUser::CreateAccount(request), SyncEvent::Created(Err(error))),
            request.server,
            SyncStatus::Failed,
            Some(SyncReason::Create(error)),
        ),
        sync_reports(
            sync_step(
                SyncUser::SaveMapping(request, status),
                SyncEvent::MappingSaved(Err(storage)),
            ),
            request.server,
            SyncStatus::Failed,
            Some(SyncReason::LocalMapping(storage.text)),
        ),
{
}

/// The deletion is over, with this to report of the server.
pub open spec fn deletion_reports(
    deletion: DeleteUser,
    server: Server,
    status: SyncStatus,
    reason: Option<SyncReason>,
) -> bool {
    deletion matches DeleteUser::Done(o) && o.server_name == server.name && o.status == status
        && o.reason == reason
}

/// A deletion starts by looking up the server's credentials. Once the accounts are
/// listed, the first one called by the username is deleted; where there is none, it
/// ends as not found. It ends as deleted when the server deleted the account, and
/// as failed, with the error, when it did not.
pub proof fn deletion_takes_its_course(
    server: Server,
    username: String,
    users: Vec<RemoteUser>,
    i: int,
    remote_id: String,
    error: String,
)
    ensures
        delete_start(server, username) == DeleteUser::Opening(
            server,
            username,
            AdminSession::LoadAdmin(server),
        ),
        ({
            let opened = delete_step(
                DeleteUser::Opening(server, username, AdminSession::ListUsers(server)),
                DeleteEvent::Session(AdminSessionEvent::Users(Ok(users))),
            );
            &&& is_first_called(users@, i, username@) ==> opened == DeleteUser::DeleteAccount(
                server,
                users@[i].id,
            )
            &&& none_called(users@, username@) ==> deletion_reports(
                opened,
                server,
                SyncStatus::NotFound,
                None,
            )
        }),
        deletion_reports(
            delete_step(
                DeleteUser::DeleteAccount(server, remote_id),
                DeleteEvent::Deleted(Ok(())),
            ),
            server,
            SyncStatus::Deleted,
            None,
        ),
        deletion_reports(
            delete_step(
                DeleteUser::DeleteAccount(server, remote_id),
                DeleteEvent::Deleted(Err(error)),
            ),
            server,
            SyncStatus::Failed,
            Some(SyncReason::Delete(error)),
        ),
{
    found_account_has_the_name(users@, username@);
}

/// A reason that stems from an error ends with the error's own text, after words
/// that tell at which stage it came up.
pub proof fn reasons_quote_the_error(error: String)
    ensures
        SyncReason::AdminCredentials(error).spec_text() == "Failed to get admin creds: "@ + error@,
        SyncReason::Client(error).spec_text() == "Client error: "@ + error@,
        SyncReason::AdminAuth(error).spec_text() == "Admin auth failed: "@ + error@,
        SyncReason::ListUsers(error).spec_text() == "Failed to list users: "@ + error@,
        SyncReason::LocalMapping(error).spec_text() == "Failed to save local mapping: "@ + error@,
        SyncReason::Create(error).spec_text() == "Sync failed: "@ + error@,
        SyncReason::Delete(error).spec_text() == "Delete failed: "@ + error@,
        SyncReason::NoAdminCredentials.spec_text() == "No admin credentials"@,
        SyncReason::AdminPassword.spec_text() == "Failed to decrypt admin password"@,
        SyncReason::DifferentPassword.spec_text() == "User exists with different password"@,
{
}

/// Each status goes by its own name.
pub proof fn statuses_go_by_their_names()
    ensures
        SyncStatus::Created.spec_name() == "Created"@,
        SyncStatus::AlreadyExists.spec_name() == "AlreadyExists"@,
        SyncStatus::ExistsWithDifferentPassword.spec_name() == "ExistsWithDifferentPassword"@,
        SyncStatus::Failed.spec_name() == "Failed"@,
        SyncStatus::Skipped.spec_name() == "Skipped"@,
        SyncStatus::Deleted.spec_name() == "Deleted"@,
        SyncStatus::NotFound.spec_name() == "NotFound"@,
{
}

/// The event brought a list in which the account with this id is the first called
/// `username`.
pub open spec fn lists_account(event: SyncEvent, username: Seq<char>, id: String) -> bool {
    match event {
        SyncEvent::Session(AdminSessionEvent::Users(Ok(users))) => exists|j: int| #[trigger]
            is_first_called(users@, j, username) && users@[j].id == id,
        _ => false,
    }
}

/// Whatever happens in the course of a sync, the password is only tried on the first
/// account that the server listed under the username.
pub proof fn tried_account_has_the_name(request: SyncRequest, events: Seq<SyncEvent>)
    ensures
        match sync_run(sync_start(request), events) {
            SyncUser::ConnectAsUser(_, id) => exists|i: int|
                0 <= i < events.len() && lists_account(
                    #[trigger] events[i],
                    request.username@,
                    id,
                ),
            SyncUser::AuthenticateAsUser(_, id) => exists|i: int|
                0 <= i < events.len() && lists_account(
                    #[trigger] events[i],
                    request.username@,
                    id,
                ),
            _ => true,
        },
    decreases events.len(),
{
    if events.len() > 0 {
        let before = events.drop_last();
        tried_account_has_the_name(request, before);
        sync_is_careful(request, before);
        assert(events[events.len() - 1] == events.last());
        let sync = sync_run(sync_start(request), before);
        match sync {
            SyncUser::ConnectAsUser(_, id) => {
                let i = choose|i: int|
                    0 <= i < before.len() && lists_account(
                        #[trigger] before[i],
                        request.username@,
                        id,
                    );
                assert(events[i] == before[i]);
            },
            SyncUser::AuthenticateAsUser(_, id) => {
                let i = choose|i: int|
                    0 <= i < before.len() && lists_account(
                        #[trigger] before[i],
                        request.username@,
                        id,
                    );
                assert(events[i] == before[i]);
            },
            SyncUser::Opening(_, session) => {
                if let SyncEvent::Session(answer) = events.last() {
                    if let AdminSession::Ready(_, users) = session_step(session, answer) {
                        found_account_has_the_name(users@, request.username@);
                    }
                }
            },
            _ => {},
        }
    }
}

} // verus!
