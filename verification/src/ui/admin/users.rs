//! Managing users and their accounts on the servers.

use vstd::prelude::*;

use crate::encryption::Password;
use crate::federated_users::{self, DeleteEvent, DeleteUser, FederatedUserService, ServerSyncResult, SyncStatus};
use crate::handlers::users::{self, AuthError, AutoCreate, AutoCreateEvent, LoginAttempt};
use crate::server::{self, AccountToRecord, BlockKey, BlockToRecord, LocalUser, Server, ServerId, ServerMapping};
use crate::status::StatusCode;
use crate::storage::StorageError;
use crate::text;
use crate::ui::admin::ownership::{self, CurrentAdmin};
use crate::ui::admin::reply::{self, Message, Reply};

verus! {

pub struct UsersPageTemplate {
    pub ui_route: String,
}

/// A user, with their accounts and the servers on which they have none.
pub struct UserWithMappings {
    pub user: LocalUser,
    /// Each account with its server and the number of sessions there.
    pub mappings: Vec<(ServerMapping, Server, i64)>,
    pub available_servers: Vec<Server>,
    pub total_sessions: i64,
}

pub struct UserListTemplate {
    pub users: Vec<UserWithMappings>,
    pub ui_route: String,
    pub sync_report: Option<Vec<ServerSyncResult>>,
}

pub struct UserItemTemplate {
    pub uwm: UserWithMappings,
    pub ui_route: String,
}

pub struct AddUserForm {
    pub username: String,
    pub password: Password,
    pub enable_federation: bool,
}

pub struct AddMappingForm {
    pub user_id: String,
    pub server_id: ServerId,
    pub mapped_username: String,
    pub mapped_password: Password,
}

pub struct DeleteUserForm {
    pub delete_federated: bool,
}

/// The number of sessions counted for a URL: that of its last entry, zero
/// without one.
pub open spec fn sessions_at(counts: Seq<(String, i64)>, url: Seq<char>) -> i64
    decreases counts.len(),
{
    if counts.len() == 0 {
        0
    } else if counts.last().0@ == url {
        counts.last().1
    } else {
        sessions_at(counts.drop_last(), url)
    }
}

/// The accounts on servers that exist, in order, each with its server and the
/// number of sessions there.
pub open spec fn account_rows(
    servers: Seq<Server>,
    counts: Seq<(String, i64)>,
    mappings: Seq<ServerMapping>,
) -> Seq<(ServerMapping, Server, i64)>
    decreases mappings.len(),
{
    if mappings.len() == 0 {
        Seq::empty()
    } else {
        let earlier = account_rows(servers, counts, mappings.drop_last());
        let mapping = mappings.last();
        let at = server::position_of(servers, mapping.server_id);
        if at < servers.len() {
            earlier.push((mapping, servers[at], sessions_at(counts, servers[at].url@)))
        } else {
            earlier
        }
    }
}

/// Whether one of the accounts is on the server with this id.
pub open spec fn has_account(rows: Seq<(ServerMapping, Server, i64)>, id: ServerId) -> bool {
    exists|i: int| 0 <= i < rows.len() && (#[trigger] rows[i]).1.id == id
}

/// The servers on which there is no account, in order.
pub open spec fn servers_without(
    servers: Seq<Server>,
    rows: Seq<(ServerMapping, Server, i64)>,
) -> Seq<Server>
    decreases servers.len(),
{
    if servers.len() == 0 {
        Seq::empty()
    } else {
        let earlier = servers_without(servers.drop_last(), rows);
        if has_account(rows, servers.last().id) {
            earlier
        } else {
            earlier.push(servers.last())
        }
    }
}

/// The number of sessions over all accounts.
pub open spec fn total_sessions(rows: Seq<(ServerMapping, Server, i64)>) -> int
    decreases rows.len(),
{
    if rows.len() == 0 {
        0
    } else {
        total_sessions(rows.drop_last()) + rows.last().2
    }
}

/// Whether the number of sessions can be added up, account after account.
pub open spec fn sessions_add_up(rows: Seq<(ServerMapping, Server, i64)>) -> bool {
    forall|k: int|
        0 <= k <= rows.len() ==> i64::MIN <= #[trigger] total_sessions(rows.take(k)) <= i64::MAX
}

/// What a lookup gave; nothing when it failed.
pub open spec fn or_none<T>(listed: Result<Vec<T>, StorageError>) -> Seq<T> {
    match listed {
        Ok(items) => items@,
        Err(_) => Seq::empty(),
    }
}

fn or_empty<T>(listed: Result<Vec<T>, StorageError>) -> (r: Vec<T>)
    ensures
        r@ == or_none(listed),
{
    match listed {
        Ok(items) => items,
        Err(_) => Vec::new(),
    }
}

fn count_sessions(counts: &Vec<(String, i64)>, url: &str) -> (r: i64)
    ensures
        r == sessions_at(counts@, url@),
{
    let mut i: usize = counts.len();
    assert(counts@.take(i as int) =~= counts@);
    while i > 0
        invariant
            i <= counts@.len(),
            sessions_at(counts@, url@) == sessions_at(counts@.take(i as int), url@),
        decreases i,
    {
        let entry = &counts[i - 1];
        assert(counts@.take(i as int).last() == entry);
        assert(counts@.take(i as int).drop_last() =~= counts@.take(i - 1));
        if text::same(entry.0.as_str(), url) {
            return entry.1;
        }
        i = i - 1;
    }
    0
}

fn list_accounts(servers: &Vec<Server>, counts: &Vec<(String, i64)>, mappings: &Vec<ServerMapping>) -> (r:
    Vec<(ServerMapping, Server, i64)>)
    ensures
        r@ == account_rows(servers@, counts@, mappings@),
{
    let mut rows: Vec<(ServerMapping, Server, i64)> = Vec::new();
    let n: usize = mappings.len();
    let mut i: usize = 0;
    while i < n
        invariant
            n == mappings@.len(),
            i <= n,
            rows@ == account_rows(servers@, counts@, mappings@.take(i as int)),
        decreases n - i,
    {
        assert(mappings@.take(i + 1).drop_last() =~= mappings@.take(i as int));
        let at = server::find_server(servers, mappings[i].server_id);
        if at < servers.len() {
            let count = count_sessions(counts, servers[at].url.as_str());
            rows.push((mappings[i].clone(), servers[at].clone(), count));
        }
        i = i + 1;
    }
    assert(mappings@.take(n as int) =~= mappings@);
    rows
}

fn account_on(rows: &Vec<(ServerMapping, Server, i64)>, id: ServerId) -> (r: bool)
    ensures
        r == has_account(rows@, id),
{
    let n: usize = rows.len();
    let mut i: usize = 0;
    while i < n
        invariant
            n == rows@.len(),
            i <= n,
            forall|j: int| 0 <= j < i ==> (#[trigger] rows@[j]).1.id != id,
        decreases n - i,
    {
        if rows[i].1.id == id {
            assert(rows@[i as int].1.id == id);
            return true;
        }
        i = i + 1;
    }
    false
}

/// Whether the number of sessions of a user with these lookups can be added up.
pub fn sessions_fit(
    servers: &Vec<Server>,
    counts: &Vec<(String, i64)>,
    mappings: &Vec<ServerMapping>,
) -> (r: bool)
    ensures
        r == sessions_add_up(account_rows(servers@, counts@, mappings@)),
{
    let rows = list_accounts(servers, counts, mappings);
    let n: usize = rows.len();
    let mut total: i64 = 0;
    let mut i: usize = 0;
    while i < n
        invariant
            n == rows@.len(),
            rows@ == account_rows(servers@, counts@, mappings@),
            i <= n,
            total == total_sessions(rows@.take(i as int)),
            forall|k: int|
                0 <= k <= i ==> i64::MIN <= #[trigger] total_sessions(rows@.take(k)) <= i64::MAX,
        decreases n - i,
    {
        assert(rows@.take(i + 1).drop_last() =~= rows@.take(i as int));
        assert(total_sessions(rows@.take(i + 1)) == total + rows@[i as int].2);
        match total.checked_add(rows[i].2) {
            Some(sum) => {
                total = sum;
            },
            None => {
                return false;
            },
        }
        i = i + 1;
    }
    true
}

/// There is a server with this id.
pub open spec fn is_known(servers: Seq<Server>, id: ServerId) -> bool {
    exists|i: int| 0 <= i < servers.len() && (#[trigger] servers[i]).id == id
}

/// Describes a user, with their accounts and the servers on which they have none.
/// Lookups that failed count as empty.
pub fn create_user_with_mappings(
    user: LocalUser,
    servers: &Vec<Server>,
    counts: Result<Vec<(String, i64)>, StorageError>,
    mappings: Result<Vec<ServerMapping>, StorageError>,
) -> (r: UserWithMappings)
    requires
        sessions_add_up(account_rows(servers@, or_none(counts), or_none(mappings))),
    ensures
        r.user == user,
        r.mappings@ == account_rows(servers@, or_none(counts), or_none(mappings)),
        r.available_servers@ == servers_without(servers@, r.mappings@),
        r.total_sessions == total_sessions(r.mappings@),
        r.total_sessions == r.mappings@.fold_left(
            0int,
            |sum: int, row: (ServerMapping, Server, i64)| sum + row.2,
        ),
        forall|s: Server| #[trigger]
            r.available_servers@.contains(s) <==> servers@.contains(s) && forall|i: int|
                0 <= i < r.mappings@.len() ==> (#[trigger] r.mappings@[i]).1.id != s.id,
        forall|i: int|
            0 <= i < r.mappings@.len() ==> servers@.contains((#[trigger] r.mappings@[i]).1)
                && r.mappings@[i].0.server_id == r.mappings@[i].1.id,
        mappings is Err ==> r.mappings@.len() == 0,
        mappings matches Ok(accounts) ==> r.mappings@.map_values(
            |row: (ServerMapping, Server, i64)| row.0,
        ) == accounts@.filter(|m: ServerMapping| is_known(servers@, m.server_id)),
{
    proof {
        servers_are_offered_or_used(servers@, or_none(counts), or_none(mappings));
        accounts_are_all_shown(servers@, or_none(counts), or_none(mappings));
        sessions_are_summed(account_rows(servers@, or_none(counts), or_none(mappings)));
    }
    let counts = or_empty(counts);
    let mappings = or_empty(mappings);
    let rows = list_accounts(servers, &counts, &mappings);
    let n: usize = servers.len();
    let mut available: Vec<Server> = Vec::new();
    let mut i: usize = 0;
    while i < n
        invariant
            n == servers@.len(),
            i <= n,
            available@ == servers_without(servers@.take(i as int), rows@),
        decreases n - i,
    {
        assert(servers@.take(i + 1).drop_last() =~= servers@.take(i as int));
        if !account_on(&rows, servers[i].id) {
            available.push(servers[i].clone());
        }
        i = i + 1;
    }
    assert(servers@.take(n as int) =~= servers@);
    let m: usize = rows.len();
    let mut total: i64 = 0;
    let mut k: usize = 0;
    while k < m
        invariant
            m == rows@.len(),
            k <= m,
            sessions_add_up(rows@),
            total == total_sessions(rows@.take(k as int)),
        decreases m - k,
    {
        assert(rows@.take(k + 1).drop_last() =~= rows@.take(k as int));
        assert(total_sessions(rows@.take(k + 1)) == total + rows@[k as int].2);
        total = total + rows[k].2;
        k = k + 1;
    }
    assert(rows@.take(m as int) =~= rows@);
    UserWithMappings { user, mappings: rows, available_servers: available, total_sessions: total }
}

/// A server is offered to a user exactly when they have no account on it, and
/// every account that is shown is on a server that exists.
pub proof fn servers_are_offered_or_used(
    servers: Seq<Server>,
    counts: Seq<(String, i64)>,
    mappings: Seq<ServerMapping>,
)
    ensures
        ({
            let rows = account_rows(servers, counts, mappings);
            &&& forall|server: Server| #[trigger]
                servers_without(servers, rows).contains(server) <==> servers.contains(server)
                    && !has_account(rows, server.id)
            &&& forall|i: int|
                0 <= i < rows.len() ==> servers.contains((#[trigger] rows[i]).1)
                    && rows[i].0.server_id == rows[i].1.id && mappings.contains(rows[i].0)
        }),
{
    let rows = account_rows(servers, counts, mappings);
    offered_servers(servers, rows);
    rows_are_accounts(servers, counts, mappings);
}

proof fn offered_servers(servers: Seq<Server>, rows: Seq<(ServerMapping, Server, i64)>)
    ensures
        forall|server: Server| #[trigger]
            servers_without(servers, rows).contains(server) <==> servers.contains(server)
                && !has_account(rows, server.id),
    decreases servers.len(),
{
    if servers.len() > 0 {
        let front = servers.drop_last();
        let last = servers.last();
        offered_servers(front, rows);
        let earlier = servers_without(front, rows);
        assert forall|server: Server| #[trigger]
            servers_without(servers, rows).contains(server) <==> servers.contains(server)
                && !has_account(rows, server.id) by {
            assert(servers =~= front.push(last));
            assert(servers.contains(server) <==> front.contains(server) || server == last) by {
                if servers.contains(server) {
                    let i = choose|i: int| 0 <= i < servers.len() && servers[i] == server;
                    if i < front.len() {
                        assert(front[i] == server);
                    }
                }
                if front.contains(server) {
                    let i = choose|i: int| 0 <= i < front.len() && front[i] == server;
                    assert(servers[i] == server);
                }
                assert(servers[servers.len() - 1] == last);
            }
            assert(earlier.push(last).contains(server) <==> earlier.contains(server) || server
                == last) by {
                let more = earlier.push(last);
                if more.contains(server) {
                    let i = choose|i: int| 0 <= i < more.len() && more[i] == server;
                    if i < earlier.len() {
                        assert(earlier[i] == server);
                    }
                }
                if earlier.contains(server) {
                    let i = choose|i: int| 0 <= i < earlier.len() && earlier[i] == server;
                    assert(more[i] == server);
                }
                assert(more[earlier.len() as int] == last);
            }
        }
    }
}

proof fn rows_are_accounts(
    servers: Seq<Server>,
    counts: Seq<(String, i64)>,
    mappings: Seq<ServerMapping>,
)
    ensures
        ({
            let rows = account_rows(servers, counts, mappings);
            forall|i: int|
                0 <= i < rows.len() ==> servers.contains((#[trigger] rows[i]).1)
                    && rows[i].0.server_id == rows[i].1.id && mappings.contains(rows[i].0)
        }),
    decreases mappings.len(),
{
    if mappings.len() > 0 {
        let front = mappings.drop_last();
        let last = mappings.last();
        rows_are_accounts(servers, counts, front);
        server::position_is_of_that_server(servers, last.server_id);
        let earlier = account_rows(servers, counts, front);
        assert forall|i: int| 0 <= i < earlier.len() implies mappings.contains(
            (#[trigger] earlier[i]).0,
        ) by {
            let j = choose|j: int| 0 <= j < front.len() && front[j] == earlier[i].0;
            assert(mappings[j] == earlier[i].0);
        }
        assert(mappings[mappings.len() - 1] == last);
    }
}

/// The user that a request is about, or the answer when there is none.
pub open spec fn user_or_reply(found: Result<Option<LocalUser>, StorageError>) -> Result<
    LocalUser,
    Reply,
> {
    match found {
        Ok(Some(user)) => Ok(user),
        Ok(None) => Err(Reply::Alert(StatusCode::NotFound, Message::UserNotFound)),
        Err(_) => Err(Reply::Text(StatusCode::InternalServerError, Message::DatabaseError)),
    }
}

fn find_user(found: Result<Option<LocalUser>, StorageError>) -> (r: Result<LocalUser, Reply>)
    ensures
        r == user_or_reply(found),
{
    match found {
        Ok(Some(user)) => Ok(user),
        Ok(None) => Err(Reply::Alert(StatusCode::NotFound, Message::UserNotFound)),
        Err(_) => Err(Reply::Text(StatusCode::InternalServerError, Message::DatabaseError)),
    }
}

/// The user to show and the servers, or the answer when they cannot be shown. A
/// failure to list the servers comes first.
pub fn get_user_item(
    servers: Result<Vec<Server>, StorageError>,
    found: Result<Option<LocalUser>, StorageError>,
) -> (r: Result<(LocalUser, Vec<Server>), Reply>)
    ensures
        r == (match servers {
            Ok(servers) => match user_or_reply(found) {
                Ok(user) => Ok((user, servers)),
                Err(reply) => Err(reply),
            },
            Err(_) => Err(Reply::Text(StatusCode::InternalServerError, Message::DatabaseError)),
        }),
{
    let servers = match reply::loaded(servers) {
        Ok(servers) => servers,
        Err(reply) => {
            return Err(reply);
        },
    };
    match find_user(found) {
        Ok(user) => Ok((user, servers)),
        Err(reply) => Err(reply),
    }
}

/// The list of users in the making: each user's lookups are added in turn.
pub struct UserListing {
    servers: Vec<Server>,
    users: Vec<LocalUser>,
    described: Vec<UserWithMappings>,
}

/// What is known of a list in the making.
pub struct UserListingView {
    pub servers: Seq<Server>,
    pub users: Seq<LocalUser>,
    pub described: Seq<UserWithMappings>,
}

impl View for UserListing {
    type V = UserListingView;

    closed spec fn view(&self) -> UserListingView {
        UserListingView {
            servers: self.servers@,
            users: self.users@,
            described: self.described@,
        }
    }
}

/// Starts the list of users, or gives the answer when it cannot be had.
pub fn get_user_list_impl(
    servers: Result<Vec<Server>, StorageError>,
    users: Result<Vec<LocalUser>, StorageError>,
) -> (r: Result<UserListing, Reply>)
    ensures
        match r {
            Ok(listing) => servers is Ok && users is Ok && listing@.servers == servers->Ok_0@
                && listing@.users == users->Ok_0@ && listing@.described.len() == 0,
            Err(reply) => (servers is Err || users is Err) && reply == Reply::Text(
                StatusCode::InternalServerError,
                Message::DatabaseError,
            ),
        },
{
    let servers = match reply::loaded(servers) {
        Ok(servers) => servers,
        Err(reply) => {
            return Err(reply);
        },
    };
    match reply::loaded(users) {
        Ok(users) => Ok(UserListing { servers, users, described: Vec::new() }),
        Err(reply) => Err(reply),
    }
}

impl UserListing {
    pub fn servers(&self) -> (r: &Vec<Server>)
        ensures
            r@ == self@.servers,
    {
        &self.servers
    }

    /// The user whose turn it is, until every user has had theirs.
    pub fn current(&self) -> (r: Option<LocalUser>)
        ensures
            r == (if self@.described.len() < self@.users.len() {
                Some(self@.users[self@.described.len() as int])
            } else {
                None
            }),
    {
        if self.described.len() < self.users.len() {
            Some(self.users[self.described.len()].clone())
        } else {
            None
        }
    }

    /// Adds the current user.
    pub fn record(
        &mut self,
        counts: Result<Vec<(String, i64)>, StorageError>,
        mappings: Result<Vec<ServerMapping>, StorageError>,
    )
        requires
            old(self)@.described.len() < old(self)@.users.len(),
            sessions_add_up(account_rows(old(self)@.servers, or_none(counts), or_none(mappings))),
        ensures
            final(self)@.servers == old(self)@.servers,
            final(self)@.users == old(self)@.users,
            final(self)@.described.len() == old(self)@.described.len() + 1,
            final(self)@.described.drop_last() == old(self)@.described,
            ({
                let added = final(self)@.described.last();
                let rows = account_rows(old(self)@.servers, or_none(counts), or_none(mappings));
                &&& added.user == old(self)@.users[old(self)@.described.len() as int]
                &&& added.mappings@ == rows
                &&& added.available_servers@ == servers_without(old(self)@.servers, rows)
                &&& added.total_sessions == total_sessions(rows)
            }),
    {
        let user = self.users[self.described.len()].clone();
        let added = create_user_with_mappings(user, &self.servers, counts, mappings);
        self.described.push(added);
        assert(self.described@.drop_last() =~= old(self).described@);
    }

    /// The users described so far, in order.
    pub fn into_users(self) -> (r: Vec<UserWithMappings>)
        ensures
            r@ == self@.described,
    {
        self.described
    }
}

/// How a request about users is answered.
pub enum UserReply {
    Now(Reply),
    /// Show the user, and let a message pop up.
    Item(String, Option<Message>),
    /// Show the list of users, with what happened on the servers.
    List(Option<Vec<ServerSyncResult>>),
}

/// Adding a user.
pub enum AddUser {
    Create(AddUserForm),
    /// Create the user on every server.
    SyncAll(AddUserForm, LocalUser),
    Done(UserReply),
}

/// The outcome of a step of adding a user.
pub enum AddUserEvent {
    Created(Result<LocalUser, StorageError>),
    Synced(Vec<ServerSyncResult>),
}

/// A username that is only white space, or an empty password.
pub open spec fn lacks_credentials(username: Seq<char>, password: Seq<char>) -> bool {
    text::trimmed(username).len() == 0 || password.len() == 0
}

fn credentials_missing(username: &str, password: &Password) -> (r: bool)
    ensures
        r == lacks_credentials(username@, password@),
{
    text::trim(username).as_str().is_empty() || password.as_str().is_empty()
}

/// Starts adding a user, if a username and a password were given.
pub fn add_user(form: AddUserForm) -> (r: AddUser)
    ensures
        r is Done <==> (form.password@.len() == 0 || forall|i: int|
            0 <= i < form.username@.len() ==> text::is_white(#[trigger] form.username@[i])),
        r is Create <==> r !is Done,
        r matches AddUser::Create(f) ==> f == form,
        r matches AddUser::Done(reply) ==> reply == UserReply::Now(
            Reply::Alert(StatusCode::BadRequest, Message::CredentialsRequired),
        ),
        r == (if lacks_credentials(form.username@, form.password@) {
            AddUser::Done(
                UserReply::Now(Reply::Alert(StatusCode::BadRequest, Message::CredentialsRequired)),
            )
        } else {
            AddUser::Create(form)
        }),
{
    proof {
        text::trimming_takes_white_space_only(form.username@);
    }
    if credentials_missing(form.username.as_str(), &form.password) {
        AddUser::Done(
            UserReply::Now(Reply::Alert(StatusCode::BadRequest, Message::CredentialsRequired)),
        )
    } else {
        AddUser::Create(form)
    }
}

pub open spec fn add_user_step(adding: AddUser, event: AddUserEvent) -> AddUser {
    match (adding, event) {
        (AddUser::Create(form), AddUserEvent::Created(created)) => match created {
            Ok(user) => if form.enable_federation {
                AddUser::SyncAll(form, user)
            } else {
                AddUser::Done(UserReply::List(None))
            },
            Err(error) => if error.is_unique_violation() {
                AddUser::Done(
                    UserReply::Now(Reply::Alert(StatusCode::Conflict, Message::UserExists)),
                )
            } else {
                AddUser::Done(
                    UserReply::Now(
                        Reply::Alert(StatusCode::InternalServerError, Message::UserNotCreated),
                    ),
                )
            },
        },
        (AddUser::SyncAll(_, _), AddUserEvent::Synced(report)) => AddUser::Done(
            UserReply::List(Some(report)),
        ),
        _ => adding,
    }
}

impl AddUser {
    /// Takes the outcome of the pending work into account.
    pub fn advance(self, event: AddUserEvent) -> (r: AddUser)
        ensures
            r == add_user_step(self, event),
    {
        match (self, event) {
            (AddUser::Create(form), AddUserEvent::Created(created)) => match created {
                Ok(user) => if form.enable_federation {
                    AddUser::SyncAll(form, user)
                } else {
                    AddUser::Done(UserReply::List(None))
                },
                Err(error) => if error.unique_violation() {
                    AddUser::Done(
                        UserReply::Now(Reply::Alert(StatusCode::Conflict, Message::UserExists)),
                    )
                } else {
                    AddUser::Done(
                        UserReply::Now(
                            Reply::Alert(StatusCode::InternalServerError, Message::UserNotCreated),
                        ),
                    )
                },
            },
            (AddUser::SyncAll(_, _), AddUserEvent::Synced(report)) => AddUser::Done(
                UserReply::List(Some(report)),
            ),
            (adding, _) => adding,
        }
    }
}

/// Deleting a user.
pub enum RemoveUser {
    FindUser(String, DeleteUserForm),
    /// Delete the accounts with this username on every server.
    DeleteEverywhere(String, String),
    DeleteLocally(String, Option<Vec<ServerSyncResult>>),
    Done(UserReply),
}

/// The outcome of a step of deleting a user.
pub enum RemoveUserEvent {
    Found(Result<Option<LocalUser>, StorageError>),
    DeletedEverywhere(Vec<ServerSyncResult>),
    /// Whether there was a user to delete.
    Deleted(Result<bool, StorageError>),
}

/// Starts deleting a user.
pub fn delete_user(user_id: String, form: DeleteUserForm) -> (r: RemoveUser)
    ensures
        r == RemoveUser::FindUser(user_id, form),
{
    RemoveUser::FindUser(user_id, form)
}

pub open spec fn remove_user_step(removal: RemoveUser, event: RemoveUserEvent) -> RemoveUser {
    match (removal, event) {
        (RemoveUser::FindUser(user_id, form), RemoveUserEvent::Found(found)) => match found {
            Ok(Some(user)) => if form.delete_federated {
                RemoveUser::DeleteEverywhere(user_id, user.original_username)
            } else {
                RemoveUser::DeleteLocally(user_id, None)
            },
            Ok(None) => RemoveUser::Done(
                UserReply::Now(Reply::Alert(StatusCode::NotFound, Message::UserNotFound)),
            ),
            Err(_) => RemoveUser::Done(
                UserReply::Now(
                    Reply::Alert(StatusCode::InternalServerError, Message::DatabaseError),
                ),
            ),
        },
        (
            RemoveUser::DeleteEverywhere(user_id, _),
            RemoveUserEvent::DeletedEverywhere(report),
        ) => RemoveUser::DeleteLocally(user_id, Some(report)),
        (RemoveUser::DeleteLocally(_, report), RemoveUserEvent::Deleted(deleted)) => {
            match deleted {
                Ok(true) => RemoveUser::Done(UserReply::List(report)),
                Ok(false) => RemoveUser::Done(
                    UserReply::Now(Reply::Alert(StatusCode::NotFound, Message::UserNotFound)),
                ),
                Err(_) => RemoveUser::Done(
                    UserReply::Now(
                        Reply::Alert(StatusCode::InternalServerError, Message::UserNotDeleted),
                    ),
                ),
            }
        },
        _ => removal,
    }
}

impl RemoveUser {
    /// Takes the outcome of the pending work into account.
    pub fn advance(self, event: RemoveUserEvent) -> (r: RemoveUser)
        ensures
            r == remove_user_step(self, event),
    {
        match (self, event) {
            (RemoveUser::FindUser(user_id, form), RemoveUserEvent::Found(found)) => match found {
                Ok(Some(user)) => if form.delete_federated {
                    RemoveUser::DeleteEverywhere(user_id, user.original_username)
                } else {
                    RemoveUser::DeleteLocally(user_id, None)
                },
                Ok(None) => RemoveUser::Done(
                    UserReply::Now(Reply::Alert(StatusCode::NotFound, Message::UserNotFound)),
                ),
                Err(_) => RemoveUser::Done(
                    UserReply::Now(
                        Reply::Alert(StatusCode::InternalServerError, Message::DatabaseError),
                    ),
                ),
            },
            (
                RemoveUser::DeleteEverywhere(user_id, _),
                RemoveUserEvent::DeletedEverywhere(report),
            ) => RemoveUser::DeleteLocally(user_id, Some(report)),
            (RemoveUser::DeleteLocally(_, report), RemoveUserEvent::Deleted(deleted)) => {
                match deleted {
                    Ok(true) => RemoveUser::Done(UserReply::List(report)),
                    Ok(false) => RemoveUser::Done(
                        UserReply::Now(Reply::Alert(StatusCode::NotFound, Message::UserNotFound)),
                    ),
                    Err(_) => RemoveUser::Done(
                        UserReply::Now(
                            Reply::Alert(StatusCode::InternalServerError, Message::UserNotDeleted),
                        ),
                    ),
                }
            },
            (removal, _) => removal,
        }
    }
}

/// What a server said to a login.
pub enum RemoteLogin {
    Accepted,
    /// The username or the password is wrong.
    Rejected,
    Failed(String),
}

/// Recording an account of a user on a server.
pub enum AddMapping {
    ListServers(CurrentAdmin, AddMappingForm),
    /// Set up a client for the server.
    Connect(AddMappingForm, Server),
    /// Try the credentials on the server.
    Authenticate(AddMappingForm, Server),
    /// Record the account, the password encrypted with the proxy's own.
    Save(AddMappingForm, Server),
    Done(UserReply),
}

/// The outcome of a step of recording an account.
pub enum AddMappingEvent {
    Servers(Result<Vec<Server>, StorageError>),
    Connected(Result<(), String>),
    Authenticated(RemoteLogin),
    Saved(Result<i64, StorageError>),
}

pub open spec fn item_popup(user_id: String, message: Message) -> UserReply {
    UserReply::Item(user_id, Some(message))
}

/// Starts recording an account, if a username and a password were given.
pub fn add_mapping(admin: CurrentAdmin, form: AddMappingForm) -> (r: AddMapping)
    ensures
        r is Done <==> (form.mapped_password@.len() == 0 || forall|i: int|
            0 <= i < form.mapped_username@.len() ==> text::is_white(
                #[trigger] form.mapped_username@[i],
            )),
        r is ListServers <==> r !is Done,
        r matches AddMapping::ListServers(a, f) ==> a == admin && f == form,
        r matches AddMapping::Done(reply) ==> reply == UserReply::Item(
            form.user_id,
            Some(Message::MappingCredentialsRequired),
        ),
        r == (if lacks_credentials(form.mapped_username@, form.mapped_password@) {
            AddMapping::Done(item_popup(form.user_id, Message::MappingCredentialsRequired))
        } else {
            AddMapping::ListServers(admin, form)
        }),
{
    proof {
        text::trimming_takes_white_space_only(form.mapped_username@);
    }
    if credentials_missing(form.mapped_username.as_str(), &form.mapped_password) {
        AddMapping::Done(UserReply::Item(form.user_id, Some(Message::MappingCredentialsRequired)))
    } else {
        AddMapping::ListServers(admin, form)
    }
}

/// Where recording an account goes once the servers are listed.
pub open spec fn mapping_server_chosen(
    admin: CurrentAdmin,
    form: AddMappingForm,
    servers: Seq<Server>,
) -> AddMapping {
    let at = server::position_of(servers, form.server_id);
    if at >= servers.len() {
        AddMapping::Done(item_popup(form.user_id, Message::SelectedServerNotFound))
    } else if !ownership::may_act(admin, servers[at]) {
        AddMapping::Done(item_popup(form.user_id, Message::MappingNotPermitted))
    } else {
        AddMapping::Connect(form, servers[at])
    }
}

pub open spec fn add_mapping_step(adding: AddMapping, event: AddMappingEvent) -> AddMapping {
    match (adding, event) {
        (AddMapping::ListServers(admin, form), AddMappingEvent::Servers(listed)) => match listed {
            Ok(servers) => mapping_server_chosen(admin, form, servers@),
            Err(_) => AddMapping::Done(item_popup(form.user_id, Message::ServersNotLoaded)),
        },
        (AddMapping::Connect(form, server), AddMappingEvent::Connected(connected)) => {
            match connected {
                Ok(()) => AddMapping::Authenticate(form, server),
                Err(_) => AddMapping::Done(
                    item_popup(form.user_id, Message::NotConnected(server.name)),
                ),
            }
        },
        (AddMapping::Authenticate(form, server), AddMappingEvent::Authenticated(login)) => {
            match login {
                RemoteLogin::Accepted => AddMapping::Save(form, server),
                RemoteLogin::Rejected => AddMapping::Done(
                    item_popup(form.user_id, Message::MappingRejected(server.name)),
                ),
                RemoteLogin::Failed(error) => AddMapping::Done(
                    item_popup(form.user_id, Message::MappingNotValidated(server.name, error)),
                ),
            }
        },
        (AddMapping::Save(form, _), AddMappingEvent::Saved(saved)) => match saved {
            Ok(_) => AddMapping::Done(UserReply::Item(form.user_id, None)),
            Err(_) => AddMapping::Done(
                UserReply::Now(
                    Reply::Alert(StatusCode::InternalServerError, Message::MappingNotAdded),
                ),
            ),
        },
        _ => adding,
    }
}

/// The account to record on a server that accepted the credentials, the password
/// encrypted with the proxy's own.
pub fn account_to_record(form: &AddMappingForm, server: &Server, own_password: &Password) -> (r:
    AccountToRecord)
    ensures
        r == (AccountToRecord {
            user_id: form.user_id,
            server: *server,
            username: form.mapped_username,
            password: form.mapped_password,
            key: *own_password,
        }),
{
    AccountToRecord {
        user_id: form.user_id.clone(),
        server: server.clone(),
        username: form.mapped_username.clone(),
        password: form.mapped_password.clone(),
        key: own_password.clone(),
    }
}

impl AddMapping {
    /// Takes the outcome of the pending work into account.
    pub fn advance(self, event: AddMappingEvent) -> (r: AddMapping)
        ensures
            r == add_mapping_step(self, event),
    {
        match (self, event) {
            (AddMapping::ListServers(admin, form), AddMappingEvent::Servers(listed)) => {
                match listed {
                    Ok(servers) => {
                        let mut servers = servers;
                        let at = server::find_server(&servers, form.server_id);
                        if at >= servers.len() {
                            AddMapping::Done(
                                UserReply::Item(
                                    form.user_id,
                                    Some(Message::SelectedServerNotFound),
                                ),
                            )
                        } else {
                            let server = servers.remove(at);
                            if !ownership::may_act_on(&admin, &server) {
                                AddMapping::Done(
                                    UserReply::Item(
                                        form.user_id,
                                        Some(Message::MappingNotPermitted),
                                    ),
                                )
                            } else {
                                AddMapping::Connect(form, server)
                            }
                        }
                    },
                    Err(_) => AddMapping::Done(
                        UserReply::Item(form.user_id, Some(Message::ServersNotLoaded)),
                    ),
                }
            },
            (AddMapping::Connect(form, server), AddMappingEvent::Connected(connected)) => {
                match connected {
                    Ok(()) => AddMapping::Authenticate(form, server),
                    Err(_) => AddMapping::Done(
                        UserReply::Item(form.user_id, Some(Message::NotConnected(server.name))),
                    ),
                }
            },
            (AddMapping::Authenticate(form, server), AddMappingEvent::Authenticated(login)) => {
                match login {
                    RemoteLogin::Accepted => AddMapping::Save(form, server),
                    RemoteLogin::Rejected => AddMapping::Done(
                        UserReply::Item(form.user_id, Some(Message::MappingRejected(server.name))),
                    ),
                    RemoteLogin::Failed(error) => AddMapping::Done(
                        UserReply::Item(
                            form.user_id,
                            Some(Message::MappingNotValidated(server.name, error)),
                        ),
                    ),
                }
            },
            (AddMapping::Save(form, _), AddMappingEvent::Saved(saved)) => match saved {
                Ok(_) => AddMapping::Done(UserReply::Item(form.user_id, None)),
                Err(_) => AddMapping::Done(
                    UserReply::Now(
                        Reply::Alert(StatusCode::InternalServerError, Message::MappingNotAdded),
                    ),
                ),
            },
            (adding, _) => adding,
        }
    }
}

/// The account that a request is about, or the answer when there is none.
pub open spec fn mapping_or_reply(found: Result<Option<ServerMapping>, StorageError>) -> Result<
    ServerMapping,
    Reply,
> {
    match found {
        Ok(Some(mapping)) => Ok(mapping),
        Ok(None) => Err(Reply::Alert(StatusCode::NotFound, Message::MappingNotFound)),
        Err(_) => Err(Reply::Text(StatusCode::InternalServerError, Message::DatabaseError)),
    }
}

fn find_mapping(found: Result<Option<ServerMapping>, StorageError>) -> (r: Result<
    ServerMapping,
    Reply,
>)
    ensures
        r == mapping_or_reply(found),
{
    match found {
        Ok(Some(mapping)) => Ok(mapping),
        Ok(None) => Err(Reply::Alert(StatusCode::NotFound, Message::MappingNotFound)),
        Err(_) => Err(Reply::Text(StatusCode::InternalServerError, Message::DatabaseError)),
    }
}

/// The server of an account, if the admin may act on it, or the answer if not.
pub open spec fn server_or_reply(
    admin: CurrentAdmin,
    found: Result<Option<Server>, StorageError>,
) -> Result<Server, Reply> {
    match found {
        Ok(Some(server)) => if ownership::may_act(admin, server) {
            Ok(server)
        } else {
            Err(Reply::Status(StatusCode::Forbidden))
        },
        Ok(None) => Err(Reply::Alert(StatusCode::NotFound, Message::ServerNotFound)),
        Err(_) => Err(Reply::Text(StatusCode::InternalServerError, Message::DatabaseError)),
    }
}

fn find_mapped_server(admin: &CurrentAdmin, found: Result<Option<Server>, StorageError>) -> (r:
    Result<Server, Reply>)
    ensures
        r == server_or_reply(*admin, found),
{
    match found {
        Ok(Some(server)) => if ownership::may_act_on(admin, &server) {
            Ok(server)
        } else {
            Err(Reply::Status(StatusCode::Forbidden))
        },
        Ok(None) => Err(Reply::Alert(StatusCode::NotFound, Message::ServerNotFound)),
        Err(_) => Err(Reply::Text(StatusCode::InternalServerError, Message::DatabaseError)),
    }
}

/// An admin's request about one account of a user.
pub struct MappingRequest {
    pub admin: CurrentAdmin,
    pub user_id: String,
    pub mapping_id: i64,
}

/// Forgetting an account of a user.
pub enum DeleteMapping {
    FindMapping(MappingRequest),
    FindServer(MappingRequest, ServerId),
    Delete(MappingRequest),
    Done(UserReply),
}

/// The outcome of a step of forgetting an account.
pub enum DeleteMappingEvent {
    Mapping(Result<Option<ServerMapping>, StorageError>),
    Server(Result<Option<Server>, StorageError>),
    /// Whether there was an account to forget.
    Deleted(Result<bool, StorageError>),
}

/// Starts forgetting an account.
pub fn delete_mapping(request: MappingRequest) -> (r: DeleteMapping)
    ensures
        r == DeleteMapping::FindMapping(request),
{
    DeleteMapping::FindMapping(request)
}

pub open spec fn delete_mapping_step(
    deletion: DeleteMapping,
    event: DeleteMappingEvent,
) -> DeleteMapping {
    match (deletion, event) {
        (DeleteMapping::FindMapping(request), DeleteMappingEvent::Mapping(found)) => {
            match mapping_or_reply(found) {
                Ok(mapping) => DeleteMapping::FindServer(request, mapping.server_id),
                Err(reply) => DeleteMapping::Done(UserReply::Now(reply)),
            }
        },
        (DeleteMapping::FindServer(request, _), DeleteMappingEvent::Server(found)) => {
            match server_or_reply(request.admin, found) {
                Ok(_) => DeleteMapping::Delete(request),
                Err(reply) => DeleteMapping::Done(UserReply::Now(reply)),
            }
        },
        (DeleteMapping::Delete(request), DeleteMappingEvent::Deleted(deleted)) => match deleted {
            Ok(true) => DeleteMapping::Done(UserReply::Item(request.user_id, None)),
            Ok(false) => DeleteMapping::Done(
                UserReply::Now(Reply::Alert(StatusCode::NotFound, Message::MappingNotFound)),
            ),
            Err(_) => DeleteMapping::Done(
                UserReply::Now(
                    Reply::Alert(StatusCode::InternalServerError, Message::MappingNotDeleted),
                ),
            ),
        },
        _ => deletion,
    }
}

impl DeleteMapping {
    /// Takes the outcome of the pending work into account.
    pub fn advance(self, event: DeleteMappingEvent) -> (r: DeleteMapping)
        ensures
            r == delete_mapping_step(self, event),
    {
        match (self, event) {
            (DeleteMapping::FindMapping(request), DeleteMappingEvent::Mapping(found)) => {
                match find_mapping(found) {
                    Ok(mapping) => DeleteMapping::FindServer(request, mapping.server_id),
                    Err(reply) => DeleteMapping::Done(UserReply::Now(reply)),
                }
            },
            (DeleteMapping::FindServer(request, _), DeleteMappingEvent::Server(found)) => {
                match find_mapped_server(&request.admin, found) {
                    Ok(_) => DeleteMapping::Delete(request),
                    Err(reply) => DeleteMapping::Done(UserReply::Now(reply)),
                }
            },
            (DeleteMapping::Delete(request), DeleteMappingEvent::Deleted(deleted)) => {
                match deleted {
                    Ok(true) => DeleteMapping::Done(UserReply::Item(request.user_id, None)),
                    Ok(false) => DeleteMapping::Done(
                        UserReply::Now(
                            Reply::Alert(StatusCode::NotFound, Message::MappingNotFound),
                        ),
                    ),
                    Err(_) => DeleteMapping::Done(
                        UserReply::Now(
                            Reply::Alert(
                                StatusCode::InternalServerError,
                                Message::MappingNotDeleted,
                            ),
                        ),
                    ),
                }
            },
            (deletion, _) => deletion,
        }
    }
}

/// Removing a user from a server for good: their account there is deleted, the
/// proxy forgets it, and the username is blocked so that no login creates it again.
pub enum KickUser {
    FindMapping(MappingRequest),
    FindServer(MappingRequest, ServerId),
    FindUser(MappingRequest, Server),
    /// Delete the account with this username on the server.
    DeleteAccount(MappingRequest, Server, String, DeleteUser),
    /// Forget the account; what became of it on the server.
    ForgetMapping(MappingRequest, Server, String, SyncStatus),
    /// Record the block that [`block_to_record`] gives.
    Block(MappingRequest, Server, String, SyncStatus),
    Done(UserReply),
}

/// The block of a username on a server, in the name of the admin who asked for it.
pub open spec fn block_recorded(
    request: MappingRequest,
    server: Server,
    username: String,
) -> BlockToRecord {
    BlockToRecord {
        key: BlockKey { server_id: server.id, username },
        blocked_by: request.admin.id,
    }
}

/// The block to record when a user is removed from a server.
pub fn block_to_record(request: &MappingRequest, server: &Server, username: &String) -> (r:
    BlockToRecord)
    ensures
        r == block_recorded(*request, *server, *username),
        r.key.server_id == server.id,
        r.key.username == username,
        r.blocked_by == request.admin.id,
{
    BlockToRecord {
        key: BlockKey { server_id: server.id, username: username.clone() },
        blocked_by: request.admin.id,
    }
}

/// The outcome of a step of removing a user.
pub enum KickEvent {
    Mapping(Result<Option<ServerMapping>, StorageError>),
    Server(Result<Option<Server>, StorageError>),
    User(Result<Option<LocalUser>, StorageError>),
    Deletion(DeleteEvent),
    /// Whether there was an account to forget.
    Forgotten(Result<bool, StorageError>),
    Blocked(Result<(), StorageError>),
}

/// Starts removing a user from the server of one of their accounts.
pub fn kick_user(request: MappingRequest) -> (r: KickUser)
    ensures
        r == KickUser::FindMapping(request),
{
    KickUser::FindMapping(request)
}

/// Where a removal goes once the deletion of the account has moved on.
pub open spec fn kick_deleted(
    request: MappingRequest,
    server: Server,
    username: String,
    deletion: DeleteUser,
) -> KickUser {
    match deletion {
        DeleteUser::Done(outcome) => KickUser::ForgetMapping(
            request,
            server,
            username,
            outcome.status,
        ),
        _ => KickUser::DeleteAccount(request, server, username, deletion),
    }
}

pub open spec fn kick_step(kick: KickUser, event: KickEvent) -> KickUser {
    match (kick, event) {
        (KickUser::FindMapping(request), KickEvent::Mapping(found)) => {
            match mapping_or_reply(found) {
                Ok(mapping) => KickUser::FindServer(request, mapping.server_id),
                Err(reply) => KickUser::Done(UserReply::Now(reply)),
            }
        },
        (KickUser::FindServer(request, _), KickEvent::Server(found)) => {
            match server_or_reply(request.admin, found) {
                Ok(server) => KickUser::FindUser(request, server),
                Err(reply) => KickUser::Done(UserReply::Now(reply)),
            }
        },
        (KickUser::FindUser(request, server), KickEvent::User(found)) => {
            match user_or_reply(found) {
                Ok(user) => KickUser::DeleteAccount(
                    request,
                    server,
                    user.original_username,
                    federated_users::delete_start(server, user.original_username),
                ),
                Err(reply) => KickUser::Done(UserReply::Now(reply)),
            }
        },
        (
            KickUser::DeleteAccount(request, server, username, deletion),
            KickEvent::Deletion(answer),
        ) => kick_deleted(
            request,
            server,
            username,
            federated_users::delete_step(deletion, answer),
        ),
        (
            KickUser::ForgetMapping(request, server, username, status),
            KickEvent::Forgotten(forgotten),
        ) => match forgotten {
            Ok(_) => KickUser::Block(request, server, username, status),
            Err(_) => KickUser::Done(
                UserReply::Now(
                    Reply::Alert(StatusCode::InternalServerError, Message::LocalMappingNotRemoved),
                ),
            ),
        },
        (KickUser::Block(request, server, username, status), KickEvent::Blocked(blocked)) => {
            match blocked {
                Ok(()) => KickUser::Done(
                    item_popup(request.user_id, Message::Kicked(username, server.name, status)),
                ),
                Err(_) => KickUser::Done(
                    item_popup(
                        request.user_id,
                        Message::KickedWithoutBlock(username, server.name),
                    ),
                ),
            }
        },
        _ => kick,
    }
}

impl KickUser {
    /// Takes the outcome of the pending work into account.
    pub fn advance(self, event: KickEvent) -> (r: KickUser)
        ensures
            r == kick_step(self, event),
    {
        match (self, event) {
            (KickUser::FindMapping(request), KickEvent::Mapping(found)) => {
                match find_mapping(found) {
                    Ok(mapping) => KickUser::FindServer(request, mapping.server_id),
                    Err(reply) => KickUser::Done(UserReply::Now(reply)),
                }
            },
            (KickUser::FindServer(request, _), KickEvent::Server(found)) => {
                match find_mapped_server(&request.admin, found) {
                    Ok(server) => KickUser::FindUser(request, server),
                    Err(reply) => KickUser::Done(UserReply::Now(reply)),
                }
            },
            (KickUser::FindUser(request, server), KickEvent::User(found)) => {
                match find_user(found) {
                    Ok(user) => {
                        let deletion = FederatedUserService::delete_user_from_server(
                            server.clone(),
                            user.original_username.clone(),
                        );
                        KickUser::DeleteAccount(request, server, user.original_username, deletion)
                    },
                    Err(reply) => KickUser::Done(UserReply::Now(reply)),
                }
            },
            (
                KickUser::DeleteAccount(request, server, username, deletion),
                KickEvent::Deletion(answer),
            ) => match deletion.advance(answer) {
                DeleteUser::Done(outcome) => KickUser::ForgetMapping(
                    request,
                    server,
                    username,
                    outcome.status,
                ),
                running => KickUser::DeleteAccount(request, server, username, running),
            },
            (
                KickUser::ForgetMapping(request, server, username, status),
                KickEvent::Forgotten(forgotten),
            ) => match forgotten {
                Ok(_) => KickUser::Block(request, server, username, status),
                Err(_) => KickUser::Done(
                    UserReply::Now(
                        Reply::Alert(
                            StatusCode::InternalServerError,
                            Message::LocalMappingNotRemoved,
                        ),
                    ),
                ),
            },
            (KickUser::Block(request, server, username, status), KickEvent::Blocked(blocked)) => {
                match blocked {
                    Ok(()) => KickUser::Done(
                        UserReply::Item(
                            request.user_id,
                            Some(Message::Kicked(username, server.name, status)),
                        ),
                    ),
                    Err(_) => KickUser::Done(
                        UserReply::Item(
                            request.user_id,
                            Some(Message::KickedWithoutBlock(username, server.name)),
                        ),
                    ),
                }
            },
            (kick, _) => kick,
        }
    }
}

/// The answer to a request to delete all sessions of a user.
pub fn delete_sessions(user_id: String, deleted: Result<(), StorageError>) -> (r: UserReply)
    ensures
        r == (match deleted {
            Ok(_) => UserReply::Item(user_id, None),
            Err(_) => UserReply::Now(
                Reply::Alert(StatusCode::InternalServerError, Message::SessionsNotDeleted),
            ),
        }),
{
    match deleted {
        Ok(_) => UserReply::Item(user_id, None),
        Err(_) => UserReply::Now(
            Reply::Alert(StatusCode::InternalServerError, Message::SessionsNotDeleted),
        ),
    }
}

pub open spec fn add_mapping_run(
    adding: AddMapping,
    events: Seq<AddMappingEvent>,
) -> AddMapping
    decreases events.len(),
{
    if events.len() == 0 {
        adding
    } else {
        add_mapping_step(add_mapping_run(adding, events.drop_last()), events.last())
    }
}

/// Some event was the server accepting the credentials.
pub open spec fn mapping_validated(events: Seq<AddMappingEvent>) -> bool {
    exists|i: int|
        0 <= i < events.len() && #[trigger] events[i] == AddMappingEvent::Authenticated(
            RemoteLogin::Accepted,
        )
}

/// The server that recording an account works on.
pub open spec fn mapping_server(adding: AddMapping) -> Option<Server> {
    match adding {
        AddMapping::Connect(_, server) => Some(server),
        AddMapping::Authenticate(_, server) => Some(server),
        AddMapping::Save(_, server) => Some(server),
        _ => None,
    }
}

/// An account is recorded only on the server that was asked for, if the admin
/// may act on it, and only after the server accepted the credentials. A server
/// on which the admin may not act is not even contacted.
pub proof fn mapping_is_validated(
    admin: CurrentAdmin,
    form: AddMappingForm,
    events: Seq<AddMappingEvent>,
)
    ensures
        ({
            let adding = add_mapping_run(AddMapping::ListServers(admin, form), events);
            &&& mapping_server(adding) matches Some(server) ==> ownership::may_act(admin, server)
                && server.id == form.server_id
            &&& adding matches AddMapping::ListServers(a, f) ==> a == admin && f == form
            &&& adding matches AddMapping::Connect(f, _) ==> f == form
            &&& adding matches AddMapping::Authenticate(f, _) ==> f == form
            &&& adding matches AddMapping::Save(f, _) ==> f == form && mapping_validated(events)
        }),
    decreases events.len(),
{
    if events.len() > 0 {
        let before = events.drop_last();
        mapping_is_validated(admin, form, before);
        assert(events[events.len() - 1] == events.last());
        if mapping_validated(before) {
            let i = choose|i: int|
                0 <= i < before.len() && #[trigger] before[i] == AddMappingEvent::Authenticated(
                    RemoteLogin::Accepted,
                );
            assert(events[i] == before[i]);
        }
        if let AddMappingEvent::Servers(Ok(servers)) = events.last() {
            server::position_is_of_that_server(servers@, form.server_id);
        }
    }
}

pub open spec fn delete_mapping_run(
    deletion: DeleteMapping,
    events: Seq<DeleteMappingEvent>,
) -> DeleteMapping
    decreases events.len(),
{
    if events.len() == 0 {
        deletion
    } else {
        delete_mapping_step(delete_mapping_run(deletion, events.drop_last()), events.last())
    }
}

/// Some event gave a server on which the admin may act.
pub open spec fn mapped_server_owned(
    admin: CurrentAdmin,
    events: Seq<DeleteMappingEvent>,
) -> bool {
    exists|i: int|
        0 <= i < events.len() && (#[trigger] events[i] matches DeleteMappingEvent::Server(
            Ok(Some(server)),
        ) && ownership::may_act(admin, server))
}

/// An account is forgotten only if its server was found to be one on which the
/// admin may act.
pub proof fn mapping_deletion_is_permitted(
    request: MappingRequest,
    events: Seq<DeleteMappingEvent>,
)
    ensures
        ({
            let deletion = delete_mapping_run(DeleteMapping::FindMapping(request), events);
            &&& deletion matches DeleteMapping::FindMapping(q) ==> q == request
            &&& deletion matches DeleteMapping::FindServer(q, _) ==> q == request
            &&& deletion matches DeleteMapping::Delete(q) ==> q == request && mapped_server_owned(
                request.admin,
                events,
            )
        }),
    decreases events.len(),
{
    if events.len() > 0 {
        let before = events.drop_last();
        mapping_deletion_is_permitted(request, before);
        assert(events[events.len() - 1] == events.last());
        if mapped_server_owned(request.admin, before) {
            let i = choose|i: int|
                0 <= i < before.len() && (#[trigger] before[i] matches DeleteMappingEvent::Server(
                    Ok(Some(server)),
                ) && ownership::may_act(request.admin, server));
            assert(events[i] == before[i]);
        }
    }
}

pub open spec fn kick_run(kick: KickUser, events: Seq<KickEvent>) -> KickUser
    decreases events.len(),
{
    if events.len() == 0 {
        kick
    } else {
        kick_step(kick_run(kick, events.drop_last()), events.last())
    }
}

/// The request of a removal, and its server once that is known.
pub open spec fn kick_target(kick: KickUser) -> Option<(MappingRequest, Option<Server>)> {
    match kick {
        KickUser::FindMapping(request) => Some((request, None)),
        KickUser::FindServer(request, _) => Some((request, None)),
        KickUser::FindUser(request, server) => Some((request, Some(server))),
        KickUser::DeleteAccount(request, server, _, _) => Some((request, Some(server))),
        KickUser::ForgetMapping(request, server, _, _) => Some((request, Some(server))),
        KickUser::Block(request, server, _, _) => Some((request, Some(server))),
        KickUser::Done(_) => None,
    }
}

/// Some event was the proxy forgetting the account.
pub open spec fn kick_forgot(events: Seq<KickEvent>) -> bool {
    exists|i: int| 0 <= i < events.len() && #[trigger] events[i] matches KickEvent::Forgotten(Ok(_))
}

/// Some event was the username being blocked.
pub open spec fn kick_blocked(events: Seq<KickEvent>) -> bool {
    exists|i: int| 0 <= i < events.len() && #[trigger] events[i] matches KickEvent::Blocked(Ok(_))
}

/// Whatever happens in the course of a removal:
/// - it deletes, forgets and blocks nothing unless the admin may act on the
///   server: a request that is refused changes nothing;
/// - the username is blocked only after the proxy forgot the account;
/// - the admin is told that the user will not come back only after the proxy
///   forgot the account and the username was blocked.
pub proof fn kick_is_permitted_and_complete(request: MappingRequest, events: Seq<KickEvent>)
    ensures
        ({
            let kick = kick_run(KickUser::FindMapping(request), events);
            &&& kick_target(kick) matches Some((current, known)) ==> current == request && (
            known matches Some(server) ==> ownership::may_act(request.admin, server))
            &&& kick is Block ==> kick_forgot(events)
            &&& kick matches KickUser::Done(UserReply::Item(user_id, message)) ==> user_id
                == request.user_id && kick_forgot(events) && (message matches Some(
                Message::Kicked(_, _, _),
            ) ==> kick_blocked(events))
        }),
    decreases events.len(),
{
    if events.len() > 0 {
        let before = events.drop_last();
        kick_is_permitted_and_complete(request, before);
        assert(events[events.len() - 1] == events.last());
        if kick_forgot(before) {
            let i = choose|i: int|
                0 <= i < before.len() && #[trigger] before[i] matches KickEvent::Forgotten(Ok(_));
            assert(events[i] == before[i]);
            assert(kick_forgot(events));
        }
        if kick_blocked(before) {
            let i = choose|i: int|
                0 <= i < before.len() && #[trigger] before[i] matches KickEvent::Blocked(Ok(_));
            assert(events[i] == before[i]);
            assert(kick_blocked(events));
        }
    }
}

/// The block that a removal records is the one that a login looks up before it
/// creates a user, exactly when both are for the same username on the same server;
/// and with that block the login creates nothing.
pub proof fn removed_users_stay_removed(
    request: MappingRequest,
    server: Server,
    username: String,
    attempt: LoginAttempt,
)
    ensures
        users::block_looked_up(attempt)@ == block_recorded(request, server, username).key@ <==> (
        attempt.server.id == server.id && attempt.payload.username@ == username@),
        users::auto_create_step(
            AutoCreate::CheckBlocked(attempt),
            AutoCreateEvent::Blocked(Ok(true)),
        ) == AutoCreate::Refused(AuthError::InvalidCredentials),
{
}

/// A removal by an admin who may not act on the server ends there.
pub proof fn kick_is_refused_to_others(
    request: MappingRequest,
    mapping: ServerMapping,
    server: Server,
)
    requires
        !ownership::may_act(request.admin, server),
    ensures
        kick_step(
            kick_step(KickUser::FindMapping(request), KickEvent::Mapping(Ok(Some(mapping)))),
            KickEvent::Server(Ok(Some(server))),
        ) == KickUser::Done(UserReply::Now(Reply::Status(StatusCode::Forbidden))),
{
}

/// Of several counts for one URL the last one holds; without one there are no
/// sessions.
pub proof fn last_count_holds(counts: Seq<(String, i64)>, url: Seq<char>)
    ensures
        forall|i: int|
            0 <= i < counts.len() && (#[trigger] counts[i]).0@ == url && (forall|j: int|
                i < j < counts.len() ==> (#[trigger] counts[j]).0@ != url) ==> sessions_at(
                counts,
                url,
            ) == counts[i].1,
        (forall|j: int| 0 <= j < counts.len() ==> (#[trigger] counts[j]).0@ != url) ==> sessions_at(
            counts,
            url,
        ) == 0,
    decreases counts.len(),
{
    if counts.len() > 0 {
        let front = counts.drop_last();
        let n = counts.len() - 1;
        last_count_holds(front, url);
        assert forall|i: int|
            0 <= i < counts.len() && (#[trigger] counts[i]).0@ == url && (forall|j: int|
                i < j < counts.len() ==> (#[trigger] counts[j]).0@ != url) implies sessions_at(
            counts,
            url,
        ) == counts[i].1 by {
            if i < n {
                assert(counts[n].0@ != url);
                assert(front[i] == counts[i]);
                assert forall|j: int| i < j < front.len() implies (#[trigger] front[j]).0@
                    != url by {
                    assert(front[j] == counts[j]);
                }
            }
        }
        if forall|j: int| 0 <= j < counts.len() ==> (#[trigger] counts[j]).0@ != url {
            assert(counts[n].0@ != url);
            assert forall|j: int| 0 <= j < front.len() implies (#[trigger] front[j]).0@ != url by {
                assert(front[j] == counts[j]);
            }
        }
    }
}

/// The accounts shown are all those on a server that exists, in their order, each
/// with the first server of that id and the sessions counted for its URL.
pub proof fn accounts_are_all_shown(
    servers: Seq<Server>,
    counts: Seq<(String, i64)>,
    mappings: Seq<ServerMapping>,
)
    ensures
        ({
            let rows = account_rows(servers, counts, mappings);
            &&& rows.map_values(|row: (ServerMapping, Server, i64)| row.0) == mappings.filter(
                |m: ServerMapping| is_known(servers, m.server_id),
            )
            &&& forall|i: int|
                0 <= i < rows.len() ==> {
                    let shown = #[trigger] rows[i];
                    &&& shown.2 == sessions_at(counts, shown.1.url@)
                    &&& exists|at: int|
                        0 <= at < servers.len() && #[trigger] servers[at] == shown.1 && shown.1.id
                            == shown.0.server_id && forall|j: int|
                            0 <= j < at ==> (#[trigger] servers[j]).id != shown.0.server_id
                }
        }),
    decreases mappings.len(),
{
    reveal(Seq::filter);
    let of = |row: (ServerMapping, Server, i64)| row.0;
    let known = |m: ServerMapping| is_known(servers, m.server_id);
    let rows = account_rows(servers, counts, mappings);
    if mappings.len() == 0 {
        assert(rows.map_values(of) =~= mappings.filter(known));
    } else {
        let front = mappings.drop_last();
        let last = mappings.last();
        accounts_are_all_shown(servers, counts, front);
        let earlier = account_rows(servers, counts, front);
        let at = server::position_of(servers, last.server_id);
        server::position_is_of_that_server(servers, last.server_id);
        if at < servers.len() {
            assert(servers[at].id == last.server_id);
            assert(known(last));
            assert(rows.map_values(of) =~= earlier.map_values(of).push(last));
        } else {
            assert(!known(last)) by {
                if is_known(servers, last.server_id) {
                    let j = choose|j: int|
                        0 <= j < servers.len() && (#[trigger] servers[j]).id == last.server_id;
                    assert(servers[j].id != last.server_id);
                }
            }
        }
        assert forall|i: int| 0 <= i < rows.len() implies {
            let shown = #[trigger] rows[i];
            &&& shown.2 == sessions_at(counts, shown.1.url@)
            &&& exists|p: int|
                0 <= p < servers.len() && #[trigger] servers[p] == shown.1 && shown.1.id
                    == shown.0.server_id && forall|j: int|
                    0 <= j < p ==> (#[trigger] servers[j]).id != shown.0.server_id
        } by {
            if i < earlier.len() {
                assert(rows[i] == earlier[i]);
            } else {
                assert(servers[at] == rows[i].1);
            }
        }
    }
}

/// The servers offered are those without an account, in their order, and the total
/// is the sum over the accounts. It can be added up exactly when no sum on the way
/// leaves the range of an `i64`.
pub proof fn offers_and_total(servers: Seq<Server>, rows: Seq<(ServerMapping, Server, i64)>)
    ensures
        servers_without(servers, rows) == servers.filter(
            |s: Server|
                forall|i: int| 0 <= i < rows.len() ==> (#[trigger] rows[i]).1.id != s.id,
        ),
        total_sessions(rows) == rows.fold_left(
            0int,
            |sum: int, row: (ServerMapping, Server, i64)| sum + row.2,
        ),
        sessions_add_up(rows) <==> forall|k: int|
            0 <= k <= rows.len() ==> i64::MIN <= (#[trigger] rows.take(k)).fold_left(
                0int,
                |sum: int, row: (ServerMapping, Server, i64)| sum + row.2,
            ) <= i64::MAX,
    decreases servers.len(),
{
    reveal(Seq::filter);
    sessions_are_summed(rows);
    assert forall|k: int| 0 <= k <= rows.len() implies total_sessions(#[trigger] rows.take(k))
        == rows.take(k).fold_left(
        0int,
        |sum: int, row: (ServerMapping, Server, i64)| sum + row.2,
    ) by {
        sessions_are_summed(rows.take(k));
    }
    if servers.len() > 0 {
        offers_and_total(servers.drop_last(), rows);
    }
}

proof fn sessions_are_summed(rows: Seq<(ServerMapping, Server, i64)>)
    ensures
        total_sessions(rows) == rows.fold_left(
            0int,
            |sum: int, row: (ServerMapping, Server, i64)| sum + row.2,
        ),
    decreases rows.len(),
{
    if rows.len() > 0 {
        sessions_are_summed(rows.drop_last());
    }
}

/// A lookup that fails, or finds nothing, is answered as such; one on a server that
/// is not the admin's is answered as forbidden.
pub proof fn lookups_are_answered(
    admin: CurrentAdmin,
    user: LocalUser,
    mapping: ServerMapping,
    server: Server,
    error: StorageError,
)
    ensures
        user_or_reply(Ok(Some(user))) == Ok::<LocalUser, Reply>(user),
        user_or_reply(Ok(None)) == Err::<LocalUser, Reply>(
            Reply::Alert(StatusCode::NotFound, Message::UserNotFound),
        ),
        user_or_reply(Err(error)) == Err::<LocalUser, Reply>(
            Reply::Text(StatusCode::InternalServerError, Message::DatabaseError),
        ),
        mapping_or_reply(Ok(Some(mapping))) == Ok::<ServerMapping, Reply>(mapping),
        mapping_or_reply(Ok(None)) == Err::<ServerMapping, Reply>(
            Reply::Alert(StatusCode::NotFound, Message::MappingNotFound),
        ),
        mapping_or_reply(Err(error)) == Err::<ServerMapping, Reply>(
            Reply::Text(StatusCode::InternalServerError, Message::DatabaseError),
        ),
        admin.is_superadmin || server.owner_admin_id == Some(admin.id) ==> server_or_reply(
            admin,
            Ok(Some(server)),
        ) == Ok::<Server, Reply>(server),
        !admin.is_superadmin && server.owner_admin_id != Some(admin.id) ==> server_or_reply(
            admin,
            Ok(Some(server)),
        ) == Err::<Server, Reply>(Reply::Status(StatusCode::Forbidden)),
        server_or_reply(admin, Ok(None)) == Err::<Server, Reply>(
            Reply::Alert(StatusCode::NotFound, Message::ServerNotFound),
        ),
        server_or_reply(admin, Err(error)) == Err::<Server, Reply>(
            Reply::Text(StatusCode::InternalServerError, Message::DatabaseError),
        ),
{
}

/// A user who was created is synced to every server if the form asks for it, and is
/// then shown in the list with what happened on the servers. A username that is
/// taken is told from other failures.
pub proof fn added_user_is_listed(
    form: AddUserForm,
    user: LocalUser,
    error: StorageError,
    report: Vec<ServerSyncResult>,
)
    ensures
        ({
            let created = add_user_step(AddUser::Create(form), AddUserEvent::Created(Ok(user)));
            let failed = add_user_step(AddUser::Create(form), AddUserEvent::Created(Err(error)));
            &&& form.enable_federation ==> created == AddUser::SyncAll(form, user)
            &&& !form.enable_federation ==> created == AddUser::Done(UserReply::List(None))
            &&& add_user_step(AddUser::SyncAll(form, user), AddUserEvent::Synced(report))
                == AddUser::Done(UserReply::List(Some(report)))
            &&& error.is_unique_violation() ==> failed == AddUser::Done(
                UserReply::Now(Reply::Alert(StatusCode::Conflict, Message::UserExists)),
            )
            &&& !error.is_unique_violation() ==> failed == AddUser::Done(
                UserReply::Now(
                    Reply::Alert(StatusCode::InternalServerError, Message::UserNotCreated),
                ),
            )
        }),
{
}

pub open spec fn remove_user_run(removal: RemoveUser, events: Seq<RemoveUserEvent>) -> RemoveUser
    decreases events.len(),
{
    if events.len() == 0 {
        removal
    } else {
        remove_user_step(remove_user_run(removal, events.drop_last()), events.last())
    }
}

/// Some event was the local deletion having worked.
pub open spec fn deleted_locally(events: Seq<RemoveUserEvent>) -> bool {
    events.contains(RemoveUserEvent::Deleted(Ok(true)))
}

/// Some event found a user with this name.
pub open spec fn found_user_named(events: Seq<RemoveUserEvent>, username: String) -> bool {
    exists|i: int|
        0 <= i < events.len() && (#[trigger] events[i] matches RemoveUserEvent::Found(
            Ok(Some(user)),
        ) && user.original_username == username)
}

/// Whatever happens in the course of deleting a user:
/// - it is that user who is deleted, and on the servers only accounts of the name
///   under which the user was found, and only if the form asks for it;
/// - the list is shown only after the local deletion worked, with what happened on
///   the servers if they were asked, and without a report if not.
pub proof fn removal_deletes_the_user(
    user_id: String,
    form: DeleteUserForm,
    events: Seq<RemoveUserEvent>,
)
    ensures
        match remove_user_run(RemoveUser::FindUser(user_id, form), events) {
            RemoveUser::FindUser(id, f) => id == user_id && f == form,
            RemoveUser::DeleteEverywhere(id, username) => id == user_id && form.delete_federated
                && found_user_named(events, username),
            RemoveUser::DeleteLocally(id, report) => id == user_id && (report is Some
                <==> form.delete_federated) && (report matches Some(results)
                ==> events.contains(RemoveUserEvent::DeletedEverywhere(results))),
            RemoveUser::Done(UserReply::List(report)) => deleted_locally(events) && (report is Some
                <==> form.delete_federated) && (report matches Some(results)
                ==> events.contains(RemoveUserEvent::DeletedEverywhere(results))),
            RemoveUser::Done(reply) => reply is Now,
        },
    decreases events.len(),
{
    if events.len() > 0 {
        let before = events.drop_last();
        removal_deletes_the_user(user_id, form, before);
        assert(events[events.len() - 1] == events.last());
        assert forall|e: RemoveUserEvent| #[trigger] before.contains(e) implies events.contains(
            e,
        ) by {
            let i = choose|i: int| 0 <= i < before.len() && #[trigger] before[i] == e;
            assert(events[i] == e);
        }
        if let RemoveUser::DeleteEverywhere(_, username) = remove_user_run(
            RemoveUser::FindUser(user_id, form),
            before,
        ) {
            let i = choose|i: int|
                0 <= i < before.len() && (#[trigger] before[i] matches RemoveUserEvent::Found(
                    Ok(Some(user)),
                ) && user.original_username == username);
            assert(events[i] == before[i]);
        }
    }
}

/// A user who is found is deleted on the servers first, if the form asks for it, and
/// whatever the servers report, then locally. The list is shown once that worked,
/// with the report; otherwise the failure is.
pub proof fn removal_goes_on_to_the_local_user(
    user_id: String,
    form: DeleteUserForm,
    user: LocalUser,
    username: String,
    report: Vec<ServerSyncResult>,
    known: Option<Vec<ServerSyncResult>>,
    error: StorageError,
)
    ensures
        ({
            let start = RemoveUser::FindUser(user_id, form);
            let found = remove_user_step(start, RemoveUserEvent::Found(Ok(Some(user))));
            &&& form.delete_federated ==> found == RemoveUser::DeleteEverywhere(
                user_id,
                user.original_username,
            )
            &&& !form.delete_federated ==> found == RemoveUser::DeleteLocally(user_id, None)
            &&& remove_user_step(start, RemoveUserEvent::Found(Ok(None))) == RemoveUser::Done(
                UserReply::Now(Reply::Alert(StatusCode::NotFound, Message::UserNotFound)),
            )
            &&& remove_user_step(start, RemoveUserEvent::Found(Err(error))) == RemoveUser::Done(
                UserReply::Now(
                    Reply::Alert(StatusCode::InternalServerError, Message::DatabaseError),
                ),
            )
        }),
        remove_user_step(
            RemoveUser::DeleteEverywhere(user_id, username),
            RemoveUserEvent::DeletedEverywhere(report),
        ) == RemoveUser::DeleteLocally(user_id, Some(report)),
        ({
            let last = RemoveUser::DeleteLocally(user_id, known);
            &&& remove_user_step(last, RemoveUserEvent::Deleted(Ok(true))) == RemoveUser::Done(
                UserReply::List(known),
            )
            &&& remove_user_step(last, RemoveUserEvent::Deleted(Ok(false))) == RemoveUser::Done(
                UserReply::Now(Reply::Alert(StatusCode::NotFound, Message::UserNotFound)),
            )
            &&& remove_user_step(last, RemoveUserEvent::Deleted(Err(error))) == RemoveUser::Done(
                UserReply::Now(
                    Reply::Alert(StatusCode::InternalServerError, Message::UserNotDeleted),
                ),
            )
        }),
{
}

/// Recording an account goes on with the first server of the id asked for, if the
/// admin may act on it, and from there to a login with the credentials given; the
/// account is recorded once the server accepted them, and then the user is shown.
pub proof fn mapping_takes_its_course(
    admin: CurrentAdmin,
    form: AddMappingForm,
    servers: Vec<Server>,
    at: int,
    server: Server,
    id: i64,
)
    requires
        0 <= at < servers@.len(),
        servers@[at].id == form.server_id,
        forall|j: int| 0 <= j < at ==> (#[trigger] servers@[j]).id != form.server_id,
        admin.is_superadmin || servers@[at].owner_admin_id == Some(admin.id),
    ensures
        add_mapping_step(
            AddMapping::ListServers(admin, form),
            AddMappingEvent::Servers(Ok(servers)),
        ) == AddMapping::Connect(form, servers@[at]),
        add_mapping_step(AddMapping::Connect(form, server), AddMappingEvent::Connected(Ok(())))
            == AddMapping::Authenticate(form, server),
        add_mapping_step(
            AddMapping::Authenticate(form, server),
            AddMappingEvent::Authenticated(RemoteLogin::Accepted),
        ) == AddMapping::Save(form, server),
        add_mapping_step(AddMapping::Save(form, server), AddMappingEvent::Saved(Ok(id)))
            == AddMapping::Done(UserReply::Item(form.user_id, None)),
{
    server::position_is_of_that_server(servers@, form.server_id);
    let found = server::position_of(servers@, form.server_id);
    if found < at {
        assert(servers@[found].id == form.server_id);
    }
    if at < found {
        assert(servers@[at].id != form.server_id);
    }
}

/// Every way in which recording an account can fail shows the user with a message
/// of its own, but for a failure of the proxy's own records.
pub proof fn mapping_failures_are_shown(
    admin: CurrentAdmin,
    form: AddMappingForm,
    servers: Vec<Server>,
    at: int,
    server: Server,
    storage: StorageError,
    error: String,
)
    ensures
        ({
            let listed = add_mapping_step(
                AddMapping::ListServers(admin, form),
                AddMappingEvent::Servers(Ok(servers)),
            );
            &&& (forall|j: int|
                0 <= j < servers@.len() ==> (#[trigger] servers@[j]).id != form.server_id)
                ==> listed == AddMapping::Done(
                UserReply::Item(form.user_id, Some(Message::SelectedServerNotFound)),
            )
            &&& 0 <= at < servers@.len() && servers@[at].id == form.server_id && (forall|j: int|
                0 <= j < at ==> (#[trigger] servers@[j]).id != form.server_id)
                && !admin.is_superadmin && servers@[at].owner_admin_id != Some(admin.id)
                ==> listed == AddMapping::Done(
                UserReply::Item(form.user_id, Some(Message::MappingNotPermitted)),
            )
        }),
        add_mapping_step(
            AddMapping::ListServers(admin, form),
            AddMappingEvent::Servers(Err(storage)),
        ) == AddMapping::Done(UserReply::Item(form.user_id, Some(Message::ServersNotLoaded))),
        add_mapping_step(
            AddMapping::Connect(form, server),
            AddMappingEvent::Connected(Err(error)),
        ) == AddMapping::Done(
            UserReply::Item(form.user_id, Some(Message::NotConnected(server.name))),
        ),
        add_mapping_step(
            AddMapping::Authenticate(form, server),
            AddMappingEvent::Authenticated(RemoteLogin::Rejected),
        ) == AddMapping::Done(
            UserReply::Item(form.user_id, Some(Message::MappingRejected(server.name))),
        ),
        add_mapping_step(
            AddMapping::Authenticate(form, server),
            AddMappingEvent::Authenticated(RemoteLogin::Failed(error)),
        ) == AddMapping::Done(
            UserReply::Item(form.user_id, Some(Message::MappingNotValidated(server.name, error))),
        ),
        add_mapping_step(AddMapping::Save(form, server), AddMappingEvent::Saved(Err(storage)))
            == AddMapping::Done(
            UserReply::Now(Reply::Alert(StatusCode::InternalServerError, Message::MappingNotAdded)),
        ),
{
    server::position_is_of_that_server(servers@, form.server_id);
    let found = server::position_of(servers@, form.server_id);
    if found < servers@.len() {
        assert(servers@[found].id == form.server_id);
        if 0 <= at < found {
            assert(servers@[at].id != form.server_id);
        }
    }
}

/// Forgetting an account looks up the account, then its server, and then forgets
/// that account; the user is shown once that worked, and otherwise the failure is.
pub proof fn mapping_deletion_takes_its_course(
    request: MappingRequest,
    mapping: ServerMapping,
    server: Server,
    id: ServerId,
    error: StorageError,
)
    ensures
        delete_mapping_step(
            DeleteMapping::FindMapping(request),
            DeleteMappingEvent::Mapping(Ok(Some(mapping))),
        ) == DeleteMapping::FindServer(request, mapping.server_id),
        delete_mapping_step(
            DeleteMapping::FindMapping(request),
            DeleteMappingEvent::Mapping(Ok(None)),
        ) == DeleteMapping::Done(
            UserReply::Now(Reply::Alert(StatusCode::NotFound, Message::MappingNotFound)),
        ),
        delete_mapping_step(
            DeleteMapping::FindMapping(request),
            DeleteMappingEvent::Mapping(Err(error)),
        ) == DeleteMapping::Done(
            UserReply::Now(Reply::Text(StatusCode::InternalServerError, Message::DatabaseError)),
        ),
        delete_mapping_step(
            DeleteMapping::FindServer(request, id),
            DeleteMappingEvent::Server(Ok(Some(server))),
        ) == (if request.admin.is_superadmin || server.owner_admin_id == Some(request.admin.id) {
            DeleteMapping::Delete(request)
        } else {
            DeleteMapping::Done(UserReply::Now(Reply::Status(StatusCode::Forbidden)))
        }),
        delete_mapping_step(
            DeleteMapping::FindServer(request, id),
            DeleteMappingEvent::Server(Ok(None)),
        ) == DeleteMapping::Done(
            UserReply::Now(Reply::Alert(StatusCode::NotFound, Message::ServerNotFound)),
        ),
        delete_mapping_step(
            DeleteMapping::FindServer(request, id),
            DeleteMappingEvent::Server(Err(error)),
        ) == DeleteMapping::Done(
            UserReply::Now(Reply::Text(StatusCode::InternalServerError, Message::DatabaseError)),
        ),
        delete_mapping_step(
            DeleteMapping::Delete(request),
            DeleteMappingEvent::Deleted(Ok(true)),
        ) == DeleteMapping::Done(UserReply::Item(request.user_id, None)),
        delete_mapping_step(
            DeleteMapping::Delete(request),
            DeleteMappingEvent::Deleted(Ok(false)),
        ) == DeleteMapping::Done(
            UserReply::Now(Reply::Alert(StatusCode::NotFound, Message::MappingNotFound)),
        ),
        delete_mapping_step(
            DeleteMapping::Delete(request),
            DeleteMappingEvent::Deleted(Err(error)),
        ) == DeleteMapping::Done(
            UserReply::Now(
                Reply::Alert(StatusCode::InternalServerError, Message::MappingNotDeleted),
            ),
        ),
{
}

/// Whatever happens in the course of forgetting an account, the user is shown only
/// after the account was forgotten, and it is the user of the request.
pub proof fn forgotten_before_shown(request: MappingRequest, events: Seq<DeleteMappingEvent>)
    ensures
        match delete_mapping_run(DeleteMapping::FindMapping(request), events) {
            DeleteMapping::Done(UserReply::Item(user_id, message)) => user_id == request.user_id
                && message is None && events.contains(DeleteMappingEvent::Deleted(Ok(true))),
            DeleteMapping::Done(reply) => reply is Now,
            _ => true,
        },
    decreases events.len(),
{
    if events.len() > 0 {
        let before = events.drop_last();
        forgotten_before_shown(request, before);
        mapping_deletion_is_permitted(request, before);
        assert(events[events.len() - 1] == events.last());
        assert forall|e: DeleteMappingEvent| #[trigger] before.contains(e) implies events.contains(
            e,
        ) by {
            let i = choose|i: int| 0 <= i < before.len() && #[trigger] before[i] == e;
            assert(events[i] == e);
        }
    }
}

/// A removal from a server looks up the account, its server and the user, deletes
/// the account of the user's own name there, then forgets the account whatever
/// became of it on the server, and then blocks that name; the message names the
/// user, the server and what became of the account.
pub proof fn kick_takes_its_course(
    request: MappingRequest,
    mapping: ServerMapping,
    server: Server,
    id: ServerId,
    user: LocalUser,
    username: String,
    deletion: DeleteUser,
    answer: DeleteEvent,
    status: SyncStatus,
    forgotten: bool,
)
    ensures
        kick_step(KickUser::FindMapping(request), KickEvent::Mapping(Ok(Some(mapping))))
            == KickUser::FindServer(request, mapping.server_id),
        request.admin.is_superadmin || server.owner_admin_id == Some(request.admin.id)
            ==> kick_step(
            KickUser::FindServer(request, id),
            KickEvent::Server(Ok(Some(server))),
        ) == KickUser::FindUser(request, server),
        kick_step(KickUser::FindUser(request, server), KickEvent::User(Ok(Some(user))))
            == KickUser::DeleteAccount(
            request,
            server,
            user.original_username,
            federated_users::delete_start(server, user.original_username),
        ),
        ({
            let next = federated_users::delete_step(deletion, answer);
            let kicked = kick_step(
                KickUser::DeleteAccount(request, server, username, deletion),
                KickEvent::Deletion(answer),
            );
            &&& next matches DeleteUser::Done(o) ==> kicked == KickUser::ForgetMapping(
                request,
                server,
                username,
                o.status,
            )
            &&& next !is Done ==> kicked == KickUser::DeleteAccount(request, server, username, next)
        }),
        kick_step(
            KickUser::ForgetMapping(request, server, username, status),
            KickEvent::Forgotten(Ok(forgotten)),
        ) == KickUser::Block(request, server, username, status),
        kick_step(
            KickUser::Block(request, server, username, status),
            KickEvent::Blocked(Ok(())),
        ) == KickUser::Done(
            UserReply::Item(
                request.user_id,
                Some(Message::Kicked(username, server.name, status)),
            ),
        ),
{
}

/// Every way in which a removal from a server can fail has its own answer.
pub proof fn kick_failures_are_answered(
    request: MappingRequest,
    server: Server,
    id: ServerId,
    username: String,
    status: SyncStatus,
    error: StorageError,
)
    ensures
        ({
            let database = KickUser::Done(
                UserReply::Now(Reply::Text(StatusCode::InternalServerError, Message::DatabaseError)),
            );
            &&& kick_step(KickUser::FindMapping(request), KickEvent::Mapping(Ok(None)))
                == KickUser::Done(
                UserReply::Now(Reply::Alert(StatusCode::NotFound, Message::MappingNotFound)),
            )
            &&& kick_step(KickUser::FindMapping(request), KickEvent::Mapping(Err(error)))
                == database
            &&& kick_step(KickUser::FindServer(request, id), KickEvent::Server(Ok(None)))
                == KickUser::Done(
                UserReply::Now(Reply::Alert(StatusCode::NotFound, Message::ServerNotFound)),
            )
            &&& kick_step(KickUser::FindServer(request, id), KickEvent::Server(Err(error)))
                == database
            &&& kick_step(KickUser::FindUser(request, server), KickEvent::User(Ok(None)))
                == KickUser::Done(
                UserReply::Now(Reply::Alert(StatusCode::NotFound, Message::UserNotFound)),
            )
            &&& kick_step(KickUser::FindUser(request, server), KickEvent::User(Err(error)))
                == database
            &&& kick_step(
                KickUser::ForgetMapping(request, server, username, status),
                KickEvent::Forgotten(Err(error)),
            ) == KickUser::Done(
                UserReply::Now(
                    Reply::Alert(StatusCode::InternalServerError, Message::LocalMappingNotRemoved),
                ),
            )
            &&& kick_step(
                KickUser::Block(request, server, username, status),
                KickEvent::Blocked(Err(error)),
            ) == KickUser::Done(
                UserReply::Item(
                    request.user_id,
                    Some(Message::KickedWithoutBlock(username, server.name)),
                ),
            )
        }),
{
}

/// An event that does not answer the pending work changes nothing.
pub proof fn stray_events_change_nothing(
    adding: AddUser,
    added: AddUserEvent,
    removal: RemoveUser,
    removed: RemoveUserEvent,
    mapping: AddMapping,
    mapped: AddMappingEvent,
    deletion: DeleteMapping,
    deleted: DeleteMappingEvent,
    kick: KickUser,
    kicked: KickEvent,
)
    ensures
        add_user_step(adding, added) == adding || {
            ||| adding is Create && added is Created
            ||| adding is SyncAll && added is Synced
        },
        remove_user_step(removal, removed) == removal || {
            ||| removal is FindUser && removed is Found
            ||| removal is DeleteEverywhere && removed is DeletedEverywhere
            ||| removal is DeleteLocally && removed is Deleted
        },
        add_mapping_step(mapping, mapped) == mapping || {
            ||| mapping is ListServers && mapped is Servers
            ||| mapping is Connect && mapped is Connected
            ||| mapping is Authenticate && mapped is Authenticated
            ||| mapping is Save && mapped is Saved
        },
        delete_mapping_step(deletion, deleted) == deletion || {
            ||| deletion is FindMapping && deleted is Mapping
            ||| deletion is FindServer && deleted is Server
            ||| deletion is Delete && deleted is Deleted
        },
        kick_step(kick, kicked) == kick || {
            ||| kick is FindMapping && kicked is Mapping
            ||| kick is FindServer && kicked is Server
            ||| kick is FindUser && kicked is User
            ||| kick is DeleteAccount && kicked is Deletion
            ||| kick is ForgetMapping && kicked is Forgotten
            ||| kick is Block && kicked is Blocked
        },
{
}

/// Some event found this server.
pub open spec fn kick_found_server(events: Seq<KickEvent>, server: Server) -> bool {
    events.contains(KickEvent::Server(Ok(Some(server))))
}

/// Some event found a user of this name.
pub open spec fn kick_found_user(events: Seq<KickEvent>, username: String) -> bool {
    exists|i: int|
        0 <= i < events.len() && (#[trigger] events[i] matches KickEvent::User(Ok(Some(user)))
            && user.original_username == username)
}

/// Whatever happens in the course of a removal, the name whose account is deleted and
/// which is blocked, and which the admin is told, is that of the user who was found,
/// and the server is the one that was found.
pub proof fn kick_concerns_the_user_found(request: MappingRequest, events: Seq<KickEvent>)
    ensures
        match kick_run(KickUser::FindMapping(request), events) {
            KickUser::FindUser(_, server) => kick_found_server(events, server),
            KickUser::DeleteAccount(_, server, username, _) => kick_found_server(events, server)
                && kick_found_user(events, username),
            KickUser::ForgetMapping(_, server, username, _) => kick_found_server(events, server)
                && kick_found_user(events, username),
            KickUser::Block(_, server, username, _) => kick_found_server(events, server)
                && kick_found_user(events, username),
            KickUser::Done(UserReply::Item(_, Some(Message::Kicked(username, _, _)))) => {
                kick_found_user(events, username)
            },
            KickUser::Done(UserReply::Item(_, Some(Message::KickedWithoutBlock(username, _)))) => {
                kick_found_user(events, username)
            },
            KickUser::Done(reply) => reply is Now,
            _ => true,
        },
    decreases events.len(),
{
    if events.len() > 0 {
        let before = events.drop_last();
        kick_concerns_the_user_found(request, before);
        assert(events[events.len() - 1] == events.last());
        assert forall|e: KickEvent| #[trigger] before.contains(e) implies events.contains(e) by {
            let i = choose|i: int| 0 <= i < before.len() && #[trigger] before[i] == e;
            assert(events[i] == e);
        }
        assert forall|server: Server| kick_found_server(before, server) implies kick_found_server(
            events,
            server,
        ) by {}
        assert forall|username: String| kick_found_user(before, username) implies kick_found_user(
            events,
            username,
        ) by {
            let i = choose|i: int|
                0 <= i < before.len() && (#[trigger] before[i] matches KickEvent::User(
                    Ok(Some(user)),
                ) && user.original_username == username);
            assert(events[i] == before[i]);
        }
    }
}

} // verus!
