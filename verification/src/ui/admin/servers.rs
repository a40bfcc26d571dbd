//! Managing the servers behind the proxy.

use vstd::prelude::*;

use crate::admin_id::AdminId;
use crate::console_admin_service::ConsoleAdmin;
use crate::encryption::Password;
use crate::server::{MediaStreamingMode, Server, ServerAdmin, ServerId};
use crate::status::StatusCode;
use crate::storage::{DatabaseFault, StorageError};
use crate::text;
use crate::ui::admin::ownership::{self, CurrentAdmin};
use crate::ui::admin::reply::{Message, Reply};

verus! {

pub struct ServersPageTemplate {
    pub ui_route: String,
}

/// A server as the list shows it.
pub struct ServerWithAdmin {
    pub server: Server,
    pub has_admin: bool,
    pub is_redirect: bool,
    pub is_proxy: bool,
    /// The username of the owner, which is shown to superadmins only.
    pub owner_username: Option<String>,
}

pub struct ServerListTemplate {
    pub servers: Vec<ServerWithAdmin>,
    pub ui_route: String,
    pub is_superadmin: bool,
}

pub struct AddServerForm {
    pub name: String,
    pub url: String,
    pub priority: i32,
    pub media_streaming_mode: String,
}

pub struct UpdatePriorityForm {
    pub priority: i32,
}

pub struct UpdateMediaStreamingModeForm {
    pub media_streaming_mode: String,
}

pub struct AddServerAdminForm {
    pub username: String,
    pub password: Password,
}

/// The servers that a list is made of.
#[derive(Clone, Copy, Debug)]
pub enum ServerQuery {
    All,
    OwnedBy(AdminId),
}

impl ServerQuery {
    /// Whether the query finds this server.
    pub open spec fn finds(self, server: Server) -> bool {
        match self {
            ServerQuery::All => true,
            ServerQuery::OwnedBy(id) => server.owner_admin_id == Some(id),
        }
    }
}

/// The servers that the viewer manages: all for a superadmin, their own otherwise.
pub fn visible_servers(viewer: &CurrentAdmin) -> (r: ServerQuery)
    ensures
        r == (if viewer.is_superadmin {
            ServerQuery::All
        } else {
            ServerQuery::OwnedBy(viewer.id)
        }),
        forall|server: Server| #[trigger]
            r.finds(server) <==> ownership::may_act(*viewer, server),
        forall|server: Server| #[trigger]
            r.finds(server) <==> viewer.is_superadmin || server.owner_admin_id == Some(viewer.id),
{
    if viewer.is_superadmin {
        ServerQuery::All
    } else {
        ServerQuery::OwnedBy(viewer.id)
    }
}

/// The admin to look up as the owner of `server`, if the viewer gets to see it.
pub fn owner_to_show(viewer: &CurrentAdmin, server: &Server) -> (r: Option<AdminId>)
    ensures
        r == (if viewer.is_superadmin {
            server.owner_admin_id
        } else {
            None
        }),
{
    if viewer.is_superadmin {
        server.owner_admin_id
    } else {
        None
    }
}

/// Describes a server for the list. A lookup that failed counts as empty.
pub fn describe_server(
    viewer: &CurrentAdmin,
    server: Server,
    server_admin: Result<Option<ServerAdmin>, StorageError>,
    owner: Result<Option<ConsoleAdmin>, StorageError>,
) -> (r: ServerWithAdmin)
    ensures
        r.server == server,
        r.has_admin <==> server_admin matches Ok(Some(_)),
        r.is_redirect <==> server.media_streaming_mode == MediaStreamingMode::Redirect,
        r.is_proxy <==> !r.is_redirect,
        r.owner_username == (if viewer.is_superadmin && server.owner_admin_id is Some {
            match owner {
                Ok(Some(admin)) => Some(admin.username),
                _ => None,
            }
        } else {
            None
        }),
{
    let has_admin = match server_admin {
        Ok(Some(_)) => true,
        _ => false,
    };
    let is_redirect = match server.media_streaming_mode {
        MediaStreamingMode::Redirect => true,
        MediaStreamingMode::Proxy => false,
    };
    let owner_username = match (owner_to_show(viewer, &server), owner) {
        (Some(_), Ok(Some(admin))) => Some(admin.username),
        _ => None,
    };
    ServerWithAdmin { server, has_admin, is_redirect, is_proxy: !is_redirect, owner_username }
}

/// How a request about servers is answered.
pub enum ServerReply {
    Now(Reply),
    /// Show the list of servers.
    List,
    /// Swap the list of servers into the page behind the dialog.
    SwapList,
}

/// The answer that swaps the list of servers into the page, from what loading
/// and rendering the list gave.
pub fn swap_server_list(rendered: Result<String, String>) -> (r: Reply)
    ensures
        match rendered {
            Ok(html) => r matches Reply::Html(swap) && swap@
                == "<div id=\"server-list\" hx-swap-oob=\"innerHTML\">"@ + html@ + "</div>"@,
            Err(error) => r == Reply::Text(StatusCode::InternalServerError, Message::Other(error)),
        },
{
    match rendered {
        Ok(html) => Reply::Html(
            text::join3(
                "<div id=\"server-list\" hx-swap-oob=\"innerHTML\">",
                html.as_str(),
                "</div>",
            ),
        ),
        Err(error) => Reply::Text(StatusCode::InternalServerError, Message::Other(error)),
    }
}

impl AddServerForm {
    /// The name under which the server is added.
    pub fn trimmed_name(&self) -> (r: String)
        ensures
            r@ == text::trimmed(self.name@),
    {
        text::trim(self.name.as_str())
    }

    /// The URL under which the server is added.
    pub fn trimmed_url(&self) -> (r: String)
        ensures
            r@ == text::trimmed(self.url@),
    {
        text::trim(self.url.as_str())
    }
}

/// A priority that a server can have.
pub open spec fn is_priority(priority: int) -> bool {
    1 <= priority <= 999
}

fn allows_priority(priority: i32) -> (r: bool)
    ensures
        r == is_priority(priority as int),
{
    1 <= priority && priority <= 999
}

/// A server to be added, and who will own it.
pub struct ServerToAdd {
    pub name: String,
    pub url: String,
    pub priority: i32,
    pub media_streaming_mode: MediaStreamingMode,
    pub owner_admin_id: Option<AdminId>,
}

/// The server that an admin's form adds: under its trimmed name and URL, and owned
/// by the admin who adds it.
pub fn server_to_add(admin: &CurrentAdmin, form: &AddServerForm, mode: MediaStreamingMode) -> (r:
    ServerToAdd)
    ensures
        r.name@ == text::trimmed(form.name@),
        r.url@ == text::trimmed(form.url@),
        r.priority == form.priority,
        r.media_streaming_mode == mode,
        r.owner_admin_id == Some(admin.id),
{
    ServerToAdd {
        name: form.trimmed_name(),
        url: form.trimmed_url(),
        priority: form.priority,
        media_streaming_mode: mode,
        owner_admin_id: Some(admin.id),
    }
}

/// Adding a server.
pub enum AddServer {
    /// Read the streaming mode.
    ParseMode(CurrentAdmin, AddServerForm),
    /// Add the server that [`server_to_add`] gives.
    Insert(CurrentAdmin, AddServerForm, MediaStreamingMode),
    /// Look at the health of the servers.
    CheckHealth,
    Done(ServerReply),
}

/// The outcome of a step of adding a server.
pub enum AddServerEvent {
    ModeParsed(Option<MediaStreamingMode>),
    Inserted(Result<ServerId, StorageError>),
    HealthChecked,
}

pub open spec fn bad_request(message: Message) -> ServerReply {
    ServerReply::Now(Reply::Alert(StatusCode::BadRequest, message))
}

fn reject(message: Message) -> (r: ServerReply)
    ensures
        r == bad_request(message),
{
    ServerReply::Now(Reply::Alert(StatusCode::BadRequest, message))
}

/// Starts adding a server, if the form holds a name, a URL and a priority that a
/// server can have; the first of these that is missing is named.
pub fn add_server(admin: CurrentAdmin, form: AddServerForm) -> (r: AddServer)
    ensures
        r == (if text::trimmed(form.name@).len() == 0 {
            AddServer::Done(bad_request(Message::ServerNameEmpty))
        } else if text::trimmed(form.url@).len() == 0 {
            AddServer::Done(bad_request(Message::ServerUrlEmpty))
        } else if !is_priority(form.priority as int) {
            AddServer::Done(bad_request(Message::PriorityOutOfRange))
        } else {
            AddServer::ParseMode(admin, form)
        }),
        ({
            let unnamed = forall|i: int|
                0 <= i < form.name@.len() ==> text::is_white(#[trigger] form.name@[i]);
            let nowhere = forall|i: int|
                0 <= i < form.url@.len() ==> text::is_white(#[trigger] form.url@[i]);
            let complaint = |message: Message|
                AddServer::Done(
                    ServerReply::Now(Reply::Alert(StatusCode::BadRequest, message)),
                );
            &&& unnamed ==> r == complaint(Message::ServerNameEmpty)
            &&& !unnamed && nowhere ==> r == complaint(Message::ServerUrlEmpty)
            &&& !unnamed && !nowhere && !(1 <= form.priority <= 999) ==> r == complaint(
                Message::PriorityOutOfRange,
            )
            &&& !unnamed && !nowhere && 1 <= form.priority <= 999 ==> r == AddServer::ParseMode(
                admin,
                form,
            )
        }),
{
    proof {
        text::trimming_takes_white_space_only(form.name@);
        text::trimming_takes_white_space_only(form.url@);
    }
    if form.trimmed_name().as_str().is_empty() {
        AddServer::Done(reject(Message::ServerNameEmpty))
    } else if form.trimmed_url().as_str().is_empty() {
        AddServer::Done(reject(Message::ServerUrlEmpty))
    } else if !allows_priority(form.priority) {
        AddServer::Done(reject(Message::PriorityOutOfRange))
    } else {
        AddServer::ParseMode(admin, form)
    }
}

/// Why a server could not be added, as the admin is told.
pub open spec fn insert_complaint(error: StorageError) -> Message {
    match error.database {
        Some(fault) => if fault.constraint@ == "idx_servers_url_unique"@ || text::has_run(
            fault.message@,
            "idx_servers_url_unique"@,
        ) || text::has_run(fault.message@, "servers.url"@) {
            Message::ServerUrlTaken
        } else if text::has_run(fault.message@, "servers.name"@) || text::has_run(
            fault.message@,
            "UNIQUE constraint failed"@,
        ) {
            Message::ServerNameTaken
        } else {
            Message::ServerNotAdded
        },
        None => if text::has_run(error.text@, "Invalid URL"@) {
            Message::InvalidUrl
        } else {
            Message::ServerNotAdded
        },
    }
}

fn complain_about_insert(error: &StorageError) -> (r: Message)
    ensures
        r == insert_complaint(*error),
{
    match &error.database {
        Some(fault) => {
            let message = fault.message.as_str();
            if text::same(fault.constraint.as_str(), "idx_servers_url_unique") || text::contains(
                message,
                "idx_servers_url_unique",
            ) || text::contains(message, "servers.url") {
                Message::ServerUrlTaken
            } else if text::contains(message, "servers.name") || text::contains(
                message,
                "UNIQUE constraint failed",
            ) {
                Message::ServerNameTaken
            } else {
                Message::ServerNotAdded
            }
        },
        None => if text::contains(error.text.as_str(), "Invalid URL") {
            Message::InvalidUrl
        } else {
            Message::ServerNotAdded
        },
    }
}

pub open spec fn add_server_step(adding: AddServer, event: AddServerEvent) -> AddServer {
    match (adding, event) {
        (AddServer::ParseMode(admin, form), AddServerEvent::ModeParsed(parsed)) => match parsed {
            Some(mode) => AddServer::Insert(admin, form, mode),
            None => AddServer::Done(bad_request(Message::InvalidStreamingMode)),
        },
        (AddServer::Insert(_, _, _), AddServerEvent::Inserted(inserted)) => match inserted {
            Ok(_) => AddServer::CheckHealth,
            Err(error) => AddServer::Done(bad_request(insert_complaint(error))),
        },
        (AddServer::CheckHealth, AddServerEvent::HealthChecked) => AddServer::Done(
            ServerReply::List,
        ),
        _ => adding,
    }
}

impl AddServer {
    /// Takes the outcome of the pending work into account.
    pub fn advance(self, event: AddServerEvent) -> (r: AddServer)
        ensures
            r == add_server_step(self, event),
    {
        match (self, event) {
            (AddServer::ParseMode(admin, form), AddServerEvent::ModeParsed(parsed)) => {
                match parsed {
                    Some(mode) => AddServer::Insert(admin, form, mode),
                    None => AddServer::Done(reject(Message::InvalidStreamingMode)),
                }
            },
            (AddServer::Insert(_, _, _), AddServerEvent::Inserted(inserted)) => match inserted {
                Ok(_) => AddServer::CheckHealth,
                Err(error) => AddServer::Done(reject(complain_about_insert(&error))),
            },
            (AddServer::CheckHealth, AddServerEvent::HealthChecked) => AddServer::Done(
                ServerReply::List,
            ),
            (adding, _) => adding,
        }
    }
}

/// What an admin wants done to a server.
pub enum ServerRequest {
    SetMode(UpdateMediaStreamingModeForm),
    SetPriority(UpdatePriorityForm),
    Delete,
    DeleteAdmin,
}

/// A change to a server.
pub enum ServerEdit {
    SetMode(MediaStreamingMode),
    SetPriority(i32),
    Delete,
    /// Forget the administrator's credentials on the server.
    DeleteAdmin,
}

/// Changing a server.
pub enum ChangeServer {
    FindServer(CurrentAdmin, ServerId, ServerRequest),
    /// Read the streaming mode.
    ParseMode(ServerId, UpdateMediaStreamingModeForm),
    Apply(ServerId, ServerEdit),
    /// Drop the play sessions on a server that was deleted.
    DropSessions(ServerId),
    Done(ServerReply),
}

/// The outcome of a step of changing a server.
pub enum ChangeServerEvent {
    Server(Result<Option<Server>, StorageError>),
    ModeParsed(Option<MediaStreamingMode>),
    /// Whether there was something to change.
    Applied(Result<bool, StorageError>),
    SessionsDropped,
}

/// Starts setting the streaming mode of a server.
pub fn update_server_media_streaming_mode(
    admin: CurrentAdmin,
    server_id: ServerId,
    form: UpdateMediaStreamingModeForm,
) -> (r: ChangeServer)
    ensures
        r == ChangeServer::FindServer(admin, server_id, ServerRequest::SetMode(form)),
{
    ChangeServer::FindServer(admin, server_id, ServerRequest::SetMode(form))
}

/// Starts setting the priority of a server.
pub fn update_server_priority(
    admin: CurrentAdmin,
    server_id: ServerId,
    form: UpdatePriorityForm,
) -> (r: ChangeServer)
    ensures
        r == ChangeServer::FindServer(admin, server_id, ServerRequest::SetPriority(form)),
{
    ChangeServer::FindServer(admin, server_id, ServerRequest::SetPriority(form))
}

/// Starts deleting a server.
pub fn delete_server(admin: CurrentAdmin, server_id: ServerId) -> (r: ChangeServer)
    ensures
        r == ChangeServer::FindServer(admin, server_id, ServerRequest::Delete),
{
    ChangeServer::FindServer(admin, server_id, ServerRequest::Delete)
}

/// Starts forgetting the administrator's credentials on a server.
pub fn delete_server_admin(admin: CurrentAdmin, server_id: ServerId) -> (r: ChangeServer)
    ensures
        r == ChangeServer::FindServer(admin, server_id, ServerRequest::DeleteAdmin),
{
    ChangeServer::FindServer(admin, server_id, ServerRequest::DeleteAdmin)
}

/// Where a change goes once the admin is known to be allowed to make it.
pub open spec fn change_permitted(server_id: ServerId, request: ServerRequest) -> ChangeServer {
    match request {
        ServerRequest::SetMode(form) => ChangeServer::ParseMode(server_id, form),
        ServerRequest::SetPriority(form) => if is_priority(form.priority as int) {
            ChangeServer::Apply(server_id, ServerEdit::SetPriority(form.priority))
        } else {
            ChangeServer::Done(bad_request(Message::PriorityOutOfRange))
        },
        ServerRequest::Delete => ChangeServer::Apply(server_id, ServerEdit::Delete),
        ServerRequest::DeleteAdmin => ChangeServer::Apply(server_id, ServerEdit::DeleteAdmin),
    }
}

/// What the admin is told when there was nothing to change.
pub open spec fn missing_message(edit: ServerEdit) -> Message {
    match edit {
        ServerEdit::DeleteAdmin => Message::AdminNotFound,
        _ => Message::ServerNotFound,
    }
}

/// What the admin is told when a change failed.
pub open spec fn failure_message(edit: ServerEdit) -> Message {
    match edit {
        ServerEdit::SetMode(_) => Message::StreamingModeNotUpdated,
        ServerEdit::SetPriority(_) => Message::PriorityNotUpdated,
        ServerEdit::Delete => Message::ServerNotDeleted,
        ServerEdit::DeleteAdmin => Message::AdminNotDeleted,
    }
}

pub open spec fn change_server_step(
    change: ChangeServer,
    event: ChangeServerEvent,
) -> ChangeServer {
    match (change, event) {
        (
            ChangeServer::FindServer(admin, server_id, request),
            ChangeServerEvent::Server(found),
        ) => match ownership::owned(admin, found) {
            Ok(_) => change_permitted(server_id, request),
            Err(status) => ChangeServer::Done(ServerReply::Now(Reply::Status(status))),
        },
        (ChangeServer::ParseMode(server_id, _), ChangeServerEvent::ModeParsed(parsed)) => {
            match parsed {
                Some(mode) => ChangeServer::Apply(server_id, ServerEdit::SetMode(mode)),
                None => ChangeServer::Done(bad_request(Message::InvalidStreamingMode)),
            }
        },
        (ChangeServer::Apply(server_id, edit), ChangeServerEvent::Applied(applied)) => {
            match applied {
                Ok(true) => if edit is Delete {
                    ChangeServer::DropSessions(server_id)
                } else {
                    ChangeServer::Done(ServerReply::List)
                },
                Ok(false) => ChangeServer::Done(
                    ServerReply::Now(Reply::Alert(StatusCode::NotFound, missing_message(edit))),
                ),
                Err(_) => ChangeServer::Done(
                    ServerReply::Now(
                        Reply::Alert(StatusCode::InternalServerError, failure_message(edit)),
                    ),
                ),
            }
        },
        (ChangeServer::DropSessions(_), ChangeServerEvent::SessionsDropped) => ChangeServer::Done(
            ServerReply::List,
        ),
        _ => change,
    }
}

impl ServerEdit {
    fn missing(&self) -> (r: Message)
        ensures
            r == missing_message(*self),
    {
        match self {
            ServerEdit::DeleteAdmin => Message::AdminNotFound,
            _ => Message::ServerNotFound,
        }
    }

    fn failure(&self) -> (r: Message)
        ensures
            r == failure_message(*self),
    {
        match self {
            ServerEdit::SetMode(_) => Message::StreamingModeNotUpdated,
            ServerEdit::SetPriority(_) => Message::PriorityNotUpdated,
            ServerEdit::Delete => Message::ServerNotDeleted,
            ServerEdit::DeleteAdmin => Message::AdminNotDeleted,
        }
    }
}

impl ChangeServer {
    fn permitted(server_id: ServerId, request: ServerRequest) -> (r: ChangeServer)
        ensures
            r == change_permitted(server_id, request),
    {
        match request {
            ServerRequest::SetMode(form) => ChangeServer::ParseMode(server_id, form),
            ServerRequest::SetPriority(form) => if allows_priority(form.priority) {
                ChangeServer::Apply(server_id, ServerEdit::SetPriority(form.priority))
            } else {
                ChangeServer::Done(reject(Message::PriorityOutOfRange))
            },
            ServerRequest::Delete => ChangeServer::Apply(server_id, ServerEdit::Delete),
            ServerRequest::DeleteAdmin => ChangeServer::Apply(server_id, ServerEdit::DeleteAdmin),
        }
    }

    /// Takes the outcome of the pending work into account.
    pub fn advance(self, event: ChangeServerEvent) -> (r: ChangeServer)
        ensures
            r == change_server_step(self, event),
    {
        match (self, event) {
            (
                ChangeServer::FindServer(admin, server_id, request),
                ChangeServerEvent::Server(found),
            ) => match ownership::require_owner_or_superadmin(&admin, found) {
                Ok(_) => ChangeServer::permitted(server_id, request),
                Err(status) => ChangeServer::Done(ServerReply::Now(Reply::Status(status))),
            },
            (ChangeServer::ParseMode(server_id, _), ChangeServerEvent::ModeParsed(parsed)) => {
                match parsed {
                    Some(mode) => ChangeServer::Apply(server_id, ServerEdit::SetMode(mode)),
                    None => ChangeServer::Done(reject(Message::InvalidStreamingMode)),
                }
            },
            (ChangeServer::Apply(server_id, edit), ChangeServerEvent::Applied(applied)) => {
                match applied {
                    Ok(true) => match edit {
                        ServerEdit::Delete => ChangeServer::DropSessions(server_id),
                        _ => ChangeServer::Done(ServerReply::List),
                    },
                    Ok(false) => ChangeServer::Done(
                        ServerReply::Now(Reply::Alert(StatusCode::NotFound, edit.missing())),
                    ),
                    Err(_) => ChangeServer::Done(
                        ServerReply::Now(
                            Reply::Alert(StatusCode::InternalServerError, edit.failure()),
                        ),
                    ),
                }
            },
            (ChangeServer::DropSessions(_), ChangeServerEvent::SessionsDropped) => {
                ChangeServer::Done(ServerReply::List)
            },
            (change, _) => change,
        }
    }
}

/// What a server said to the login of an administrator.
pub enum AdministratorLogin {
    /// The login was accepted; whether the user is an administrator, if the
    /// server said so.
    Accepted(Option<bool>),
    /// The username or the password is wrong.
    Rejected,
    Failed(String),
}

/// Recording an administrator's credentials on a server.
pub enum AddServerAdmin {
    FindServer(CurrentAdmin, ServerId, AddServerAdminForm),
    /// Set up a client for the server.
    Connect(ServerId, Server, AddServerAdminForm),
    /// Try the credentials on the server.
    Authenticate(ServerId, Server, AddServerAdminForm),
    /// Encrypt the password with the proxy's own.
    Encrypt(ServerId, AddServerAdminForm),
    /// Record the username and the encrypted password.
    Save(ServerId, String, String),
    Done(ServerReply),
}

/// The outcome of a step of recording an administrator's credentials.
pub enum AddServerAdminEvent {
    Server(Result<Option<Server>, StorageError>),
    Connected(Result<(), String>),
    Authenticated(AdministratorLogin),
    Encrypted(Result<String, String>),
    Saved(Result<(), StorageError>),
}

/// Starts recording an administrator's credentials on a server.
pub fn add_server_admin(
    admin: CurrentAdmin,
    server_id: ServerId,
    form: AddServerAdminForm,
) -> (r: AddServerAdmin)
    ensures
        r == AddServerAdmin::FindServer(admin, server_id, form),
{
    AddServerAdmin::FindServer(admin, server_id, form)
}

pub open spec fn banner(status: StatusCode, message: Message) -> AddServerAdmin {
    AddServerAdmin::Done(ServerReply::Now(Reply::Banner(status, message)))
}

pub open spec fn add_server_admin_step(
    adding: AddServerAdmin,
    event: AddServerAdminEvent,
) -> AddServerAdmin {
    match (adding, event) {
        (
            AddServerAdmin::FindServer(admin, server_id, form),
            AddServerAdminEvent::Server(found),
        ) => match ownership::owned(admin, found) {
            Ok(server) => AddServerAdmin::Connect(server_id, server, form),
            Err(status) => AddServerAdmin::Done(ServerReply::Now(Reply::Status(status))),
        },
        (
            AddServerAdmin::Connect(server_id, server, form),
            AddServerAdminEvent::Connected(connected),
        ) => match connected {
            Ok(()) => AddServerAdmin::Authenticate(server_id, server, form),
            Err(_) => banner(StatusCode::InternalServerError, Message::ClientError),
        },
        (
            AddServerAdmin::Authenticate(server_id, _, form),
            AddServerAdminEvent::Authenticated(login),
        ) => match login {
            AdministratorLogin::Accepted(is_administrator) => if is_administrator == Some(true) {
                AddServerAdmin::Encrypt(server_id, form)
            } else {
                banner(StatusCode::Success, Message::NoAdministrator)
            },
            AdministratorLogin::Rejected => banner(
                StatusCode::Success,
                Message::InvalidCredentials,
            ),
            AdministratorLogin::Failed(error) => banner(
                StatusCode::Success,
                Message::ConnectionError(error),
            ),
        },
        (AddServerAdmin::Encrypt(server_id, form), AddServerAdminEvent::Encrypted(encrypted)) => {
            match encrypted {
                Ok(password) => AddServerAdmin::Save(server_id, form.username, password),
                Err(_) => banner(StatusCode::InternalServerError, Message::EncryptionFailed),
            }
        },
        (AddServerAdmin::Save(_, _, _), AddServerAdminEvent::Saved(saved)) => match saved {
            Ok(()) => AddServerAdmin::Done(ServerReply::SwapList),
            Err(_) => banner(StatusCode::InternalServerError, Message::DatabaseError),
        },
        _ => adding,
    }
}

impl AddServerAdmin {
    fn stop(status: StatusCode, message: Message) -> (r: AddServerAdmin)
        ensures
            r == banner(status, message),
    {
        AddServerAdmin::Done(ServerReply::Now(Reply::Banner(status, message)))
    }

    /// Takes the outcome of the pending work into account.
    pub fn advance(self, event: AddServerAdminEvent) -> (r: AddServerAdmin)
        ensures
            r == add_server_admin_step(self, event),
    {
        match (self, event) {
            (
                AddServerAdmin::FindServer(admin, server_id, form),
                AddServerAdminEvent::Server(found),
            ) => match ownership::require_owner_or_superadmin(&admin, found) {
                Ok(server) => AddServerAdmin::Connect(server_id, server, form),
                Err(status) => AddServerAdmin::Done(ServerReply::Now(Reply::Status(status))),
            },
            (
                AddServerAdmin::Connect(server_id, server, form),
                AddServerAdminEvent::Connected(connected),
            ) => match connected {
                Ok(()) => AddServerAdmin::Authenticate(server_id, server, form),
                Err(_) => AddServerAdmin::stop(
                    StatusCode::InternalServerError,
                    Message::ClientError,
                ),
            },
            (
                AddServerAdmin::Authenticate(server_id, _, form),
                AddServerAdminEvent::Authenticated(login),
            ) => match login {
                AdministratorLogin::Accepted(Some(true)) => AddServerAdmin::Encrypt(
                    server_id,
                    form,
                ),
                AdministratorLogin::Accepted(_) => AddServerAdmin::stop(
                    StatusCode::Success,
                    Message::NoAdministrator,
                ),
                AdministratorLogin::Rejected => AddServerAdmin::stop(
                    StatusCode::Success,
                    Message::InvalidCredentials,
                ),
                AdministratorLogin::Failed(error) => AddServerAdmin::stop(
                    StatusCode::Success,
                    Message::ConnectionError(error),
                ),
            },
            (
                AddServerAdmin::Encrypt(server_id, form),
                AddServerAdminEvent::Encrypted(encrypted),
            ) => match encrypted {
                Ok(password) => AddServerAdmin::Save(server_id, form.username, password),
                Err(_) => AddServerAdmin::stop(
                    StatusCode::InternalServerError,
                    Message::EncryptionFailed,
                ),
            },
            (AddServerAdmin::Save(_, _, _), AddServerAdminEvent::Saved(saved)) => match saved {
                Ok(()) => AddServerAdmin::Done(ServerReply::SwapList),
                Err(_) => AddServerAdmin::stop(
                    StatusCode::InternalServerError,
                    Message::DatabaseError,
                ),
            },
            (adding, _) => adding,
        }
    }
}

pub open spec fn change_server_run(
    change: ChangeServer,
    events: Seq<ChangeServerEvent>,
) -> ChangeServer
    decreases events.len(),
{
    if events.len() == 0 {
        change
    } else {
        change_server_step(change_server_run(change, events.drop_last()), events.last())
    }
}

/// Some event gave a server on which the admin may act.
pub open spec fn changed_server_owned(admin: CurrentAdmin, events: Seq<ChangeServerEvent>) -> bool {
    exists|i: int|
        0 <= i < events.len() && (#[trigger] events[i] matches ChangeServerEvent::Server(
            Ok(Some(server)),
        ) && ownership::may_act(admin, server))
}

/// The server that a change in progress is for.
pub open spec fn changed_server(change: ChangeServer) -> Option<ServerId> {
    match change {
        ChangeServer::FindServer(_, server_id, _) => Some(server_id),
        ChangeServer::ParseMode(server_id, _) => Some(server_id),
        ChangeServer::Apply(server_id, _) => Some(server_id),
        ChangeServer::DropSessions(server_id) => Some(server_id),
        ChangeServer::Done(_) => None,
    }
}

/// Whether a change does what was asked for.
pub open spec fn edit_answers(edit: ServerEdit, request: ServerRequest) -> bool {
    match request {
        ServerRequest::SetMode(_) => edit is SetMode,
        ServerRequest::SetPriority(form) => edit == ServerEdit::SetPriority(form.priority)
            && is_priority(form.priority as int),
        ServerRequest::Delete => edit is Delete,
        ServerRequest::DeleteAdmin => edit is DeleteAdmin,
    }
}

/// A server is changed only if it was found to be one on which the admin may
/// act, only in the way that was asked for, and a priority stays in its range.
/// Sessions are dropped only when a server is deleted.
pub proof fn change_is_permitted(
    admin: CurrentAdmin,
    server_id: ServerId,
    request: ServerRequest,
    events: Seq<ChangeServerEvent>,
)
    ensures
        ({
            let change = change_server_run(
                ChangeServer::FindServer(admin, server_id, request),
                events,
            );
            &&& changed_server(change) matches Some(id) ==> id == server_id
            &&& change matches ChangeServer::FindServer(a, _, q) ==> a == admin && q == request
            &&& change matches ChangeServer::ParseMode(_, form) ==> changed_server_owned(
                admin,
                events,
            ) && request == ServerRequest::SetMode(form)
            &&& change matches ChangeServer::Apply(_, edit) ==> changed_server_owned(admin, events)
                && edit_answers(edit, request)
            &&& change is DropSessions ==> changed_server_owned(admin, events) && request is Delete
        }),
    decreases events.len(),
{
    if events.len() > 0 {
        let before = events.drop_last();
        change_is_permitted(admin, server_id, request, before);
        assert(events[events.len() - 1] == events.last());
        if changed_server_owned(admin, before) {
            let i = choose|i: int|
                0 <= i < before.len() && (#[trigger] before[i] matches ChangeServerEvent::Server(
                    Ok(Some(server)),
                ) && ownership::may_act(admin, server));
            assert(events[i] == before[i]);
            assert(changed_server_owned(admin, events));
        }
    }
}

pub open spec fn add_server_admin_run(
    adding: AddServerAdmin,
    events: Seq<AddServerAdminEvent>,
) -> AddServerAdmin
    decreases events.len(),
{
    if events.len() == 0 {
        adding
    } else {
        add_server_admin_step(add_server_admin_run(adding, events.drop_last()), events.last())
    }
}

/// Some event gave a server on which the admin may act.
pub open spec fn administered_server_owned(
    admin: CurrentAdmin,
    events: Seq<AddServerAdminEvent>,
) -> bool {
    exists|i: int|
        0 <= i < events.len() && (#[trigger] events[i] matches AddServerAdminEvent::Server(
            Ok(Some(server)),
        ) && ownership::may_act(admin, server))
}

/// Some event was the server accepting the credentials as an administrator's.
pub open spec fn administrator_accepted(events: Seq<AddServerAdminEvent>) -> bool {
    exists|i: int|
        0 <= i < events.len() && #[trigger] events[i] == AddServerAdminEvent::Authenticated(
            AdministratorLogin::Accepted(Some(true)),
        )
}

/// Credentials are recorded only for the server that was asked for, if it was
/// found to be one on which the admin may act, and only after the server
/// accepted them as an administrator's.
pub proof fn administrators_are_validated(
    admin: CurrentAdmin,
    server_id: ServerId,
    form: AddServerAdminForm,
    events: Seq<AddServerAdminEvent>,
)
    ensures
        ({
            let adding = add_server_admin_run(
                AddServerAdmin::FindServer(admin, server_id, form),
                events,
            );
            &&& adding matches AddServerAdmin::FindServer(a, id, f) ==> a == admin && id
                == server_id && f == form
            &&& adding matches AddServerAdmin::Connect(id, _, f) ==> id == server_id && f == form
                && administered_server_owned(admin, events)
            &&& adding matches AddServerAdmin::Authenticate(id, _, f) ==> id == server_id && f
                == form && administered_server_owned(admin, events)
            &&& adding matches AddServerAdmin::Encrypt(id, f) ==> id == server_id && f == form
                && administered_server_owned(admin, events) && administrator_accepted(events)
            &&& adding matches AddServerAdmin::Save(id, username, _) ==> id == server_id
                && username == form.username && administered_server_owned(admin, events)
                && administrator_accepted(events)
        }),
    decreases events.len(),
{
    if events.len() > 0 {
        let before = events.drop_last();
        administrators_are_validated(admin, server_id, form, before);
        assert(events[events.len() - 1] == events.last());
        if administered_server_owned(admin, before) {
            let i = choose|i: int|
                0 <= i < before.len() && (#[trigger] before[i] matches AddServerAdminEvent::Server(
                    Ok(Some(server)),
                ) && ownership::may_act(admin, server));
            assert(events[i] == before[i]);
            assert(administered_server_owned(admin, events));
        }
        if administrator_accepted(before) {
            let i = choose|i: int|
                0 <= i < before.len() && #[trigger] before[i] == AddServerAdminEvent::Authenticated(
                    AdministratorLogin::Accepted(Some(true)),
                );
            assert(events[i] == before[i]);
            assert(administrator_accepted(events));
        }
    }
}

/// A server that could not be added is reported as one whose URL is taken if the
/// database says so by the name of the index or of the column, as one whose name is
/// taken if it speaks of the name or of any other unique key, and as one with an
/// invalid URL only where it was not the database that refused.
pub proof fn insert_complaints_follow_the_error(error: StorageError, fault: DatabaseFault)
    ensures
        ({
            let says = |part: Seq<char>| text::has_run(fault.message@, part);
            let url = fault.constraint@ == "idx_servers_url_unique"@ || says(
                "idx_servers_url_unique"@,
            ) || says("servers.url"@);
            let name = says("servers.name"@) || says("UNIQUE constraint failed"@);
            error.database == Some(fault) ==> {
                &&& url ==> insert_complaint(error) == Message::ServerUrlTaken
                &&& !url && name ==> insert_complaint(error) == Message::ServerNameTaken
                &&& !url && !name ==> insert_complaint(error) == Message::ServerNotAdded
            }
        }),
        error.database is None ==> insert_complaint(error) == (if text::has_run(
            error.text@,
            "Invalid URL"@,
        ) {
            Message::InvalidUrl
        } else {
            Message::ServerNotAdded
        }),
{
}

pub open spec fn add_server_run(adding: AddServer, events: Seq<AddServerEvent>) -> AddServer
    decreases events.len(),
{
    if events.len() == 0 {
        adding
    } else {
        add_server_step(add_server_run(adding, events.drop_last()), events.last())
    }
}

/// Some event was the server being added.
pub open spec fn server_inserted(events: Seq<AddServerEvent>) -> bool {
    exists|i: int|
        0 <= i < events.len() && #[trigger] events[i] matches AddServerEvent::Inserted(Ok(_))
}

/// Whatever happens in the course of adding a server, what is added is what the form
/// says, in the admin's name and with a streaming mode that was read; and the list
/// is shown only after the server was added and its health was looked at.
pub proof fn server_is_added_before_listed(
    admin: CurrentAdmin,
    form: AddServerForm,
    events: Seq<AddServerEvent>,
)
    ensures
        match add_server_run(AddServer::ParseMode(admin, form), events) {
            AddServer::ParseMode(a, f) => a == admin && f == form,
            AddServer::Insert(a, f, mode) => a == admin && f == form && events.contains(
                AddServerEvent::ModeParsed(Some(mode)),
            ),
            AddServer::CheckHealth => server_inserted(events),
            AddServer::Done(ServerReply::List) => server_inserted(events) && events.contains(
                AddServerEvent::HealthChecked,
            ),
            AddServer::Done(reply) => reply is Now,
        },
    decreases events.len(),
{
    if events.len() > 0 {
        let before = events.drop_last();
        server_is_added_before_listed(admin, form, before);
        assert(events[events.len() - 1] == events.last());
        assert forall|e: AddServerEvent| #[trigger] before.contains(e) implies events.contains(
            e,
        ) by {
            let i = choose|i: int| 0 <= i < before.len() && #[trigger] before[i] == e;
            assert(events[i] == e);
        }
        if server_inserted(before) {
            let i = choose|i: int|
                0 <= i < before.len() && #[trigger] before[i] matches AddServerEvent::Inserted(Ok(_));
            assert(events[i] == before[i]);
            assert(server_inserted(events));
        }
    }
}

/// Adding a server reads the streaming mode, adds the server, looks at the health of
/// the servers, and then shows the list; a mode that cannot be read and a server that
/// cannot be added are answered as a bad request.
pub proof fn server_addition_takes_its_course(
    admin: CurrentAdmin,
    form: AddServerForm,
    mode: MediaStreamingMode,
    id: ServerId,
    error: StorageError,
)
    ensures
        add_server_step(AddServer::ParseMode(admin, form), AddServerEvent::ModeParsed(Some(mode)))
            == AddServer::Insert(admin, form, mode),
        add_server_step(AddServer::ParseMode(admin, form), AddServerEvent::ModeParsed(None))
            == AddServer::Done(
            ServerReply::Now(Reply::Alert(StatusCode::BadRequest, Message::InvalidStreamingMode)),
        ),
        add_server_step(AddServer::Insert(admin, form, mode), AddServerEvent::Inserted(Ok(id)))
            == AddServer::CheckHealth,
        add_server_step(AddServer::Insert(admin, form, mode), AddServerEvent::Inserted(Err(error)))
            == AddServer::Done(
            ServerReply::Now(Reply::Alert(StatusCode::BadRequest, insert_complaint(error))),
        ),
        add_server_step(AddServer::CheckHealth, AddServerEvent::HealthChecked) == AddServer::Done(
            ServerReply::List,
        ),
{
}

/// A change that the admin may make goes on to just what was asked for; one that
/// they may not make, or on a server that is not there, ends with a bare status.
pub proof fn change_goes_on_to_the_edit(
    admin: CurrentAdmin,
    server_id: ServerId,
    server: Server,
    request: ServerRequest,
    mode_form: UpdateMediaStreamingModeForm,
    mode: MediaStreamingMode,
    error: StorageError,
)
    ensures
        ({
            let start = ChangeServer::FindServer(admin, server_id, request);
            let found = change_server_step(start, ChangeServerEvent::Server(Ok(Some(server))));
            let status = |code: StatusCode|
                ChangeServer::Done(ServerReply::Now(Reply::Status(code)));
            let permitted = admin.is_superadmin || server.owner_admin_id == Some(admin.id);
            &&& change_server_step(start, ChangeServerEvent::Server(Ok(None))) == status(
                StatusCode::NotFound,
            )
            &&& change_server_step(start, ChangeServerEvent::Server(Err(error))) == status(
                StatusCode::InternalServerError,
            )
            &&& !permitted ==> found == status(StatusCode::Forbidden)
            &&& permitted ==> match request {
                ServerRequest::SetMode(form) => found == ChangeServer::ParseMode(server_id, form),
                ServerRequest::SetPriority(form) => if 1 <= form.priority <= 999 {
                    found == ChangeServer::Apply(server_id, ServerEdit::SetPriority(form.priority))
                } else {
                    found == ChangeServer::Done(
                        ServerReply::Now(
                            Reply::Alert(StatusCode::BadRequest, Message::PriorityOutOfRange),
                        ),
                    )
                },
                ServerRequest::Delete => found == ChangeServer::Apply(
                    server_id,
                    ServerEdit::Delete,
                ),
                ServerRequest::DeleteAdmin => found == ChangeServer::Apply(
                    server_id,
                    ServerEdit::DeleteAdmin,
                ),
            }
        }),
        change_server_step(
            ChangeServer::ParseMode(server_id, mode_form),
            ChangeServerEvent::ModeParsed(Some(mode)),
        ) == ChangeServer::Apply(server_id, ServerEdit::SetMode(mode)),
        change_server_step(
            ChangeServer::ParseMode(server_id, mode_form),
            ChangeServerEvent::ModeParsed(None),
        ) == ChangeServer::Done(
            ServerReply::Now(Reply::Alert(StatusCode::BadRequest, Message::InvalidStreamingMode)),
        ),
{
}

/// An edit that found something to change leads to the list, after a deletion by way
/// of dropping the server's sessions; one that found nothing, and one that failed,
/// are answered with a message of their own.
pub proof fn edits_are_answered(
    server_id: ServerId,
    edit: ServerEdit,
    mode: MediaStreamingMode,
    priority: i32,
    error: StorageError,
)
    ensures
        change_server_step(
            ChangeServer::Apply(server_id, ServerEdit::Delete),
            ChangeServerEvent::Applied(Ok(true)),
        ) == ChangeServer::DropSessions(server_id),
        change_server_step(
            ChangeServer::DropSessions(server_id),
            ChangeServerEvent::SessionsDropped,
        ) == ChangeServer::Done(ServerReply::List),
        edit !is Delete ==> change_server_step(
            ChangeServer::Apply(server_id, edit),
            ChangeServerEvent::Applied(Ok(true)),
        ) == ChangeServer::Done(ServerReply::List),
        change_server_step(
            ChangeServer::Apply(server_id, edit),
            ChangeServerEvent::Applied(Ok(false)),
        ) == ChangeServer::Done(
            ServerReply::Now(
                Reply::Alert(
                    StatusCode::NotFound,
                    if edit is DeleteAdmin {
                        Message::AdminNotFound
                    } else {
                        Message::ServerNotFound
                    },
                ),
            ),
        ),
        ({
            let failed = |e: ServerEdit|
                change_server_step(
                    ChangeServer::Apply(server_id, e),
                    ChangeServerEvent::Applied(Err(error)),
                );
            let told = |message: Message|
                ChangeServer::Done(
                    ServerReply::Now(Reply::Alert(StatusCode::InternalServerError, message)),
                );
            &&& failed(ServerEdit::SetMode(mode)) == told(Message::StreamingModeNotUpdated)
            &&& failed(ServerEdit::SetPriority(priority)) == told(Message::PriorityNotUpdated)
            &&& failed(ServerEdit::Delete) == told(Message::ServerNotDeleted)
            &&& failed(ServerEdit::DeleteAdmin) == told(Message::AdminNotDeleted)
        }),
{
}

/// Whatever happens in the course of a change, the list is shown only after the
/// change was made; and after a deletion, after the server's sessions were dropped.
pub proof fn changed_before_listed(
    admin: CurrentAdmin,
    server_id: ServerId,
    request: ServerRequest,
    events: Seq<ChangeServerEvent>,
)
    ensures
        match change_server_run(ChangeServer::FindServer(admin, server_id, request), events) {
            ChangeServer::DropSessions(id) => id == server_id && events.contains(
                ChangeServerEvent::Applied(Ok(true)),
            ),
            ChangeServer::Done(ServerReply::List) => events.contains(
                ChangeServerEvent::Applied(Ok(true)),
            ) && (request is Delete ==> events.contains(ChangeServerEvent::SessionsDropped)),
            ChangeServer::Done(reply) => reply is Now,
            _ => true,
        },
    decreases events.len(),
{
    if events.len() > 0 {
        let before = events.drop_last();
        changed_before_listed(admin, server_id, request, before);
        change_is_permitted(admin, server_id, request, before);
        assert(events[events.len() - 1] == events.last());
        assert forall|e: ChangeServerEvent| #[trigger] before.contains(e) implies events.contains(
            e,
        ) by {
            let i = choose|i: int| 0 <= i < before.len() && #[trigger] before[i] == e;
            assert(events[i] == e);
        }
    }
}

/// Recording an administrator's credentials tries them on the server that was looked
/// up; where it accepts them as an administrator's, the password is encrypted and
/// recorded with the username of the form, and the list is swapped in.
pub proof fn administrator_addition_takes_its_course(
    admin: CurrentAdmin,
    server_id: ServerId,
    server: Server,
    form: AddServerAdminForm,
    username: String,
    password: String,
)
    ensures
        admin.is_superadmin || server.owner_admin_id == Some(admin.id) ==> add_server_admin_step(
            AddServerAdmin::FindServer(admin, server_id, form),
            AddServerAdminEvent::Server(Ok(Some(server))),
        ) == AddServerAdmin::Connect(server_id, server, form),
        add_server_admin_step(
            AddServerAdmin::Connect(server_id, server, form),
            AddServerAdminEvent::Connected(Ok(())),
        ) == AddServerAdmin::Authenticate(server_id, server, form),
        add_server_admin_step(
            AddServerAdmin::Authenticate(server_id, server, form),
            AddServerAdminEvent::Authenticated(AdministratorLogin::Accepted(Some(true))),
        ) == AddServerAdmin::Encrypt(server_id, form),
        add_server_admin_step(
            AddServerAdmin::Encrypt(server_id, form),
            AddServerAdminEvent::Encrypted(Ok(password)),
        ) == AddServerAdmin::Save(server_id, form.username, password),
        add_server_admin_step(
            AddServerAdmin::Save(server_id, username, password),
            AddServerAdminEvent::Saved(Ok(())),
        ) == AddServerAdmin::Done(ServerReply::SwapList),
{
}

/// Every way in which recording an administrator's credentials can fail has its own
/// answer. A user whom the server accepts without saying that they are an
/// administrator is none.
pub proof fn administrator_failures_are_answered(
    admin: CurrentAdmin,
    server_id: ServerId,
    server: Server,
    form: AddServerAdminForm,
    login: Option<bool>,
    username: String,
    password: String,
    error: String,
    storage: StorageError,
)
    ensures
        ({
            let start = AddServerAdmin::FindServer(admin, server_id, form);
            let status = |code: StatusCode|
                AddServerAdmin::Done(ServerReply::Now(Reply::Status(code)));
            let told = |code: StatusCode, message: Message|
                AddServerAdmin::Done(ServerReply::Now(Reply::Banner(code, message)));
            let tried = |said: AdministratorLogin|
                add_server_admin_step(
                    AddServerAdmin::Authenticate(server_id, server, form),
                    AddServerAdminEvent::Authenticated(said),
                );
            &&& add_server_admin_step(start, AddServerAdminEvent::Server(Ok(None))) == status(
                StatusCode::NotFound,
            )
            &&& add_server_admin_step(start, AddServerAdminEvent::Server(Err(storage))) == status(
                StatusCode::InternalServerError,
            )
            &&& !admin.is_superadmin && server.owner_admin_id != Some(admin.id)
                ==> add_server_admin_step(start, AddServerAdminEvent::Server(Ok(Some(server))))
                == status(StatusCode::Forbidden)
            &&& add_server_admin_step(
                AddServerAdmin::Connect(server_id, server, form),
                AddServerAdminEvent::Connected(Err(error)),
            ) == told(StatusCode::InternalServerError, Message::ClientError)
            &&& login != Some(true) ==> tried(AdministratorLogin::Accepted(login)) == told(
                StatusCode::Success,
                Message::NoAdministrator,
            )
            &&& tried(AdministratorLogin::Rejected) == told(
                StatusCode::Success,
                Message::InvalidCredentials,
            )
            &&& tried(AdministratorLogin::Failed(error)) == told(
                StatusCode::Success,
                Message::ConnectionError(error),
            )
            &&& add_server_admin_step(
                AddServerAdmin::Encrypt(server_id, form),
                AddServerAdminEvent::Encrypted(Err(error)),
            ) == told(StatusCode::InternalServerError, Message::EncryptionFailed)
            &&& add_server_admin_step(
                AddServerAdmin::Save(server_id, username, password),
                AddServerAdminEvent::Saved(Err(storage)),
            ) == told(StatusCode::InternalServerError, Message::DatabaseError)
        }),
{
}

/// Some event was the credentials being recorded.
pub open spec fn credentials_saved(events: Seq<AddServerAdminEvent>) -> bool {
    exists|i: int|
        0 <= i < events.len() && #[trigger] events[i] matches AddServerAdminEvent::Saved(Ok(_))
}

/// Whatever happens in the course of recording an administrator's credentials, the
/// password recorded is one that encrypting gave, and the list is swapped in only
/// after the credentials were recorded.
pub proof fn administrator_recorded_before_shown(
    admin: CurrentAdmin,
    server_id: ServerId,
    form: AddServerAdminForm,
    events: Seq<AddServerAdminEvent>,
)
    ensures
        match add_server_admin_run(AddServerAdmin::FindServer(admin, server_id, form), events) {
            AddServerAdmin::Save(_, _, password) => events.contains(
                AddServerAdminEvent::Encrypted(Ok(password)),
            ),
            AddServerAdmin::Done(ServerReply::SwapList) => credentials_saved(events),
            AddServerAdmin::Done(reply) => reply is Now,
            _ => true,
        },
    decreases events.len(),
{
    if events.len() > 0 {
        let before = events.drop_last();
        administrator_recorded_before_shown(admin, server_id, form, before);
        if credentials_saved(before) {
            let i = choose|i: int|
                0 <= i < before.len() && #[trigger] before[i] matches AddServerAdminEvent::Saved(Ok(_));
            assert(events[i] == before[i]);
            assert(credentials_saved(events));
        }
        assert(events[events.len() - 1] == events.last());
        assert forall|e: AddServerAdminEvent| #[trigger] before.contains(e) implies events.contains(
            e,
        ) by {
            let i = choose|i: int| 0 <= i < before.len() && #[trigger] before[i] == e;
            assert(events[i] == e);
        }
    }
}

/// An event that does not answer the pending work changes nothing.
pub proof fn stray_events_change_nothing(
    adding: AddServer,
    added: AddServerEvent,
    change: ChangeServer,
    changed: ChangeServerEvent,
    recording: AddServerAdmin,
    recorded: AddServerAdminEvent,
)
    ensures
        add_server_step(adding, added) == adding || {
            ||| adding is ParseMode && added is ModeParsed
            ||| adding is Insert && added is Inserted
            ||| adding is CheckHealth && added is HealthChecked
        },
        change_server_step(change, changed) == change || {
            ||| change is FindServer && changed is Server
            ||| change is ParseMode && changed is ModeParsed
            ||| change is Apply && changed is Applied
            ||| change is DropSessions && changed is SessionsDropped
        },
        add_server_admin_step(recording, recorded) == recording || {
            ||| recording is FindServer && recorded is Server
            ||| recording is Connect && recorded is Connected
            ||| recording is Authenticate && recorded is Authenticated
            ||| recording is Encrypt && recorded is Encrypted
            ||| recording is Save && recorded is Saved
        },
{
}

} // verus!
