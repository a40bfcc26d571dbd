//! What the admin pages answer.

use vstd::prelude::*;

use crate::federated_users::SyncStatus;
use crate::status::StatusCode;
use crate::storage::StorageError;
use crate::text;

verus! {

/// Something to tell an admin.
#[derive(Debug)]
pub enum Message {
    TemplateError,
    RenderError,
    DatabaseError,
    /// A failure in its own words.
    Other(String),
    UsernameEmpty,
    PasswordTooShort,
    AdminNotCreated,
    AdminNotFound,
    LastSuperadmin,
    AdminNotDeleted,
    ValuesNotPositive,
    NotUnblocked,
    ServerNameEmpty,
    ServerUrlEmpty,
    PriorityOutOfRange,
    InvalidStreamingMode,
    ServerUrlTaken,
    ServerNameTaken,
    InvalidUrl,
    ServerNotAdded,
    ServerNotFound,
    StreamingModeNotUpdated,
    ServerNotDeleted,
    PriorityNotUpdated,
    ClientError,
    NoAdministrator,
    EncryptionFailed,
    InvalidCredentials,
    ConnectionError(String),
    UserNotFound,
    CredentialsRequired,
    UserExists,
    UserNotCreated,
    UserNotDeleted,
    MappingCredentialsRequired,
    ServersNotLoaded,
    SelectedServerNotFound,
    MappingNotPermitted,
    /// The server could not be connected to.
    NotConnected(String),
    /// The server turned the credentials down.
    MappingRejected(String),
    /// The server could not say whether the credentials are good, and why.
    MappingNotValidated(String, String),
    MappingNotAdded,
    MappingNotFound,
    MappingNotDeleted,
    LocalMappingNotRemoved,
    /// The user was removed from the server without a lasting block.
    KickedWithoutBlock(String, String),
    /// The user was removed from the server; what became of their account there.
    Kicked(String, String, SyncStatus),
    SessionsNotDeleted,
}

impl Message {
    pub open spec fn spec_text(self) -> Seq<char> {
        match self {
            Message::TemplateError => "Template error"@,
            Message::RenderError => "Error"@,
            Message::DatabaseError => "Database error"@,
            Message::Other(words) => words@,
            Message::UsernameEmpty => "Username cannot be empty"@,
            Message::PasswordTooShort => "Password must be at least 8 characters"@,
            Message::AdminNotCreated => {
                "Failed to create admin (username may already be taken)"@
            },
            Message::AdminNotFound => "Admin not found"@,
            Message::LastSuperadmin => "Cannot delete the last remaining superadmin"@,
            Message::AdminNotDeleted => "Failed to delete admin"@,
            Message::ValuesNotPositive => "Values must be positive"@,
            Message::NotUnblocked => "Failed to unblock"@,
            Message::ServerNameEmpty => "Server name cannot be empty"@,
            Message::ServerUrlEmpty => "Server URL cannot be empty"@,
            Message::PriorityOutOfRange => "Priority must be between 1 and 999"@,
            Message::InvalidStreamingMode => "Invalid streaming mode"@,
            Message::ServerUrlTaken => "A server with that URL already exists"@,
            Message::ServerNameTaken => "A server with that name already exists"@,
            Message::InvalidUrl => "Invalid URL format"@,
            Message::ServerNotAdded => "Failed to add server"@,
            Message::ServerNotFound => "Server not found"@,
            Message::StreamingModeNotUpdated => "Failed to update streaming mode"@,
            Message::ServerNotDeleted => "Failed to delete server"@,
            Message::PriorityNotUpdated => "Failed to update priority"@,
            Message::ClientError => "Client error"@,
            Message::NoAdministrator => "User is not an administrator on this server"@,
            Message::EncryptionFailed => "Encryption failed"@,
            Message::InvalidCredentials => "Invalid credentials"@,
            Message::ConnectionError(error) => "Connection error: "@ + error@,
            Message::UserNotFound => "User not found"@,
            Message::CredentialsRequired => "Username and password required"@,
            Message::UserExists => "User already exists"@,
            Message::UserNotCreated => "Failed to create user"@,
            Message::UserNotDeleted => "Failed to delete user"@,
            Message::MappingCredentialsRequired => "Mapping username and password are required."@,
            Message::ServersNotLoaded => "Could not load servers while validating this mapping."@,
            Message::SelectedServerNotFound => {
                "Selected server was not found. Please refresh and try again."@
            },
            Message::MappingNotPermitted => {
                "You don't have permission to add mappings for that server."@
            },
            Message::NotConnected(server) => "Failed to connect to selected server '"@ + server@
                + "'."@,
            Message::MappingRejected(server) => "Validation failed on server '"@ + server@
                + "': username or password is incorrect."@,
            Message::MappingNotValidated(server, error) => {
                "Could not validate credentials on server '"@ + server@ + "': "@ + error@
            },
            Message::MappingNotAdded => "Failed to add mapping"@,
            Message::MappingNotFound => "Mapping not found"@,
            Message::MappingNotDeleted => "Failed to delete mapping"@,
            Message::LocalMappingNotRemoved => "Failed to remove local mapping"@,
            Message::KickedWithoutBlock(user, server) => "Kicked '"@ + user@ + "' from '"@ + server@
                + "' but failed to persist the block -- they may be recreated on next login."@,
            Message::Kicked(user, server, status) => "Kicked '"@ + user@ + "' from '"@ + server@
                + "' (remote account: "@ + status.spec_name()
                + "). They will not be auto-recreated there."@,
            Message::SessionsNotDeleted => "Failed to delete usersessions"@,
        }
    }

    /// The words in which the admin is told.
    pub fn text(&self) -> (r: String)
        ensures
            r@ == self.spec_text(),
    {
        match self {
            Message::TemplateError => "Template error".to_owned(),
            Message::RenderError => "Error".to_owned(),
            Message::DatabaseError => "Database error".to_owned(),
            Message::Other(words) => words.clone(),
            Message::UsernameEmpty => "Username cannot be empty".to_owned(),
            Message::PasswordTooShort => "Password must be at least 8 characters".to_owned(),
            Message::AdminNotCreated => {
                "Failed to create admin (username may already be taken)".to_owned()
            },
            Message::AdminNotFound => "Admin not found".to_owned(),
            Message::LastSuperadmin => "Cannot delete the last remaining superadmin".to_owned(),
            Message::AdminNotDeleted => "Failed to delete admin".to_owned(),
            Message::ValuesNotPositive => "Values must be positive".to_owned(),
            Message::NotUnblocked => "Failed to unblock".to_owned(),
            Message::ServerNameEmpty => "Server name cannot be empty".to_owned(),
            Message::ServerUrlEmpty => "Server URL cannot be empty".to_owned(),
            Message::PriorityOutOfRange => "Priority must be between 1 and 999".to_owned(),
            Message::InvalidStreamingMode => "Invalid streaming mode".to_owned(),
            Message::ServerUrlTaken => "A server with that URL already exists".to_owned(),
            Message::ServerNameTaken => "A server with that name already exists".to_owned(),
            Message::InvalidUrl => "Invalid URL format".to_owned(),
            Message::ServerNotAdded => "Failed to add server".to_owned(),
            Message::ServerNotFound => "Server not found".to_owned(),
            Message::StreamingModeNotUpdated => "Failed to update streaming mode".to_owned(),
            Message::ServerNotDeleted => "Failed to delete server".to_owned(),
            Message::PriorityNotUpdated => "Failed to update priority".to_owned(),
            Message::ClientError => "Client error".to_owned(),
            Message::NoAdministrator => "User is not an administrator on this server".to_owned(),
            Message::EncryptionFailed => "Encryption failed".to_owned(),
            Message::InvalidCredentials => "Invalid credentials".to_owned(),
            Message::ConnectionError(error) => text::join("Connection error: ", error.as_str()),
            Message::UserNotFound => "User not found".to_owned(),
            Message::CredentialsRequired => "Username and password required".to_owned(),
            Message::UserExists => "User already exists".to_owned(),
            Message::UserNotCreated => "Failed to create user".to_owned(),
            Message::UserNotDeleted => "Failed to delete user".to_owned(),
            Message::MappingCredentialsRequired => {
                "Mapping username and password are required.".to_owned()
            },
            Message::ServersNotLoaded => {
                "Could not load servers while validating this mapping.".to_owned()
            },
            Message::SelectedServerNotFound => {
                "Selected server was not found. Please refresh and try again.".to_owned()
            },
            Message::MappingNotPermitted => {
                "You don't have permission to add mappings for that server.".to_owned()
            },
            Message::NotConnected(server) => text::join3(
                "Failed to connect to selected server '",
                server.as_str(),
                "'.",
            ),
            Message::MappingRejected(server) => text::join3(
                "Validation failed on server '",
                server.as_str(),
                "': username or password is incorrect.",
            ),
            Message::MappingNotValidated(server, error) => text::join(
                text::join3(
                    "Could not validate credentials on server '",
                    server.as_str(),
                    "': ",
                ).as_str(),
                error.as_str(),
            ),
            Message::MappingNotAdded => "Failed to add mapping".to_owned(),
            Message::MappingNotFound => "Mapping not found".to_owned(),
            Message::MappingNotDeleted => "Failed to delete mapping".to_owned(),
            Message::LocalMappingNotRemoved => "Failed to remove local mapping".to_owned(),
            Message::KickedWithoutBlock(user, server) => text::join3(
                text::join3("Kicked '", user.as_str(), "' from '").as_str(),
                server.as_str(),
                "' but failed to persist the block -- they may be recreated on next login.",
            ),
            Message::Kicked(user, server, status) => text::join3(
                text::join3(
                    text::join3("Kicked '", user.as_str(), "' from '").as_str(),
                    server.as_str(),
                    "' (remote account: ",
                ).as_str(),
                status.name(),
                "). They will not be auto-recreated there.",
            ),
            Message::SessionsNotDeleted => "Failed to delete usersessions".to_owned(),
        }
    }
}

/// An answer to an admin's request.
#[derive(Debug)]
pub enum Reply {
    /// A page or a part of one.
    Html(String),
    /// A status without a body.
    Status(StatusCode),
    /// Plain text.
    Text(StatusCode, Message),
    /// An error box on the page.
    Alert(StatusCode, Message),
    /// An error bar in a dialog.
    Banner(StatusCode, Message),
}

impl Reply {
    pub open spec fn spec_status(self) -> StatusCode {
        match self {
            Reply::Html(_) => StatusCode::Success,
            Reply::Status(status) => status,
            Reply::Text(status, _) => status,
            Reply::Alert(status, _) => status,
            Reply::Banner(status, _) => status,
        }
    }

    pub open spec fn spec_body(self) -> Seq<char> {
        match self {
            Reply::Html(html) => html@,
            Reply::Status(_) => Seq::empty(),
            Reply::Text(_, message) => message.spec_text(),
            Reply::Alert(_, message) => "<div class=\"alert alert-error\">"@ + message.spec_text()
                + "</div>"@,
            Reply::Banner(_, message) => {
                "<div style=\"background-color: #e74c3c; color: white; padding: 0.75rem; border-radius: 0.25rem; margin-bottom: 1rem;\">"@
                    + message.spec_text() + "</div>"@
            },
        }
    }

    pub fn status(&self) -> (r: StatusCode)
        ensures
            r == self.spec_status(),
    {
        match self {
            Reply::Html(_) => StatusCode::Success,
            Reply::Status(status) => *status,
            Reply::Text(status, _) => *status,
            Reply::Alert(status, _) => *status,
            Reply::Banner(status, _) => *status,
        }
    }

    /// Whether the body is HTML rather than plain text.
    pub fn is_html(&self) -> (r: bool)
        ensures
            r == !(self is Status || self is Text),
    {
        match self {
            Reply::Status(_) => false,
            Reply::Text(_, _) => false,
            _ => true,
        }
    }

    pub fn body(&self) -> (r: String)
        ensures
            r@ == self.spec_body(),
    {
        match self {
            Reply::Html(html) => html.clone(),
            Reply::Status(_) => {
                let empty = String::new();
                assert(empty@ =~= Seq::<char>::empty());
                empty
            },
            Reply::Text(_, message) => message.text(),
            Reply::Alert(_, message) => text::join3(
                "<div class=\"alert alert-error\">",
                message.text().as_str(),
                "</div>",
            ),
            Reply::Banner(_, message) => text::join3(
                "<div style=\"background-color: #e74c3c; color: white; padding: 0.75rem; border-radius: 0.25rem; margin-bottom: 1rem;\">",
                message.text().as_str(),
                "</div>",
            ),
        }
    }
}

/// The answer to a request for a page, from what rendering it gave.
pub fn page(rendered: Result<String, String>) -> (r: Reply)
    ensures
        r == (match rendered {
            Ok(html) => Reply::Html(html),
            Err(_) => Reply::Text(StatusCode::InternalServerError, Message::TemplateError),
        }),
{
    match rendered {
        Ok(html) => Reply::Html(html),
        Err(_) => Reply::Text(StatusCode::InternalServerError, Message::TemplateError),
    }
}

/// The answer to a request for a part of a page, from what loading and
/// rendering it gave.
pub fn partial(rendered: Result<String, String>) -> (r: Reply)
    ensures
        r == (match rendered {
            Ok(html) => Reply::Html(html),
            Err(_) => Reply::Text(StatusCode::InternalServerError, Message::RenderError),
        }),
{
    match rendered {
        Ok(html) => Reply::Html(html),
        Err(_) => Reply::Text(StatusCode::InternalServerError, Message::RenderError),
    }
}

/// What a lookup gave, or the answer to a request whose lookup failed.
pub fn loaded<T>(found: Result<T, StorageError>) -> (r: Result<T, Reply>)
    ensures
        r == (match found {
            Ok(value) => Ok(value),
            Err(_) => Err(Reply::Text(StatusCode::InternalServerError, Message::DatabaseError)),
        }),
{
    match found {
        Ok(value) => Ok(value),
        Err(_) => Err(Reply::Text(StatusCode::InternalServerError, Message::DatabaseError)),
    }
}

/// What an admin is told, in words.
pub proof fn messages_in_words(words: String, other: String, status: SyncStatus)
    ensures
        Message::TemplateError.spec_text() == "Template error"@,
        Message::RenderError.spec_text() == "Error"@,
        Message::DatabaseError.spec_text() == "Database error"@,
        Message::UsernameEmpty.spec_text() == "Username cannot be empty"@,
        Message::PasswordTooShort.spec_text() == "Password must be at least 8 characters"@,
        Message::AdminNotCreated.spec_text() == "Failed to create admin (username may already be taken)"@,
        Message::AdminNotFound.spec_text() == "Admin not found"@,
        Message::LastSuperadmin.spec_text() == "Cannot delete the last remaining superadmin"@,
        Message::AdminNotDeleted.spec_text() == "Failed to delete admin"@,
        Message::ValuesNotPositive.spec_text() == "Values must be positive"@,
        Message::NotUnblocked.spec_text() == "Failed to unblock"@,
        Message::ServerNameEmpty.spec_text() == "Server name cannot be empty"@,
        Message::ServerUrlEmpty.spec_text() == "Server URL cannot be empty"@,
        Message::PriorityOutOfRange.spec_text() == "Priority must be between 1 and 999"@,
        Message::InvalidStreamingMode.spec_text() == "Invalid streaming mode"@,
        Message::ServerUrlTaken.spec_text() == "A server with that URL already exists"@,
        Message::ServerNameTaken.spec_text() == "A server with that name already exists"@,
        Message::InvalidUrl.spec_text() == "Invalid URL format"@,
        Message::ServerNotAdded.spec_text() == "Failed to add server"@,
        Message::ServerNotFound.spec_text() == "Server not found"@,
        Message::StreamingModeNotUpdated.spec_text() == "Failed to update streaming mode"@,
        Message::ServerNotDeleted.spec_text() == "Failed to delete server"@,
        Message::PriorityNotUpdated.spec_text() == "Failed to update priority"@,
        Message::ClientError.spec_text() == "Client error"@,
        Message::NoAdministrator.spec_text() == "User is not an administrator on this server"@,
        Message::EncryptionFailed.spec_text() == "Encryption failed"@,
        Message::InvalidCredentials.spec_text() == "Invalid credentials"@,
        Message::UserNotFound.spec_text() == "User not found"@,
        Message::CredentialsRequired.spec_text() == "Username and password required"@,
        Message::UserExists.spec_text() == "User already exists"@,
        Message::UserNotCreated.spec_text() == "Failed to create user"@,
        Message::UserNotDeleted.spec_text() == "Failed to delete user"@,
        Message::MappingCredentialsRequired.spec_text() == "Mapping username and password are required."@,
        Message::ServersNotLoaded.spec_text() == "Could not load servers while validating this mapping."@,
        Message::SelectedServerNotFound.spec_text() == "Selected server was not found. Please refresh and try again."@,
        Message::MappingNotPermitted.spec_text() == "You don't have permission to add mappings for that server."@,
        Message::MappingNotAdded.spec_text() == "Failed to add mapping"@,
        Message::MappingNotFound.spec_text() == "Mapping not found"@,
        Message::MappingNotDeleted.spec_text() == "Failed to delete mapping"@,
        Message::LocalMappingNotRemoved.spec_text() == "Failed to remove local mapping"@,
        Message::SessionsNotDeleted.spec_text() == "Failed to delete usersessions"@,
        Message::Other(words).spec_text() == words@,
        Message::ConnectionError(words).spec_text() == "Connection error: "@ + words@,
        Message::NotConnected(words).spec_text() == "Failed to connect to selected server '"@
            + words@ + "'."@,
        Message::MappingRejected(words).spec_text() == "Validation failed on server '"@ + words@
            + "': username or password is incorrect."@,
        Message::MappingNotValidated(words, other).spec_text()
            == "Could not validate credentials on server '"@ + words@ + "': "@ + other@,
        Message::KickedWithoutBlock(words, other).spec_text() == "Kicked '"@ + words@ + "' from '"@
            + other@
            + "' but failed to persist the block -- they may be recreated on next login."@,
        Message::Kicked(words, other, status).spec_text() == "Kicked '"@ + words@ + "' from '"@
            + other@ + "' (remote account: "@ + status.spec_name()
            + "). They will not be auto-recreated there."@,
{
}

/// An answer carries its own status; a page or a part of one is a success. An alert
/// and a banner hold the words of their message and nothing else of the request.
pub proof fn replies_carry_their_message(status: StatusCode, message: Message, html: String)
    ensures
        Reply::Html(html).spec_status() == StatusCode::Success,
        Reply::Html(html).spec_body() == html@,
        Reply::Status(status).spec_status() == status,
        Reply::Status(status).spec_body().len() == 0,
        Reply::Text(status, message).spec_status() == status,
        Reply::Text(status, message).spec_body() == message.spec_text(),
        Reply::Alert(status, message).spec_status() == status,
        Reply::Alert(status, message).spec_body() == "<div class=\"alert alert-error\">"@
            + message.spec_text() + "</div>"@,
        Reply::Banner(status, message).spec_status() == status,
        text::has_run(Reply::Banner(status, message).spec_body(), message.spec_text()),
{
    let open =
        "<div style=\"background-color: #e74c3c; color: white; padding: 0.75rem; border-radius: 0.25rem; margin-bottom: 1rem;\">"@;
    let body = Reply::Banner(status, message).spec_body();
    assert(body == open + message.spec_text() + "</div>"@);
    text::run_splits_the_text(body, message.spec_text());
}

} // verus!
