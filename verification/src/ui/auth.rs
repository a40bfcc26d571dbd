//! Who is logged in to the management pages.

use vstd::prelude::*;

use crate::admin_id::AdminId;
use crate::console_admin_service::{self, ConsoleAdmin, ConsoleAdminService};
use crate::encryption::HashedPassword;
use crate::server::LocalUser;
use crate::status::StatusCode;
use crate::storage::StorageError;
use crate::text;

verus! {

/// The prefix of the session ids of console admins. It tells them apart from
/// the sessions of ordinary users.
pub open spec fn admin_prefix() -> Seq<char> {
    "console:"@
}

/// The session id of a console admin.
pub open spec fn admin_session_id(id: int) -> Seq<char> {
    admin_prefix() + text::int_text(id)
}

/// The console admin that a session id names, if it names one.
pub open spec fn admin_of_session(user_id: Seq<char>) -> Option<int> {
    if admin_prefix().is_prefix_of(user_id) {
        match text::i64_of_text(user_id.skip(admin_prefix().len() as int)) {
            Some(n) => Some(n as int),
            None => None,
        }
    } else {
        None
    }
}

/// The admin id in a session id that was made for a console admin, or `None`
/// if `user_id` is not one.
pub fn parse_console_admin_id(user_id: &str) -> (r: Option<AdminId>)
    ensures
        match r {
            Some(id) => admin_of_session(user_id@) == Some(id@),
            None => admin_of_session(user_id@) is None,
        },
{
    proof {
        reveal_strlit("console:");
    }
    let n: usize = user_id.unicode_len();
    if !text::begins_with(user_id, "console:") {
        return None;
    }
    let rest = user_id.substring_char(8, n);
    assert(rest@ == user_id@.skip(8));
    match text::parse_i64(rest) {
        Some(value) => Some(AdminId::new(value)),
        None => None,
    }
}

/// The session id of the console admin `id`.
pub fn console_admin_user_id(id: AdminId) -> (r: String)
    ensures
        r@ == admin_session_id(id@),
{
    text::join("console:", id.to_text().as_str())
}

/// Reading back a session id that was made for a console admin gives that admin.
pub proof fn admin_session_round_trip(id: AdminId)
    ensures
        admin_of_session(admin_session_id(id@)) == Some(id@),
{
    crate::admin_id::admin_id_is_its_number(id, id);
    let s = admin_session_id(id@);
    assert(s.skip(admin_prefix().len() as int) =~= text::int_text(id@));
    text::int_text_denotes(id@ as i64);
}

/// A session id without the prefix never names a console admin.
pub proof fn ordinary_session_is_no_admin(user_id: Seq<char>)
    requires
        !admin_prefix().is_prefix_of(user_id),
    ensures
        admin_of_session(user_id) is None,
{
}

#[derive(Clone, Copy, Debug, PartialEq, Eq, Structural)]
pub enum UserRole {
    Admin,
    User,
}

/// Whoever is logged in.
pub struct User {
    pub id: String,
    pub username: String,
    pub password_hash: HashedPassword,
    pub role: UserRole,
}

pub struct AuthenticatedUser(pub User);

#[derive(Debug)]
pub struct Credentials {
    pub username: String,
    pub password: String,
    pub next: Option<String>,
}

#[derive(Debug)]
pub enum Error {
    TaskJoin(String),
    Sqlx(StorageError),
}

/// `user` is the session of the console admin `admin`.
pub open spec fn is_admin_session(user: User, admin: ConsoleAdmin) -> bool {
    &&& user.id@ == admin_session_id(admin.id@)
    &&& user.username == admin.username
    &&& user.password_hash@ == admin.password_hash@
    &&& user.role == UserRole::Admin
}

/// The session of an ordinary user.
pub open spec fn user_session(user: LocalUser) -> User {
    User {
        id: user.id,
        username: user.original_username,
        password_hash: user.original_password_hash,
        role: UserRole::User,
    }
}

impl User {
    /// The session of the console admin `admin`.
    pub fn for_admin(admin: ConsoleAdmin) -> (r: User)
        ensures
            is_admin_session(r, admin),
            r.id@ == "console:"@ + text::int_text(admin.id@),
            r.username == admin.username,
            r.password_hash@ == admin.password_hash@,
            r.role == UserRole::Admin,
    {
        User {
            id: console_admin_user_id(admin.id),
            username: admin.username,
            password_hash: HashedPassword::from_hashed(admin.password_hash),
            role: UserRole::Admin,
        }
    }

    /// The session of the ordinary user `user`.
    pub fn for_user(user: LocalUser) -> (r: User)
        ensures
            r == user_session(user),
            r.id == user.id,
            r.username == user.original_username,
            r.password_hash == user.original_password_hash,
            r.role == UserRole::User,
    {
        User {
            id: user.id,
            username: user.original_username,
            password_hash: user.original_password_hash,
            role: UserRole::User,
        }
    }

    /// The id of the session.
    pub fn id(&self) -> (r: String)
        ensures
            r == self.id,
    {
        self.id.clone()
    }

    /// What the session is tied to: it ends when the password hash changes.
    pub fn session_auth_hash(&self) -> (r: &[u8])
        ensures
            r@ == vstd::utf8::encode_utf8(self.password_hash@),
    {
        self.password_hash.as_str().as_bytes()
    }
}

impl AuthenticatedUser {
    /// The user of a session: an unreadable session is the server's fault, one
    /// without a user is not authorized.
    pub fn from_session(session: Result<Option<User>, ()>) -> (r: Result<
        AuthenticatedUser,
        StatusCode,
    >)
        ensures
            r == (match session {
                Ok(Some(user)) => Ok(AuthenticatedUser(user)),
                Ok(None) => Err(StatusCode::Unauthorized),
                Err(_) => Err(StatusCode::InternalServerError),
            }),
    {
        match session {
            Ok(Some(user)) => Ok(AuthenticatedUser(user)),
            Ok(None) => Err(StatusCode::Unauthorized),
            Err(_) => Err(StatusCode::InternalServerError),
        }
    }
}

/// The outcome of a login against the console admins.
pub enum AdminLogin {
    /// The credentials open a console admin's account.
    Granted(User),
    /// They open none: ask for an ordinary user with these credentials.
    AskUsers(Credentials),
}

/// The outcome of looking a session up among the console admins.
pub enum SessionLookup {
    /// The session is a console admin's; the account may be gone.
    Admin(Option<User>),
    /// The session is not a console admin's: ask for an ordinary user with this id.
    AskUsers,
}

/// Logs in console admins and ordinary users.
pub struct Backend {
    console_admins: ConsoleAdminService,
}

impl Backend {
    pub closed spec fn wf(self) -> bool {
        self.console_admins.wf()
    }

    pub closed spec fn accounts(self) -> console_admin_service::Accounts {
        self.console_admins@
    }

    pub fn new(console_admins: ConsoleAdminService) -> (r: Backend)
        requires
            console_admins.wf(),
        ensures
            r.wf(),
            r.accounts() == console_admins@,
    {
        Backend { console_admins }
    }

    /// Tries the credentials on the console admins, who come before ordinary users.
    pub fn authenticate(&self, creds: Credentials) -> (r: AdminLogin)
        requires
            self.wf(),
        ensures
            match r {
                AdminLogin::Granted(user) => exists|admin: ConsoleAdmin| #[trigger]
                    is_admin_session(user, admin) && console_admin_service::is_account(
                        self.accounts(),
                        admin,
                    ) && console_admin_service::opens(
                        self.accounts(),
                        admin.id,
                        creds.username@,
                        creds.password@,
                    ),
                AdminLogin::AskUsers(same) => same == creds && forall|id: AdminId|
                    !console_admin_service::opens(
                        self.accounts(),
                        id,
                        creds.username@,
                        creds.password@,
                    ),
            },
            r matches AdminLogin::Granted(user) ==> user.role == UserRole::Admin
                && user.username@ == creds.username@ && user.password_hash@.len() > 0
                && crate::password_hash::argon2_accepts(creds.password@, user.password_hash@),
    {
        match self.console_admins.verify_credentials(
            creds.username.as_str(),
            creds.password.as_str(),
        ) {
            Some(admin) => {
                let user = User::for_admin(admin);
                assert(is_admin_session(user, admin));
                AdminLogin::Granted(user)
            },
            None => AdminLogin::AskUsers(creds),
        }
    }

    /// Looks up the session `user_id` among the console admins.
    pub fn get_user(&self, user_id: &str) -> (r: SessionLookup)
        requires
            self.wf(),
        ensures
            match r {
                SessionLookup::Admin(Some(user)) => exists|admin: ConsoleAdmin| #[trigger]
                    is_admin_session(user, admin) && console_admin_service::is_account(
                        self.accounts(),
                        admin,
                    ) && admin_of_session(user_id@) == Some(admin.id@),
                SessionLookup::Admin(None) => admin_of_session(user_id@) matches Some(n)
                    && forall|id: AdminId| #[trigger] self.accounts().contains_key(id) ==> id@ != n,
                SessionLookup::AskUsers => admin_of_session(user_id@) is None,
            },
    {
        match parse_console_admin_id(user_id) {
            Some(id) => match self.console_admins.get_admin_by_id(id) {
                Some(admin) => {
                    let user = User::for_admin(admin);
                    assert(is_admin_session(user, admin));
                    SessionLookup::Admin(Some(user))
                },
                None => {
                    assert forall|other: AdminId| #[trigger]
                        self.accounts().contains_key(other) implies other@ != id@ by {
                        crate::admin_id::admin_id_is_its_number(other, id);
                    }
                    SessionLookup::Admin(None)
                },
            },
            None => SessionLookup::AskUsers,
        }
    }

    /// The session of the ordinary user that was asked for.
    pub fn user_found(found: Result<Option<LocalUser>, StorageError>) -> (r: Result<
        Option<User>,
        Error,
    >)
        ensures
            r == (match found {
                Ok(Some(user)) => Ok(Some(user_session(user))),
                Ok(None) => Ok(None),
                Err(error) => Err(Error::Sqlx(error)),
            }),
            found matches Ok(Some(user)) ==> (r matches Ok(Some(session)) && session.id == user.id
                && session.username == user.original_username && session.password_hash
                == user.original_password_hash && session.role == UserRole::User),
    {
        match found {
            Ok(Some(user)) => Ok(Some(User::for_user(user))),
            Ok(None) => Ok(None),
            Err(error) => Err(Error::Sqlx(error)),
        }
    }
}

/// The session that a console admin gets leads back to that admin.
pub proof fn admin_session_leads_back(user: User, admin: ConsoleAdmin)
    requires
        is_admin_session(user, admin),
    ensures
        admin_of_session(user.id@) == Some(admin.id@),
{
    admin_session_round_trip(admin.id);
}

/// A session id names a console admin exactly when it is `console:` followed by the
/// admin's number in decimal, with or without a sign, as far as an id reaches; and
/// the one that an admin gets is that.
pub proof fn admin_sessions_are_numbers(rest: Seq<char>, user_id: Seq<char>, id: int)
    ensures
        admin_session_id(id) == "console:"@ + text::int_text(id),
        admin_of_session("console:"@ + rest) is Some <==> (text::int_of_text(rest) matches Some(n)
            && i64::MIN <= n <= i64::MAX),
        admin_of_session("console:"@ + rest) matches Some(n) ==> text::int_of_text(rest) == Some(n),
        admin_of_session(user_id) is Some ==> exists|tail: Seq<char>|
            user_id == #[trigger] ("console:"@ + tail),
{
    let named = "console:"@ + rest;
    assert(named.skip(admin_prefix().len() as int) =~= rest);
    assert(admin_prefix().is_prefix_of(named));
    if admin_of_session(user_id) is Some {
        let tail = user_id.skip(admin_prefix().len() as int);
        assert(user_id =~= "console:"@ + tail);
    }
}

} // verus!
