//! Which console admin is logged in, and which servers they may act on.

use vstd::prelude::*;

use crate::admin_id::AdminId;
use crate::console_admin_service::ConsoleAdmin;
use crate::server::Server;
use crate::status::StatusCode;
use crate::storage::StorageError;
use crate::ui::auth::{self, AuthenticatedUser, UserRole};

verus! {

/// The console admin who is logged in, checked against the accounts.
#[derive(Clone, Copy, Debug)]
pub struct CurrentAdmin {
    pub id: AdminId,
    pub is_superadmin: bool,
}

/// A logged-in console admin who is a superadmin. Settings and accounts that
/// concern everybody are for superadmins only.
pub struct SuperAdmin;

/// An admin may act on the servers they own, a superadmin on all of them.
pub open spec fn may_act(admin: CurrentAdmin, server: Server) -> bool {
    admin.is_superadmin || server.owner_admin_id == Some(admin.id)
}

/// Whether `admin` may act on `server`.
pub fn may_act_on(admin: &CurrentAdmin, server: &Server) -> (r: bool)
    ensures
        r == may_act(*admin, *server),
        r <==> admin.is_superadmin || server.owner_admin_id == Some(admin.id),
{
    admin.is_superadmin || match server.owner_admin_id {
        Some(owner) => owner == admin.id,
        None => false,
    }
}

impl CurrentAdmin {
    /// The account that a session claims: the session must be there, be an
    /// admin's, and name a console admin.
    pub fn claimed_id(session: Result<AuthenticatedUser, StatusCode>) -> (r: Result<
        AdminId,
        StatusCode,
    >)
        ensures
            match session {
                Ok(AuthenticatedUser(user)) => if user.role != UserRole::Admin {
                    r == Err::<AdminId, StatusCode>(StatusCode::Forbidden)
                } else {
                    match r {
                        Ok(id) => auth::admin_of_session(user.id@) == Some(id@),
                        Err(status) => auth::admin_of_session(user.id@) is None && status
                            == StatusCode::Unauthorized,
                    }
                },
                Err(status) => r == Err::<AdminId, StatusCode>(status),
            },
    {
        let user = match session {
            Ok(AuthenticatedUser(user)) => user,
            Err(status) => {
                return Err(status);
            },
        };
        match user.role {
            UserRole::Admin => {},
            UserRole::User => {
                return Err(StatusCode::Forbidden);
            },
        }
        match auth::parse_console_admin_id(user.id.as_str()) {
            Some(id) => Ok(id),
            None => Err(StatusCode::Unauthorized),
        }
    }

    /// The logged-in admin, from the account that the session claims. An
    /// account deleted since the session began is not authorized.
    pub fn from_account(account: Result<Option<ConsoleAdmin>, StorageError>) -> (r: Result<
        CurrentAdmin,
        StatusCode,
    >)
        ensures
            r == (match account {
                Ok(Some(admin)) => Ok(
                    CurrentAdmin { id: admin.id, is_superadmin: admin.is_superadmin },
                ),
                Ok(None) => Err(StatusCode::Unauthorized),
                Err(_) => Err(StatusCode::InternalServerError),
            }),
    {
        match account {
            Ok(Some(admin)) => Ok(
                CurrentAdmin { id: admin.id, is_superadmin: admin.is_superadmin },
            ),
            Ok(None) => Err(StatusCode::Unauthorized),
            Err(_) => Err(StatusCode::InternalServerError),
        }
    }
}

impl SuperAdmin {
    /// Lets only superadmins through.
    pub fn from_admin(admin: Result<CurrentAdmin, StatusCode>) -> (r: Result<
        SuperAdmin,
        StatusCode,
    >)
        ensures
            r == (match admin {
                Ok(current) => if current.is_superadmin {
                    Ok(SuperAdmin)
                } else {
                    Err(StatusCode::Forbidden)
                },
                Err(status) => Err(status),
            }),
    {
        match admin {
            Ok(current) => if current.is_superadmin {
                Ok(SuperAdmin)
            } else {
                Err(StatusCode::Forbidden)
            },
            Err(status) => Err(status),
        }
    }
}

/// The server that was looked up, if `admin` may act on it.
pub open spec fn owned(
    admin: CurrentAdmin,
    loaded: Result<Option<Server>, StorageError>,
) -> Result<Server, StatusCode> {
    match loaded {
        Ok(Some(server)) => if may_act(admin, server) {
            Ok(server)
        } else {
            Err(StatusCode::Forbidden)
        },
        Ok(None) => Err(StatusCode::NotFound),
        Err(_) => Err(StatusCode::InternalServerError),
    }
}

/// Lets `admin` through to the server that was looked up only if they may act on it.
pub fn require_owner_or_superadmin(
    admin: &CurrentAdmin,
    loaded: Result<Option<Server>, StorageError>,
) -> (r: Result<Server, StatusCode>)
    ensures
        r == owned(*admin, loaded),
        r matches Ok(server) ==> loaded == Ok::<Option<Server>, StorageError>(Some(server)) && (
        admin.is_superadmin || server.owner_admin_id == Some(admin.id)),
        loaded matches Ok(Some(server)) ==> (if admin.is_superadmin || server.owner_admin_id
            == Some(admin.id) {
            r == Ok::<Server, StatusCode>(server)
        } else {
            r == Err::<Server, StatusCode>(StatusCode::Forbidden)
        }),
        loaded matches Ok(None) ==> r == Err::<Server, StatusCode>(StatusCode::NotFound),
        loaded is Err ==> r == Err::<Server, StatusCode>(StatusCode::InternalServerError),
{
    match loaded {
        Ok(Some(server)) => if may_act_on(admin, &server) {
            Ok(server)
        } else {
            Err(StatusCode::Forbidden)
        },
        Ok(None) => Err(StatusCode::NotFound),
        Err(_) => Err(StatusCode::InternalServerError),
    }
}

/// A superadmin may act on every server; anyone else on exactly those they
/// own, and so on no server without an owner.
pub proof fn ownership_rule(admin: CurrentAdmin, server: Server)
    ensures
        admin.is_superadmin ==> may_act(admin, server),
        !admin.is_superadmin ==> (may_act(admin, server) <==> server.owner_admin_id == Some(
            admin.id,
        )),
        !admin.is_superadmin && server.owner_admin_id is None ==> !may_act(admin, server),
{
}

} // verus!
