//! The servers behind the proxy, and the users' accounts on them.

use vstd::prelude::*;

use crate::admin_id::AdminId;
use crate::encryption::{HashedPassword, Password};
use crate::moment::Moment;

verus! {

/// The number of a server.
#[derive(Clone, Copy, Debug, PartialEq, Eq, Hash, Structural)]
pub struct ServerId(i64);

impl View for ServerId {
    type V = int;

    closed spec fn view(&self) -> int {
        self.0 as int
    }
}

impl ServerId {
    pub fn new(value: i64) -> (r: ServerId)
        ensures
            r@ == value,
    {
        ServerId(value)
    }

    pub fn as_i64(self) -> (r: i64)
        ensures
            r == self@,
    {
        self.0
    }
}

/// How media reaches the player: straight from the server, or through the proxy.
#[derive(Clone, Copy, Debug, PartialEq, Eq, Structural)]
pub enum MediaStreamingMode {
    Redirect,
    Proxy,
}

#[derive(Debug)]
pub struct Server {
    pub id: ServerId,
    pub name: String,
    pub url: String,
    pub priority: i32,
    pub media_streaming_mode: MediaStreamingMode,
    pub created_at: Moment,
    pub updated_at: Moment,
    /// The console admin who manages the server; a server may have none.
    pub owner_admin_id: Option<AdminId>,
}

impl Clone for Server {
    fn clone(&self) -> (r: Server)
        ensures
            r == *self,
    {
        Server {
            id: self.id,
            name: self.name.clone(),
            url: self.url.clone(),
            priority: self.priority,
            media_streaming_mode: self.media_streaming_mode,
            created_at: self.created_at,
            updated_at: self.updated_at,
            owner_admin_id: self.owner_admin_id,
        }
    }
}

/// The credentials of an administrator on a server, the password encrypted.
#[derive(Debug)]
pub struct ServerAdmin {
    pub username: String,
    pub password: String,
}

/// A local user's account on one server, the password encrypted.
#[derive(Debug)]
pub struct ServerMapping {
    pub id: i64,
    pub user_id: String,
    pub server_id: ServerId,
    pub mapped_username: String,
    pub mapped_password: String,
}

impl Clone for ServerMapping {
    fn clone(&self) -> (r: ServerMapping)
        ensures
            r == *self,
    {
        ServerMapping {
            id: self.id,
            user_id: self.user_id.clone(),
            server_id: self.server_id,
            mapped_username: self.mapped_username.clone(),
            mapped_password: self.mapped_password.clone(),
        }
    }
}

/// An account of a local user on a server, as it is handed to the records: the
/// password is to be encrypted with `key`.
pub struct AccountToRecord {
    pub user_id: String,
    pub server: Server,
    pub username: String,
    pub password: Password,
    pub key: Password,
}

/// What a block is kept under: a username on a server.
pub struct BlockKey {
    pub server_id: ServerId,
    pub username: String,
}

impl View for BlockKey {
    type V = (ServerId, Seq<char>);

    open spec fn view(&self) -> (ServerId, Seq<char>) {
        (self.server_id, self.username@)
    }
}

/// A block of a username on a server, as it is handed to the records.
pub struct BlockToRecord {
    pub key: BlockKey,
    pub blocked_by: AdminId,
}

/// A user of the proxy.
pub struct LocalUser {
    pub id: String,
    /// The token under which the user's requests reach the proxy.
    pub virtual_key: String,
    pub original_username: String,
    pub original_password_hash: HashedPassword,
}

impl Clone for LocalUser {
    fn clone(&self) -> (r: LocalUser)
        ensures
            r == *self,
    {
        LocalUser {
            id: self.id.clone(),
            virtual_key: self.virtual_key.clone(),
            original_username: self.original_username.clone(),
            original_password_hash: self.original_password_hash.clone(),
        }
    }
}

/// The position of the first server with this id; past the end if there is none.
pub open spec fn position_of(servers: Seq<Server>, id: ServerId) -> int
    decreases servers.len(),
{
    if servers.len() == 0 || servers[0].id == id {
        0
    } else {
        1 + position_of(servers.skip(1), id)
    }
}

/// The position of the first server with this id; past the end if there is none.
pub fn find_server(servers: &Vec<Server>, id: ServerId) -> (r: usize)
    ensures
        r == position_of(servers@, id),
        r <= servers@.len(),
        forall|j: int| 0 <= j < r ==> (#[trigger] servers@[j]).id != id,
        r < servers@.len() ==> servers@[r as int].id == id,
{
    proof {
        position_is_of_that_server(servers@, id);
    }
    let n: usize = servers.len();
    let mut i: usize = 0;
    assert(servers@.skip(0) =~= servers@);
    while i < n
        invariant
            n == servers@.len(),
            i <= n,
            forall|j: int| 0 <= j < i ==> (#[trigger] servers@[j]).id != id,
            position_of(servers@, id) == i + position_of(servers@.skip(i as int), id),
        decreases n - i,
    {
        assert(servers@.skip(i as int)[0] == servers@[i as int]);
        if servers[i].id == id {
            return i;
        }
        assert(servers@.skip(i as int).skip(1) =~= servers@.skip(i + 1));
        i = i + 1;
    }
    n
}

/// The position, if it is not past the end, is that of a server with the id, and no
/// server before it has the id.
pub proof fn position_is_of_that_server(servers: Seq<Server>, id: ServerId)
    ensures
        0 <= position_of(servers, id) <= servers.len(),
        position_of(servers, id) < servers.len() ==> servers[position_of(servers, id)].id == id,
        forall|j: int| 0 <= j < position_of(servers, id) ==> (#[trigger] servers[j]).id != id,
    decreases servers.len(),
{
    if servers.len() > 0 && servers[0].id != id {
        let rest = servers.skip(1);
        position_is_of_that_server(rest, id);
        assert forall|j: int| 0 <= j < position_of(servers, id) implies (
        #[trigger] servers[j]).id != id by {
            if j > 0 {
                assert(rest[j - 1] == servers[j]);
            }
        }
    }
}

} // verus!
