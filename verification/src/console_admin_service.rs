//! Console admins: the operator accounts of the proxy's own management pages.
//!
//! Each account has an id and a username of its own. An account with an empty
//! password hash is a placeholder that nobody can log in to, until the first
//! start fills it in from the configuration.

use vstd::prelude::*;

use crate::admin_id::{self, AdminId};
use crate::config::AppConfig;
use crate::moment::Moment;
use crate::password_hash;
use crate::storage::StorageError;
use crate::table;
use crate::text;

verus! {

#[derive(Debug)]
pub struct ConsoleAdmin {
    pub id: AdminId,
    pub username: String,
    pub password_hash: String,
    pub is_superadmin: bool,
    pub created_at: Moment,
    pub updated_at: Moment,
}

impl Clone for ConsoleAdmin {
    fn clone(&self) -> (r: ConsoleAdmin)
        ensures
            r == *self,
    {
        ConsoleAdmin {
            id: self.id,
            username: self.username.clone(),
            password_hash: self.password_hash.clone(),
            is_superadmin: self.is_superadmin,
            created_at: self.created_at,
            updated_at: self.updated_at,
        }
    }
}

#[derive(Debug)]
pub enum ConsoleAdminError {
    Sqlx(StorageError),
    Hash(String),
}

/// All that is kept of an account besides its id.
pub struct AdminRecord {
    pub username: Seq<char>,
    pub password_hash: Seq<char>,
    pub is_superadmin: bool,
    pub created_at: Moment,
    pub updated_at: Moment,
}

impl View for ConsoleAdmin {
    type V = AdminRecord;

    open spec fn view(&self) -> AdminRecord {
        AdminRecord {
            username: self.username@,
            password_hash: self.password_hash@,
            is_superadmin: self.is_superadmin,
            created_at: self.created_at,
            updated_at: self.updated_at,
        }
    }
}

/// Accounts by id.
pub type Accounts = Map<AdminId, AdminRecord>;

pub open spec fn pairs(admins: Seq<ConsoleAdmin>) -> Seq<(AdminId, AdminRecord)> {
    admins.map_values(|admin: ConsoleAdmin| (admin.id, admin@))
}

/// No two accounts have the same username.
pub open spec fn usernames_unique(accounts: Accounts) -> bool {
    forall|a: AdminId, b: AdminId|
        accounts.contains_key(a) && accounts.contains_key(b) && #[trigger] accounts[a].username
            == #[trigger] accounts[b].username ==> a == b
}

/// Some account has this username.
pub open spec fn is_taken(accounts: Accounts, username: Seq<char>) -> bool {
    exists|id: AdminId| #[trigger]
        accounts.contains_key(id) && accounts[id].username == username
}

/// `id` is the account with this username.
pub open spec fn is_named(accounts: Accounts, id: AdminId, username: Seq<char>) -> bool {
    accounts.contains_key(id) && accounts[id].username == username
}

/// These credentials open the account `id`: it has this username, it is no
/// placeholder, and its hash accepts the password.
pub open spec fn opens(
    accounts: Accounts,
    id: AdminId,
    username: Seq<char>,
    password: Seq<char>,
) -> bool {
    &&& is_named(accounts, id, username)
    &&& accounts[id].password_hash.len() > 0
    &&& password_hash::accepts(password, accounts[id].password_hash)
}

/// `id` is the placeholder account that the first start fills in: of those with
/// an empty hash, the one with the smallest id.
pub open spec fn is_placeholder(accounts: Accounts, id: AdminId) -> bool {
    &&& accounts.contains_key(id)
    &&& accounts[id].password_hash.len() == 0
    &&& forall|other: AdminId| #[trigger]
        accounts.contains_key(other) && accounts[other].password_hash.len() == 0 ==> id@ <= other@
}

/// Some account is still a placeholder.
pub open spec fn has_placeholder(accounts: Accounts) -> bool {
    exists|id: AdminId| #[trigger]
        accounts.contains_key(id) && accounts[id].password_hash.len() == 0
}

/// Some account has a password.
pub open spec fn has_real_admin(accounts: Accounts) -> bool {
    exists|id: AdminId| #[trigger]
        accounts.contains_key(id) && accounts[id].password_hash.len() > 0
}

/// Every id is in use.
pub open spec fn no_id_left(accounts: Accounts) -> bool {
    forall|id: AdminId| #[trigger] accounts.contains_key(id)
}

/// `admin` is the account `admin.id`.
pub open spec fn is_account(accounts: Accounts, admin: ConsoleAdmin) -> bool {
    accounts.contains_key(admin.id) && accounts[admin.id] == admin@
}

/// The accounts of all operators.
pub struct ConsoleAdminService {
    admins: Vec<ConsoleAdmin>,
}

impl View for ConsoleAdminService {
    type V = Accounts;

    closed spec fn view(&self) -> Accounts {
        table::as_map(pairs(self.admins@))
    }
}

impl ConsoleAdminService {
    pub closed spec fn wf(self) -> bool {
        table::unique(pairs(self.admins@)) && usernames_unique(self@)
    }

    /// No accounts.
    pub fn new() -> (r: ConsoleAdminService)
        ensures
            r.wf(),
            r@ == Map::<AdminId, AdminRecord>::empty(),
    {
        let r = ConsoleAdminService { admins: Vec::new() };
        assert(r@ =~= Map::<AdminId, AdminRecord>::empty());
        r
    }

    fn position_of_id(&self, id: AdminId) -> (r: Option<usize>)
        requires
            self.wf(),
        ensures
            match r {
                Some(i) => i < self.admins@.len() && self.admins@[i as int].id == id && is_account(
                    self@,
                    self.admins@[i as int],
                ),
                None => !self@.contains_key(id),
            },
    {
        let mut i: usize = 0;
        while i < self.admins.len()
            invariant
                self.wf(),
                i <= self.admins@.len(),
                forall|j: int| 0 <= j < i ==> (#[trigger] pairs(self.admins@)[j]).0 != id,
            decreases self.admins@.len() - i,
        {
            if self.admins[i].id == id {
                proof {
                    table::map_at(pairs(self.admins@), i as int);
                }
                return Some(i);
            }
            i = i + 1;
        }
        None
    }

    fn position_of_username(&self, username: &str) -> (r: Option<usize>)
        requires
            self.wf(),
        ensures
            match r {
                Some(i) => i < self.admins@.len() && self.admins@[i as int].username@ == username@
                    && is_account(self@, self.admins@[i as int]),
                None => !is_taken(self@, username@),
            },
    {
        let mut i: usize = 0;
        while i < self.admins.len()
            invariant
                self.wf(),
                i <= self.admins@.len(),
                forall|j: int| 0 <= j < i ==> (#[trigger] self.admins@[j]).username@ != username@,
            decreases self.admins@.len() - i,
        {
            if text::same(self.admins[i].username.as_str(), username) {
                proof {
                    table::map_at(pairs(self.admins@), i as int);
                }
                return Some(i);
            }
            i = i + 1;
        }
        proof {
            if is_taken(self@, username@) {
                let id = choose|id: AdminId| #[trigger]
                    self@.contains_key(id) && self@[id].username == username@;
                let j = table::map_has(pairs(self.admins@), id);
                assert(self.admins@[j].username@ == username@);
            }
        }
        None
    }

    /// Replaces the account that `admin` has the id of.
    fn replace(&mut self, i: usize, admin: ConsoleAdmin)
        requires
            old(self).wf(),
            i < old(self).admins@.len(),
            admin.id == old(self).admins@[i as int].id,
            forall|id: AdminId| #[trigger]
                old(self)@.contains_key(id) && old(self)@[id].username == admin.username@ ==> id
                    == admin.id,
        ensures
            final(self).wf(),
            final(self)@ == old(self)@.insert(admin.id, admin@),
    {
        let ghost before = self.admins@;
        self.admins.set(i, admin);
        proof {
            table::map_update(pairs(before), i as int, admin@);
            assert(pairs(self.admins@) =~= pairs(before).update(i as int, (admin.id, admin@)));
        }
    }

    pub fn get_admin_by_username(&self, username: &str) -> (r: Option<ConsoleAdmin>)
        requires
            self.wf(),
        ensures
            match r {
                Some(admin) => is_account(self@, admin) && admin.username@ == username@,
                None => !is_taken(self@, username@),
            },
            r matches Some(admin) ==> self@.contains_key(admin.id) && self@[admin.id] == admin@,
            r is None ==> forall|id: AdminId| #[trigger]
                self@.contains_key(id) ==> self@[id].username != username@,
    {
        match self.position_of_username(username) {
            Some(i) => Some(self.admins[i].clone()),
            None => None,
        }
    }

    pub fn get_admin_by_id(&self, id: AdminId) -> (r: Option<ConsoleAdmin>)
        requires
            self.wf(),
        ensures
            match r {
                Some(admin) => is_account(self@, admin) && admin.id == id,
                None => !self@.contains_key(id),
            },
            r is Some <==> self@.contains_key(id),
            r matches Some(admin) ==> admin.id == id && admin@ == self@[id],
    {
        match self.position_of_id(id) {
            Some(i) => Some(self.admins[i].clone()),
            None => None,
        }
    }

    /// The account that the credentials open, or `None` if the username does
    /// not exist, the account is a placeholder or the password is wrong.
    pub fn verify_credentials(&self, username: &str, plaintext_password: &str) -> (r: Option<
        ConsoleAdmin,
    >)
        requires
            self.wf(),
        ensures
            match r {
                Some(admin) => is_account(self@, admin) && opens(
                    self@,
                    admin.id,
                    username@,
                    plaintext_password@,
                ),
                None => forall|id: AdminId| !opens(self@, id, username@, plaintext_password@),
            },
            r matches Some(admin) ==> {
                &&& self@.contains_key(admin.id)
                &&& self@[admin.id] == admin@
                &&& admin.username@ == username@
                &&& admin.password_hash@.len() > 0
                &&& password_hash::argon2_accepts(plaintext_password@, admin.password_hash@)
            },
            r is None ==> forall|id: AdminId| #[trigger]
                self@.contains_key(id) && self@[id].username == username@
                    && self@[id].password_hash.len() > 0 && !password_hash::asks_too_many_lanes(
                    self@[id].password_hash,
                ) ==> !password_hash::argon2_accepts(plaintext_password@, self@[id].password_hash),
    {
        let admin = match self.get_admin_by_username(username) {
            Some(admin) => admin,
            None => {
                return None;
            },
        };
        proof {
            assert forall|id: AdminId| opens(self@, id, username@, plaintext_password@) implies id
                == admin.id by {
                assert(self@[id].username == self@[admin.id].username);
            }
            assert forall|id: AdminId| #[trigger]
                self@.contains_key(id) && self@[id].username == username@ implies id
                == admin.id by {
                assert(self@[id].username == self@[admin.id].username);
            }
        }
        if admin.password_hash.as_str().is_empty() {
            return None;
        }
        if password_hash::verify_password(plaintext_password, admin.password_hash.as_str()) {
            Some(admin)
        } else {
            None
        }
    }

    /// An id that no account has, or `None` when every id is in use.
    fn free_id(&self) -> (r: Option<AdminId>)
        requires
            self.wf(),
        ensures
            match r {
                Some(id) => !self@.contains_key(id),
                None => no_id_left(self@),
            },
    {
        let mut largest: i64 = 0;
        let mut i: usize = 0;
        while i < self.admins.len()
            invariant
                self.wf(),
                i <= self.admins@.len(),
                forall|j: int| 0 <= j < i ==> (#[trigger] self.admins@[j]).id@ <= largest,
            decreases self.admins@.len() - i,
        {
            if self.admins[i].id.as_i64() > largest {
                largest = self.admins[i].id.as_i64();
            }
            i = i + 1;
        }
        if largest < i64::MAX {
            let id = AdminId::new(largest + 1);
            proof {
                if self@.contains_key(id) {
                    let j = table::map_has(pairs(self.admins@), id);
                    assert(self.admins@[j].id == id);
                }
            }
            return Some(id);
        }
        let mut candidate: i64 = i64::MAX;
        assert forall|id: AdminId| candidate < id@ implies #[trigger] self@.contains_key(id) by {
            admin_id::admin_id_is_its_number(id, id);
        }
        loop
            invariant
                self.wf(),
                forall|id: AdminId| candidate < id@ ==> #[trigger] self@.contains_key(id),
            decreases candidate - i64::MIN,
        {
            let id = AdminId::new(candidate);
            if self.position_of_id(id).is_none() {
                return Some(id);
            }
            assert forall|other: AdminId| candidate <= other@ implies #[trigger] self@.contains_key(
                other,
            ) by {
                admin_id::admin_id_is_its_number(other, id);
            }
            if candidate == i64::MIN {
                assert forall|other: AdminId| #[trigger] self@.contains_key(other) by {
                    admin_id::admin_id_is_its_number(other, id);
                }
                return None;
            }
            candidate = candidate - 1;
        }
    }

    fn any_real_admin(&self) -> (r: bool)
        requires
            self.wf(),
        ensures
            r == has_real_admin(self@),
    {
        let mut i: usize = 0;
        while i < self.admins.len()
            invariant
                self.wf(),
                i <= self.admins@.len(),
                forall|j: int|
                    0 <= j < i ==> (#[trigger] self.admins@[j]).password_hash@.len() == 0,
            decreases self.admins@.len() - i,
        {
            if !self.admins[i].password_hash.as_str().is_empty() {
                proof {
                    table::map_at(pairs(self.admins@), i as int);
                    assert(self@.contains_key(self.admins@[i as int].id));
                }
                return true;
            }
            i = i + 1;
        }
        proof {
            if has_real_admin(self@) {
                let id = choose|id: AdminId| #[trigger]
                    self@.contains_key(id) && self@[id].password_hash.len() > 0;
                let j = table::map_has(pairs(self.admins@), id);
                assert(self.admins@[j].password_hash@.len() > 0);
            }
        }
        false
    }
}

/// A placeholder account, if there is one, is the only one with its id.
proof fn placeholder_is_unique(accounts: Accounts, a: AdminId, b: AdminId)
    requires
        is_placeholder(accounts, a),
        is_placeholder(accounts, b),
    ensures
        a == b,
{
    admin_id::admin_id_is_its_number(a, b);
}

/// The account that the first start fills in.
pub open spec fn placeholder_of(accounts: Accounts) -> AdminId {
    choose|id: AdminId| is_placeholder(accounts, id)
}

/// Another account than `id` has this username.
pub open spec fn taken_by_another(accounts: Accounts, id: AdminId, username: Seq<char>) -> bool {
    exists|other: AdminId| #[trigger]
        accounts.contains_key(other) && other != id && accounts[other].username == username
}

/// Alphabetical by username.
pub open spec fn alphabetical(admins: Seq<ConsoleAdmin>) -> bool {
    forall|i: int, j: int|
        0 <= i < j < admins.len() ==> text::precedes(
            (#[trigger] admins[i]).username@,
            (#[trigger] admins[j]).username@,
        )
}

pub open spec fn lists_id(admins: Seq<ConsoleAdmin>, id: AdminId) -> bool {
    exists|i: int| 0 <= i < admins.len() && (#[trigger] admins[i]).id == id
}

/// `record` is an account set up at `now` with this username and password.
pub open spec fn is_new_record(
    record: AdminRecord,
    username: Seq<char>,
    password: Seq<char>,
    is_superadmin: bool,
    now: Moment,
) -> bool {
    &&& record.username == username
    &&& is_fresh_hash(password, record.password_hash)
    &&& record.is_superadmin == is_superadmin
    &&& record.created_at == now
    &&& record.updated_at == now
}

/// `hash` is a hash of `password` under some salt, and accepts it.
pub open spec fn is_fresh_hash(password: Seq<char>, hash: Seq<char>) -> bool {
    &&& hash.len() > 0
    &&& password_hash::is_hash_of(password, hash)
    &&& password_hash::accepts(password, hash)
}

/// In `after`, the account `id`, which has the smallest id, has become the configured
/// one, with its rights and the time of its making kept; all others are as before.
pub open spec fn fills_in(
    before: Accounts,
    after: Accounts,
    id: AdminId,
    cfg: AppConfig,
    now: Moment,
) -> bool {
    &&& before.contains_key(id)
    &&& forall|other: AdminId| #[trigger] before.contains_key(other) ==> id@ <= other@
    &&& forall|other: AdminId| #[trigger] after.contains_key(other) <==> before.contains_key(other)
    &&& forall|other: AdminId| #[trigger]
        before.contains_key(other) && other != id ==> after[other] == before[other]
    &&& after[id].username == cfg.username@
    &&& after[id].password_hash.len() > 0
    &&& password_hash::argon2_accepts(cfg.password@, after[id].password_hash)
    &&& after[id].is_superadmin == before[id].is_superadmin
    &&& after[id].created_at == before[id].created_at
    &&& after[id].updated_at == now
}

impl ConsoleAdminService {
    /// Hashes a password with a salt of its own.
    pub fn hash_password(plaintext: &str) -> (r: Result<String, ConsoleAdminError>)
        ensures
            r is Ok <==> password_hash::can_hash(plaintext@),
            match r {
                Ok(hash) => is_fresh_hash(plaintext@, hash@),
                Err(ConsoleAdminError::Hash(error)) => password_hash::is_hash_error_of(
                    plaintext@,
                    error@,
                ),
                Err(ConsoleAdminError::Sqlx(_)) => false,
            },
    {
        match password_hash::hash_password(plaintext) {
            Ok(hash) => Ok(hash),
            Err(error) => Err(ConsoleAdminError::Hash(error)),
        }
    }

    /// The accounts that `rows` record, unless two of them share an id or a username.
    pub fn from_rows(rows: Vec<ConsoleAdmin>) -> (r: Option<ConsoleAdminService>)
        ensures
            r is Some <==> table::unique(pairs(rows@)) && usernames_unique(
                table::as_map(pairs(rows@)),
            ),
            r matches Some(service) ==> service.wf() && service@ == table::as_map(pairs(rows@)),
            r is Some <==> forall|i: int, j: int|
                0 <= i < j < rows@.len() ==> (#[trigger] rows@[i]).id != (#[trigger] rows@[j]).id
                    && rows@[i].username@ != rows@[j].username@,
            r matches Some(service) ==> (forall|i: int|
                0 <= i < rows@.len() ==> service@.contains_key((#[trigger] rows@[i]).id)
                    && service@[rows@[i].id] == rows@[i]@) && (forall|id: AdminId| #[trigger]
                service@.contains_key(id) ==> exists|i: int|
                    0 <= i < rows@.len() && (#[trigger] rows@[i]).id == id),
    {
        proof {
            rows_are_accounts(rows@);
        }
        let mut service = ConsoleAdminService { admins: Vec::new() };
        let mut i: usize = 0;
        while i < rows.len()
            invariant
                i <= rows@.len(),
                service.wf(),
                service.admins@ == rows@.take(i as int),
            decreases rows@.len() - i,
        {
            let row = rows[i].clone();
            match service.position_of_id(row.id) {
                Some(k) => {
                    assert(pairs(rows@)[k as int].0 == pairs(rows@)[i as int].0);
                    return None;
                },
                None => {},
            }
            match service.position_of_username(row.username.as_str()) {
                Some(k) => {
                    proof {
                        if table::unique(pairs(rows@)) {
                            table::map_at(pairs(rows@), k as int);
                            table::map_at(pairs(rows@), i as int);
                            assert(pairs(rows@)[k as int].0 != pairs(rows@)[i as int].0);
                            let all = table::as_map(pairs(rows@));
                            assert(all[rows@[k as int].id].username
                                == all[rows@[i as int].id].username);
                        }
                    }
                    return None;
                },
                None => {},
            }
            let ghost before = service.admins@;
            service.admins.push(row);
            proof {
                table::map_push(pairs(before), row.id, row@);
                assert(pairs(service.admins@) =~= pairs(before).push((row.id, row@)));
                assert(service.admins@ =~= rows@.take(i + 1));
            }
            i = i + 1;
        }
        assert(rows@.take(i as int) =~= rows@);
        Some(service)
    }

    /// Sets up an account. Fails when the password cannot be hashed, when the
    /// username is taken, or when no id is left; nothing changes then. The account
    /// gets an id that is not in use.
    pub fn create_admin(
        &mut self,
        username: &str,
        plaintext_password: &str,
        is_superadmin: bool,
        now: Moment,
    ) -> (r: Result<ConsoleAdmin, ConsoleAdminError>)
        requires
            old(self).wf(),
        ensures
            final(self).wf(),
            match r {
                Ok(admin) => {
                    &&& password_hash::can_hash(plaintext_password@)
                    &&& !is_taken(old(self)@, username@)
                    &&& !old(self)@.contains_key(admin.id)
                    &&& is_new_record(admin@, username@, plaintext_password@, is_superadmin, now)
                    &&& final(self)@ == old(self)@.insert(admin.id, admin@)
                    &&& admin.username@ == username@
                    &&& admin.is_superadmin == is_superadmin
                    &&& admin.created_at == now && admin.updated_at == now
                    &&& admin.password_hash@.len() > 0
                    &&& password_hash::argon2_accepts(plaintext_password@, admin.password_hash@)
                    &&& forall|id: AdminId| #[trigger]
                        old(self)@.contains_key(id) ==> old(self)@[id].username != username@
                },
                Err(ConsoleAdminError::Hash(error)) => {
                    &&& !password_hash::can_hash(plaintext_password@)
                    &&& password_hash::is_hash_error_of(plaintext_password@, error@)
                    &&& final(self)@ == old(self)@
                },
                Err(ConsoleAdminError::Sqlx(error)) => {
                    &&& password_hash::can_hash(plaintext_password@)
                    &&& is_taken(old(self)@, username@) || no_id_left(old(self)@)
                    &&& error.is_unique_violation() <==> is_taken(old(self)@, username@)
                    &&& final(self)@ == old(self)@
                },
            },
            ({
                &&& vstd::utf8::encode_utf8(plaintext_password@).len() <= u32::MAX
                &&& forall|id: AdminId| #[trigger]
                    old(self)@.contains_key(id) ==> old(self)@[id].username != username@
                &&& exists|id: AdminId| !#[trigger] old(self)@.contains_key(id)
            }) ==> r is Ok,
            r is Err ==> final(self)@ == old(self)@,
    {
        let password_hash = match ConsoleAdminService::hash_password(plaintext_password) {
            Ok(hash) => hash,
            Err(error) => {
                return Err(error);
            },
        };
        match self.position_of_username(username) {
            Some(i) => {
                assert(is_taken(self@, username@)) by {
                    assert(self@.contains_key(self.admins@[i as int].id));
                }
                return Err(
                    ConsoleAdminError::Sqlx(
                        StorageError::duplicate("UNIQUE constraint failed: console_admins.username"),
                    ),
                );
            },
            None => {},
        }
        let id = match self.free_id() {
            Some(id) => id,
            None => {
                return Err(
                    ConsoleAdminError::Sqlx(StorageError::other("database or disk is full")),
                );
            },
        };
        let admin = ConsoleAdmin {
            id,
            username: username.to_owned(),
            password_hash,
            is_superadmin,
            created_at: now,
            updated_at: now,
        };
        let ghost before = self.admins@;
        self.admins.push(admin.clone());
        proof {
            table::map_push(pairs(before), admin.id, admin@);
            assert(pairs(self.admins@) =~= pairs(before).push((admin.id, admin@)));
        }
        Ok(admin)
    }

    /// Gives the account `id` a new password. Returns whether there is one.
    pub fn update_password(
        &mut self,
        id: AdminId,
        new_plaintext_password: &str,
        now: Moment,
    ) -> (r: Result<bool, ConsoleAdminError>)
        requires
            old(self).wf(),
        ensures
            final(self).wf(),
            match r {
                Ok(found) => {
                    &&& password_hash::can_hash(new_plaintext_password@)
                    &&& found == old(self)@.contains_key(id)
                    &&& !found ==> final(self)@ == old(self)@
                    &&& found ==> exists|hash: Seq<char>| #[trigger]
                        is_fresh_hash(new_plaintext_password@, hash) && final(self)@ == old(
                            self,
                        )@.insert(
                            id,
                            (AdminRecord {
                                password_hash: hash,
                                updated_at: now,
                                ..old(self)@[id]
                            }),
                        )
                    &&& found ==> {
                        let record = final(self)@[id];
                        &&& record.username == old(self)@[id].username
                        &&& record.is_superadmin == old(self)@[id].is_superadmin
                        &&& record.created_at == old(self)@[id].created_at
                        &&& record.updated_at == now
                        &&& record.password_hash.len() > 0
                        &&& password_hash::argon2_accepts(
                            new_plaintext_password@,
                            record.password_hash,
                        )
                    }
                    &&& forall|other: AdminId| #[trigger]
                        final(self)@.contains_key(other) <==> old(self)@.contains_key(other)
                    &&& forall|other: AdminId| #[trigger]
                        old(self)@.contains_key(other) && other != id ==> final(self)@[other]
                            == old(self)@[other]
                },
                Err(ConsoleAdminError::Hash(error)) => {
                    &&& !password_hash::can_hash(new_plaintext_password@)
                    &&& password_hash::is_hash_error_of(new_plaintext_password@, error@)
                    &&& final(self)@ == old(self)@
                },
                Err(ConsoleAdminError::Sqlx(_)) => false,
            },
    {
        let password_hash = match ConsoleAdminService::hash_password(new_plaintext_password) {
            Ok(hash) => hash,
            Err(error) => {
                return Err(error);
            },
        };
        match self.position_of_id(id) {
            Some(i) => {
                let mut admin = self.admins[i].clone();
                assert forall|other: AdminId| #[trigger]
                    self@.contains_key(other) && self@[other].username
                        == admin.username@ implies other == admin.id by {
                    assert(self@[other].username == self@[admin.id].username);
                }
                admin.password_hash = password_hash;
                admin.updated_at = now;
                self.replace(i, admin);
                assert(is_fresh_hash(new_plaintext_password@, admin.password_hash@));
                Ok(true)
            },
            None => Ok(false),
        }
    }

    /// Makes the account `id` a superadmin or a plain admin. Returns whether
    /// there is one.
    pub fn set_superadmin(&mut self, id: AdminId, is_superadmin: bool, now: Moment) -> (r: bool)
        requires
            old(self).wf(),
        ensures
            final(self).wf(),
            r == old(self)@.contains_key(id),
            final(self)@ == (if r {
                old(self)@.insert(
                    id,
                    (AdminRecord { is_superadmin, updated_at: now, ..old(self)@[id] }),
                )
            } else {
                old(self)@
            }),
    {
        match self.position_of_id(id) {
            Some(i) => {
                let mut admin = self.admins[i].clone();
                assert forall|other: AdminId| #[trigger]
                    self@.contains_key(other) && self@[other].username
                        == admin.username@ implies other == admin.id by {
                    assert(self@[other].username == self@[admin.id].username);
                }
                admin.is_superadmin = is_superadmin;
                admin.updated_at = now;
                self.replace(i, admin);
                true
            },
            None => false,
        }
    }

    /// Removes the account `id`. Returns whether there was one.
    pub fn delete_admin(&mut self, id: AdminId) -> (r: bool)
        requires
            old(self).wf(),
        ensures
            final(self).wf(),
            r == old(self)@.contains_key(id),
            final(self)@ == old(self)@.remove(id),
    {
        match self.position_of_id(id) {
            Some(i) => {
                let ghost before = self.admins@;
                self.admins.remove(i);
                proof {
                    table::map_remove(pairs(before), i as int);
                    assert(pairs(self.admins@) =~= pairs(before).remove(i as int));
                }
                true
            },
            None => {
                assert(self@.remove(id) =~= self@);
                false
            },
        }
    }

    /// All accounts, in alphabetical order of their usernames.
    pub fn list_admins(&self) -> (r: Vec<ConsoleAdmin>)
        requires
            self.wf(),
        ensures
            alphabetical(r@),
            forall|i: int| 0 <= i < r@.len() ==> is_account(self@, #[trigger] r@[i]),
            forall|id: AdminId| #[trigger] self@.contains_key(id) ==> lists_id(r@, id),
            forall|i: int|
                0 <= i < r@.len() ==> self@.contains_key((#[trigger] r@[i]).id) && self@[r@[i].id]
                    == r@[i]@,
            forall|id: AdminId| #[trigger]
                self@.contains_key(id) ==> exists|i: int|
                    0 <= i < r@.len() && (#[trigger] r@[i]).id == id,
            forall|i: int, j: int|
                0 <= i < j < r@.len() ==> (#[trigger] r@[i]).id != (#[trigger] r@[j]).id
                    && text::precedes(r@[i].username@, r@[j].username@),
    {
        let mut sorted: Vec<ConsoleAdmin> = Vec::new();
        let mut i: usize = 0;
        while i < self.admins.len()
            invariant
                self.wf(),
                i <= self.admins@.len(),
                alphabetical(sorted@),
                forall|k: int| 0 <= k < sorted@.len() ==> is_account(self@, #[trigger] sorted@[k]),
                forall|k: int|
                    0 <= k < sorted@.len() ==> exists|j: int|
                        0 <= j < i && #[trigger] self.admins@[j] == #[trigger] sorted@[k],
                forall|j: int| 0 <= j < i ==> lists_id(sorted@, (#[trigger] self.admins@[j]).id),
            decreases self.admins@.len() - i,
        {
            let admin = self.admins[i].clone();
            proof {
                table::map_at(pairs(self.admins@), i as int);
                assert forall|k: int| 0 <= k < sorted@.len() implies (
                #[trigger] sorted@[k]).username@ != admin.username@ by {
                    let j = choose|j: int|
                        0 <= j < i && #[trigger] self.admins@[j] == sorted@[k];
                    table::map_at(pairs(self.admins@), j);
                    assert(pairs(self.admins@)[j].0 != pairs(self.admins@)[i as int].0);
                    if sorted@[k].username@ == admin.username@ {
                        assert(self@[self.admins@[j].id].username
                            == self@[self.admins@[i as int].id].username);
                    }
                }
            }
            let ghost shown = sorted@;
            insert_by_name(&mut sorted, admin);
            proof {
                let at = choose|at: int|
                    0 <= at <= shown.len() && sorted@ == #[trigger] shown.insert(at, admin);
                assert forall|k: int| 0 <= k < sorted@.len() implies is_account(
                    self@,
                    #[trigger] sorted@[k],
                ) && exists|j: int| 0 <= j < i + 1 && #[trigger] self.admins@[j] == sorted@[k] by {
                    if k < at {
                        assert(sorted@[k] == shown[k]);
                    } else if k == at {
                        assert(self.admins@[i as int] == sorted@[k]);
                    } else {
                        assert(sorted@[k] == shown[k - 1]);
                    }
                }
                assert forall|j: int| 0 <= j < i + 1 implies lists_id(
                    sorted@,
                    (#[trigger] self.admins@[j]).id,
                ) by {
                    if j == i {
                        assert(sorted@[at].id == admin.id);
                    } else {
                        assert(lists_id(shown, self.admins@[j].id));
                        let k = choose|k: int|
                            0 <= k < shown.len() && (#[trigger] shown[k]).id == self.admins@[j].id;
                        if k < at {
                            assert(sorted@[k] == shown[k]);
                        } else {
                            assert(sorted@[k + 1] == shown[k]);
                        }
                    }
                }
            }
            i = i + 1;
        }
        proof {
            assert forall|id: AdminId| #[trigger] self@.contains_key(id) implies lists_id(
                sorted@,
                id,
            ) by {
                let j = table::map_has(pairs(self.admins@), id);
                assert(self.admins@[j].id == id);
            }
            assert forall|id: AdminId| #[trigger] self@.contains_key(id) implies exists|i: int|
                0 <= i < sorted@.len() && (#[trigger] sorted@[i]).id == id by {
                assert(lists_id(sorted@, id));
            }
            assert forall|i: int, j: int| 0 <= i < j < sorted@.len() implies (
            #[trigger] sorted@[i]).id != (#[trigger] sorted@[j]).id by {
                assert(is_account(self@, sorted@[i]) && is_account(self@, sorted@[j]));
                text::precedes_is_total(sorted@[i].username@, sorted@[j].username@);
                assert(text::precedes(sorted@[i].username@, sorted@[j].username@));
                if sorted@[i].id == sorted@[j].id {
                    assert(sorted@[i]@ == sorted@[j]@);
                    assert(sorted@[i].username@ == sorted@[j].username@);
                }
            }
        }
        sorted
    }

    /// Fills in the placeholder account from the configuration, if there is one
    /// and no account has a password yet. Once the placeholder is filled in, or a
    /// real admin exists, this does nothing.
    pub fn ensure_bootstrap_admin(&mut self, cfg: &AppConfig, now: Moment) -> (r: Result<
        (),
        ConsoleAdminError,
    >)
        requires
            old(self).wf(),
        ensures
            final(self).wf(),
            (exists|id: AdminId| #[trigger]
                old(self)@.contains_key(id) && old(self)@[id].password_hash.len() > 0)
                ==> r is Ok && final(self)@ == old(self)@,
            (forall|id: AdminId| #[trigger]
                old(self)@.contains_key(id) ==> old(self)@[id].password_hash.len() > 0)
                ==> r is Ok && final(self)@ == old(self)@,
            ({
                &&& vstd::utf8::encode_utf8(cfg.password@).len() <= u32::MAX
                &&& forall|id: AdminId| #[trigger]
                    old(self)@.contains_key(id) ==> old(self)@[id].username != cfg.username@
            }) ==> r is Ok,
            r is Err ==> final(self)@ == old(self)@,
            ({
                &&& r is Ok
                &&& exists|id: AdminId| #[trigger] old(self)@.contains_key(id)
                &&& forall|id: AdminId| #[trigger]
                    old(self)@.contains_key(id) ==> old(self)@[id].password_hash.len() == 0
            }) ==> exists|id: AdminId| #[trigger]
                fills_in(old(self)@, final(self)@, id, *cfg, now),
            !has_placeholder(old(self)@) || has_real_admin(old(self)@) ==> r is Ok && final(self)@
                == old(self)@,
            has_placeholder(old(self)@) && !has_real_admin(old(self)@) ==> {
                let id = placeholder_of(old(self)@);
                &&& is_placeholder(old(self)@, id)
                &&& match r {
                    Ok(()) => {
                        &&& password_hash::can_hash(cfg.password@)
                        &&& !taken_by_another(old(self)@, id, cfg.username@)
                        &&& exists|hash: Seq<char>| #[trigger]
                            is_fresh_hash(cfg.password@, hash) && final(self)@ == old(
                                self,
                            )@.insert(
                                id,
                                (AdminRecord {
                                    username: cfg.username@,
                                    password_hash: hash,
                                    updated_at: now,
                                    ..old(self)@[id]
                                }),
                            )
                        &&& final(self)@[id].username == cfg.username@
                        &&& final(self)@[id].is_superadmin == old(self)@[id].is_superadmin
                        &&& final(self)@[id].created_at == old(self)@[id].created_at
                        &&& final(self)@[id].updated_at == now
                        &&& password_hash::argon2_accepts(
                            cfg.password@,
                            final(self)@[id].password_hash,
                        )
                    },
                    Err(ConsoleAdminError::Hash(error)) => {
                        &&& !password_hash::can_hash(cfg.password@)
                        &&& password_hash::is_hash_error_of(cfg.password@, error@)
                        &&& final(self)@ == old(self)@
                    },
                    Err(ConsoleAdminError::Sqlx(error)) => {
                        &&& password_hash::can_hash(cfg.password@)
                        &&& taken_by_another(old(self)@, id, cfg.username@)
                        &&& error.is_unique_violation()
                        &&& final(self)@ == old(self)@
                    },
                }
            },
    {
        if self.any_real_admin() {
            return Ok(());
        }
        let mut found: Option<usize> = None;
        let mut i: usize = 0;
        while i < self.admins.len()
            invariant
                self.wf(),
                i <= self.admins@.len(),
                match found {
                    Some(k) => k < i && self.admins@[k as int].password_hash@.len() == 0 && (forall|
                        j: int,
                    |
                        0 <= j < i && (#[trigger] self.admins@[j]).password_hash@.len() == 0
                            ==> self.admins@[k as int].id@ <= self.admins@[j].id@),
                    None => forall|j: int|
                        0 <= j < i ==> (#[trigger] self.admins@[j]).password_hash@.len() > 0,
                },
            decreases self.admins@.len() - i,
        {
            if self.admins[i].password_hash.as_str().is_empty() {
                found = match found {
                    Some(k) => if self.admins[i].id.as_i64() < self.admins[k].id.as_i64() {
                        Some(i)
                    } else {
                        Some(k)
                    },
                    None => Some(i),
                };
            }
            i = i + 1;
        }
        let k: usize = match found {
            Some(k) => k,
            None => {
                proof {
                    if has_placeholder(self@) {
                        let id = choose|id: AdminId| #[trigger]
                            self@.contains_key(id) && self@[id].password_hash.len() == 0;
                        let j = table::map_has(pairs(self.admins@), id);
                        assert(self.admins@[j].password_hash@.len() == 0);
                    }
                }
                return Ok(());
            },
        };
        let mut admin = self.admins[k].clone();
        proof {
            table::map_at(pairs(self.admins@), k as int);
            assert(is_placeholder(self@, admin.id)) by {
                assert forall|other: AdminId| #[trigger]
                    self@.contains_key(other) && self@[other].password_hash.len()
                        == 0 implies admin.id@ <= other@ by {
                    let j = table::map_has(pairs(self.admins@), other);
                    assert(self.admins@[j].id == other);
                }
            }
            placeholder_is_unique(self@, admin.id, placeholder_of(self@));
        }
        let password_hash = match ConsoleAdminService::hash_password(cfg.password.as_str()) {
            Ok(hash) => hash,
            Err(error) => {
                return Err(error);
            },
        };
        match self.position_of_username(cfg.username.as_str()) {
            Some(j) => {
                if self.admins[j].id != admin.id {
                    assert(taken_by_another(self@, admin.id, cfg.username@)) by {
                        assert(self@.contains_key(self.admins@[j as int].id));
                    }
                    return Err(
                        ConsoleAdminError::Sqlx(
                            StorageError::duplicate(
                                "UNIQUE constraint failed: console_admins.username",
                            ),
                        ),
                    );
                }
                assert forall|other: AdminId| #[trigger]
                    self@.contains_key(other) && self@[other].username
                        == cfg.username@ implies other == admin.id by {
                    assert(self@[other].username == self@[admin.id].username);
                }
            },
            None => {},
        }
        admin.username = cfg.username.clone();
        admin.password_hash = password_hash;
        admin.updated_at = now;
        self.replace(k, admin);
        assert(is_fresh_hash(cfg.password@, admin.password_hash@));
        proof {
            if forall|id: AdminId| #[trigger]
                old(self)@.contains_key(id) ==> old(self)@[id].password_hash.len() == 0 {
                assert(fills_in(old(self)@, self@, admin.id, *cfg, now));
            }
        }
        Ok(())
    }
}

/// Puts `admin` before the first listed one whose username comes after its own.
fn insert_by_name(admins: &mut Vec<ConsoleAdmin>, admin: ConsoleAdmin)
    requires
        alphabetical(old(admins)@),
        forall|i: int|
            0 <= i < old(admins)@.len() ==> (#[trigger] old(admins)@[i]).username@
                != admin.username@,
    ensures
        alphabetical(final(admins)@),
        exists|at: int|
            0 <= at <= old(admins)@.len() && final(admins)@ == #[trigger] old(admins)@.insert(
                at,
                admin,
            ),
{
    let ghost before = admins@;
    let mut at: usize = 0;
    while at < admins.len() && text::comes_before(
        admins[at].username.as_str(),
        admin.username.as_str(),
    )
        invariant
            admins@ == before,
            at <= before.len(),
            forall|j: int|
                0 <= j < at ==> text::precedes((#[trigger] before[j]).username@, admin.username@),
        decreases before.len() - at,
    {
        at = at + 1;
    }
    admins.insert(at, admin);
    proof {
        let after = admins@;
        assert(after == before.insert(at as int, admin));
        assert forall|i: int, j: int| 0 <= i < j < after.len() implies text::precedes(
            (#[trigger] after[i]).username@,
            (#[trigger] after[j]).username@,
        ) by {
            if i == at {
                assert(after[j] == before[j - 1]);
                text::precedes_is_total(before[at as int].username@, admin.username@);
                if j - 1 > at {
                    assert(text::precedes(before[at as int].username@, before[j - 1].username@));
                    text::precedes_is_transitive(
                        admin.username@,
                        before[at as int].username@,
                        before[j - 1].username@,
                    );
                }
            } else if j == at {
                assert(after[i] == before[i]);
            } else {
                let i0 = if i < at {
                    i
                } else {
                    i - 1
                };
                let j0 = if j < at {
                    j
                } else {
                    j - 1
                };
                assert(after[i] == before[i0] && after[j] == before[j0]);
            }
        }
    }
}

/// The credentials that an account was set up with open it, and open no other.
pub proof fn new_admin_can_log_in(
    accounts: Accounts,
    id: AdminId,
    record: AdminRecord,
    username: Seq<char>,
    password: Seq<char>,
    is_superadmin: bool,
    now: Moment,
)
    requires
        !is_taken(accounts, username),
        is_new_record(record, username, password, is_superadmin, now),
    ensures
        forall|other: AdminId|
            opens(accounts.insert(id, record), other, username, password) <==> other == id,
{
    assert forall|other: AdminId|
        opens(accounts.insert(id, record), other, username, password) implies other == id by {
        if other != id {
            assert(accounts.contains_key(other));
        }
    }
}

/// After a change of password the new one opens the account.
pub proof fn changed_password_opens(
    accounts: Accounts,
    id: AdminId,
    password: Seq<char>,
    hash: Seq<char>,
    now: Moment,
)
    requires
        accounts.contains_key(id),
        is_fresh_hash(password, hash),
    ensures
        opens(
            accounts.insert(
                id,
                AdminRecord { password_hash: hash, updated_at: now, ..accounts[id] },
            ),
            id,
            accounts[id].username,
            password,
        ),
{
}

/// No two accounts share a username.
pub proof fn usernames_are_unique(service: ConsoleAdminService)
    requires
        service.wf(),
    ensures
        usernames_unique(service@),
        forall|a: AdminId, b: AdminId|
            service@.contains_key(a) && service@.contains_key(b) && a != b
                ==> #[trigger] service@[a].username != #[trigger] service@[b].username,
{
}

/// No credentials open a placeholder account.
pub proof fn placeholder_opens_to_nobody(
    accounts: Accounts,
    id: AdminId,
    username: Seq<char>,
    password: Seq<char>,
)
    requires
        accounts[id].password_hash.len() == 0,
    ensures
        !opens(accounts, id, username, password),
{
}

/// Filling in the placeholder leaves every other account as it was, neither adds
/// nor removes one, and makes it a real admin's, so that later starts fill in
/// nothing.
pub proof fn bootstrap_happens_once(accounts: Accounts, filled: AdminRecord)
    requires
        has_placeholder(accounts),
        is_placeholder(accounts, placeholder_of(accounts)),
        filled.password_hash.len() > 0,
    ensures
        ({
            let after = accounts.insert(placeholder_of(accounts), filled);
            &&& after.dom() == accounts.dom()
            &&& forall|id: AdminId| #[trigger]
                accounts.contains_key(id) && id != placeholder_of(accounts) ==> after[id]
                    == accounts[id]
            &&& has_real_admin(after)
        }),
{
    let after = accounts.insert(placeholder_of(accounts), filled);
    assert(after.dom() =~= accounts.dom());
    assert(after.contains_key(placeholder_of(accounts)));
}

/// The credentials that open an account are its username, letter for letter, and a
/// password that Argon2 accepts for its hash; a placeholder has no hash.
pub proof fn opening_takes_the_right_credentials(
    accounts: Accounts,
    id: AdminId,
    username: Seq<char>,
    password: Seq<char>,
)
    ensures
        opens(accounts, id, username, password) ==> {
            &&& accounts.contains_key(id)
            &&& accounts[id].username == username
            &&& accounts[id].password_hash.len() > 0
            &&& password_hash::argon2_accepts(password, accounts[id].password_hash)
        },
        accounts.contains_key(id) && accounts[id].username == username
            && accounts[id].password_hash.len() > 0 && !password_hash::asks_too_many_lanes(
            accounts[id].password_hash,
        ) && password_hash::argon2_accepts(password, accounts[id].password_hash) ==> opens(
            accounts,
            id,
            username,
            password,
        ),
{
}

/// The placeholder that is filled in has an empty hash and the smallest id of those
/// that do; where some account has an empty hash there is one.
pub proof fn placeholder_has_the_smallest_id(accounts: Accounts, some: AdminId)
    requires
        exists|id: AdminId| is_placeholder(accounts, id),
        accounts.contains_key(some),
        accounts[some].password_hash.len() == 0,
    ensures
        accounts.contains_key(placeholder_of(accounts)),
        accounts[placeholder_of(accounts)].password_hash.len() == 0,
        placeholder_of(accounts)@ <= some@,
{
}

proof fn rows_are_accounts(rows: Seq<ConsoleAdmin>)
    ensures
        table::unique(pairs(rows)) && usernames_unique(table::as_map(pairs(rows))) <==> forall|
            i: int,
            j: int,
        |
            0 <= i < j < rows.len() ==> (#[trigger] rows[i]).id != (#[trigger] rows[j]).id
                && rows[i].username@ != rows[j].username@,
        table::unique(pairs(rows)) ==> (forall|i: int|
            0 <= i < rows.len() ==> table::as_map(pairs(rows)).contains_key(
                (#[trigger] rows[i]).id,
            ) && table::as_map(pairs(rows))[rows[i].id] == rows[i]@) && (forall|id: AdminId|
            #[trigger]
            table::as_map(pairs(rows)).contains_key(id) ==> exists|i: int|
                0 <= i < rows.len() && (#[trigger] rows[i]).id == id),
{
    let all = table::as_map(pairs(rows));
    if table::unique(pairs(rows)) {
        assert forall|i: int| 0 <= i < rows.len() implies all.contains_key((#[trigger] rows[i]).id)
            && all[rows[i].id] == rows[i]@ by {
            table::map_at(pairs(rows), i);
        }
        assert forall|id: AdminId| #[trigger] all.contains_key(id) implies exists|i: int|
            0 <= i < rows.len() && (#[trigger] rows[i]).id == id by {
            let i = table::map_has(pairs(rows), id);
            assert(rows[i].id == id);
        }
        if usernames_unique(all) {
            assert forall|i: int, j: int| 0 <= i < j < rows.len() implies (#[trigger] rows[i]).id
                != (#[trigger] rows[j]).id && rows[i].username@ != rows[j].username@ by {
                assert(pairs(rows)[i].0 != pairs(rows)[j].0);
                if rows[i].username@ == rows[j].username@ {
                    assert(all[rows[i].id].username == all[rows[j].id].username);
                }
            }
        }
    }
    if forall|i: int, j: int|
        0 <= i < j < rows.len() ==> (#[trigger] rows[i]).id != (#[trigger] rows[j]).id
            && rows[i].username@ != rows[j].username@ {
        assert forall|i: int, j: int| 0 <= i < j < pairs(rows).len() implies (
        #[trigger] pairs(rows)[i]).0 != (#[trigger] pairs(rows)[j]).0 by {
            assert(rows[i].id != rows[j].id);
        }
        assert forall|a: AdminId, b: AdminId|
            all.contains_key(a) && all.contains_key(b) && #[trigger] all[a].username
                == #[trigger] all[b].username implies a == b by {
            let i = table::map_has(pairs(rows), a);
            let j = table::map_has(pairs(rows), b);
            assert(rows[i].id == a && rows[j].id == b);
            assert(rows[i].username@ == rows[j].username@);
            if i < j {
                assert(rows[i].username@ != rows[j].username@);
            } else if j < i {
                assert(rows[j].username@ != rows[i].username@);
            }
        }
    }
}

} // verus!
