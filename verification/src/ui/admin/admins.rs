//! Managing the accounts of console admins, which is for superadmins only.

use vstd::prelude::*;

use crate::admin_id::AdminId;
use crate::console_admin_service::{self, ConsoleAdmin, ConsoleAdminError};
use crate::encryption::Password;
use crate::status::StatusCode;
use crate::storage::StorageError;
use crate::text;
use crate::ui::admin::reply::{Message, Reply};

verus! {

pub struct AdminsPageTemplate {
    pub ui_route: String,
}

pub struct AdminListTemplate {
    pub admins: Vec<ConsoleAdmin>,
    pub ui_route: String,
}

pub struct AddAdminForm {
    pub username: String,
    pub password: Password,
    pub is_superadmin: bool,
}

pub struct UpdatePasswordForm {
    pub password: Password,
}

/// How a request about console admins is answered.
pub enum AdminReply {
    Now(Reply),
    /// Show the list of console admins.
    List,
}

impl AddAdminForm {
    /// The username under which the account is created.
    pub fn trimmed_username(&self) -> (r: String)
        ensures
            r@ == text::trimmed(self.username@),
    {
        text::trim(self.username.as_str())
    }
}

/// A password of fewer than eight bytes.
pub open spec fn is_too_short(password: Seq<char>) -> bool {
    vstd::utf8::encode_utf8(password).len() < 8
}

fn too_short(password: &Password) -> (r: bool)
    ensures
        r == is_too_short(password@),
{
    text::byte_len(password.as_str()) < 8
}

pub open spec fn alert(status: StatusCode, message: Message) -> AdminReply {
    AdminReply::Now(Reply::Alert(status, message))
}

fn warn(status: StatusCode, message: Message) -> (r: AdminReply)
    ensures
        r == alert(status, message),
{
    AdminReply::Now(Reply::Alert(status, message))
}

pub open spec fn database_error() -> AdminReply {
    AdminReply::Now(Reply::Text(StatusCode::InternalServerError, Message::DatabaseError))
}

fn report_database_error() -> (r: AdminReply)
    ensures
        r == database_error(),
{
    AdminReply::Now(Reply::Text(StatusCode::InternalServerError, Message::DatabaseError))
}

/// Adding a console admin.
pub enum AddAdmin {
    /// Create the account under its trimmed username.
    Create(AddAdminForm),
    Done(AdminReply),
}

/// Starts adding a console admin, if there is a username and the password is
/// long enough.
pub fn add_admin(form: AddAdminForm) -> (r: AddAdmin)
    ensures
        r == (if text::trimmed(form.username@).len() == 0 {
            AddAdmin::Done(alert(StatusCode::BadRequest, Message::UsernameEmpty))
        } else if is_too_short(form.password@) {
            AddAdmin::Done(alert(StatusCode::BadRequest, Message::PasswordTooShort))
        } else {
            AddAdmin::Create(form)
        }),
        ({
            let unnamed = forall|i: int|
                0 <= i < form.username@.len() ==> text::is_white(#[trigger] form.username@[i]);
            let short = vstd::utf8::encode_utf8(form.password@).len() < 8;
            let complaint = |message: Message|
                AddAdmin::Done(AdminReply::Now(Reply::Alert(StatusCode::BadRequest, message)));
            &&& unnamed ==> r == complaint(Message::UsernameEmpty)
            &&& !unnamed && short ==> r == complaint(Message::PasswordTooShort)
            &&& !unnamed && !short ==> r == AddAdmin::Create(form)
        }),
{
    proof {
        text::trimming_takes_white_space_only(form.username@);
    }
    if form.trimmed_username().as_str().is_empty() {
        AddAdmin::Done(warn(StatusCode::BadRequest, Message::UsernameEmpty))
    } else if too_short(&form.password) {
        AddAdmin::Done(warn(StatusCode::BadRequest, Message::PasswordTooShort))
    } else {
        AddAdmin::Create(form)
    }
}

impl AddAdmin {
    /// Takes the outcome of creating the account into account.
    pub fn created(self, created: Result<ConsoleAdmin, ConsoleAdminError>) -> (r: AddAdmin)
        ensures
            r == (match (self, created) {
                (AddAdmin::Create(_), Ok(_)) => AddAdmin::Done(AdminReply::List),
                (AddAdmin::Create(_), Err(_)) => AddAdmin::Done(
                    alert(StatusCode::BadRequest, Message::AdminNotCreated),
                ),
                (AddAdmin::Done(reply), _) => AddAdmin::Done(reply),
            }),
            self is Create && created is Ok ==> r == AddAdmin::Done(AdminReply::List),
            self is Create && created is Err ==> r == AddAdmin::Done(
                AdminReply::Now(Reply::Alert(StatusCode::BadRequest, Message::AdminNotCreated)),
            ),
    {
        match (self, created) {
            (AddAdmin::Create(_), Ok(_)) => AddAdmin::Done(AdminReply::List),
            (AddAdmin::Create(_), Err(_)) => AddAdmin::Done(
                warn(StatusCode::BadRequest, Message::AdminNotCreated),
            ),
            (AddAdmin::Done(reply), _) => AddAdmin::Done(reply),
        }
    }
}

/// Resetting the password of a console admin.
pub enum UpdateAdminPassword {
    Update(AdminId, UpdatePasswordForm),
    Done(AdminReply),
}

/// Starts resetting a password, if the new one is long enough.
pub fn update_admin_password(admin_id: AdminId, form: UpdatePasswordForm) -> (r:
    UpdateAdminPassword)
    ensures
        r == (if is_too_short(form.password@) {
            UpdateAdminPassword::Done(alert(StatusCode::BadRequest, Message::PasswordTooShort))
        } else {
            UpdateAdminPassword::Update(admin_id, form)
        }),
        vstd::utf8::encode_utf8(form.password@).len() < 8 ==> r == UpdateAdminPassword::Done(
            AdminReply::Now(Reply::Alert(StatusCode::BadRequest, Message::PasswordTooShort)),
        ),
        vstd::utf8::encode_utf8(form.password@).len() >= 8 ==> r == UpdateAdminPassword::Update(
            admin_id,
            form,
        ),
{
    if too_short(&form.password) {
        UpdateAdminPassword::Done(warn(StatusCode::BadRequest, Message::PasswordTooShort))
    } else {
        UpdateAdminPassword::Update(admin_id, form)
    }
}

impl UpdateAdminPassword {
    /// Takes into account whether there was an account to update.
    pub fn updated(self, updated: Result<bool, ConsoleAdminError>) -> (r: UpdateAdminPassword)
        ensures
            r == (match (self, updated) {
                (UpdateAdminPassword::Update(_, _), Ok(true)) => UpdateAdminPassword::Done(
                    AdminReply::List,
                ),
                (UpdateAdminPassword::Update(_, _), Ok(false)) => UpdateAdminPassword::Done(
                    alert(StatusCode::NotFound, Message::AdminNotFound),
                ),
                (UpdateAdminPassword::Update(_, _), Err(_)) => UpdateAdminPassword::Done(
                    database_error(),
                ),
                (UpdateAdminPassword::Done(reply), _) => UpdateAdminPassword::Done(reply),
            }),
            self is Update && (updated matches Ok(false)) ==> r == UpdateAdminPassword::Done(
                AdminReply::Now(Reply::Alert(StatusCode::NotFound, Message::AdminNotFound)),
            ),
            self is Update && updated is Err ==> r == UpdateAdminPassword::Done(
                AdminReply::Now(
                    Reply::Text(StatusCode::InternalServerError, Message::DatabaseError),
                ),
            ),
    {
        match (self, updated) {
            (UpdateAdminPassword::Update(_, _), Ok(true)) => UpdateAdminPassword::Done(
                AdminReply::List,
            ),
            (UpdateAdminPassword::Update(_, _), Ok(false)) => UpdateAdminPassword::Done(
                warn(StatusCode::NotFound, Message::AdminNotFound),
            ),
            (UpdateAdminPassword::Update(_, _), Err(_)) => UpdateAdminPassword::Done(
                report_database_error(),
            ),
            (UpdateAdminPassword::Done(reply), _) => UpdateAdminPassword::Done(reply),
        }
    }
}

/// Deleting a console admin.
pub enum DeleteAdmin {
    ListAdmins(AdminId),
    Delete(AdminId),
    Done(AdminReply),
}

/// The outcome of a step of deleting a console admin.
pub enum DeleteAdminEvent {
    Admins(Result<Vec<ConsoleAdmin>, StorageError>),
    /// Whether there was an account to delete.
    Deleted(Result<bool, StorageError>),
}

/// Starts deleting a console admin.
pub fn delete_admin(admin_id: AdminId) -> (r: DeleteAdmin)
    ensures
        r == DeleteAdmin::ListAdmins(admin_id),
{
    DeleteAdmin::ListAdmins(admin_id)
}

/// The first account with this id.
pub open spec fn account_of(admins: Seq<ConsoleAdmin>, id: AdminId) -> Option<ConsoleAdmin>
    decreases admins.len(),
{
    if admins.len() == 0 {
        None
    } else if admins[0].id == id {
        Some(admins[0])
    } else {
        account_of(admins.skip(1), id)
    }
}

/// How many of the accounts are superadmins'.
pub open spec fn superadmins(admins: Seq<ConsoleAdmin>) -> nat
    decreases admins.len(),
{
    if admins.len() == 0 {
        0
    } else {
        superadmins(admins.drop_last()) + (if admins.last().is_superadmin {
            1nat
        } else {
            0nat
        })
    }
}

/// Why an account may not be deleted: it is not there, or it is that of the only
/// superadmin.
pub open spec fn deletion_refused(admins: Seq<ConsoleAdmin>, id: AdminId) -> Option<AdminReply> {
    match account_of(admins, id) {
        None => Some(alert(StatusCode::NotFound, Message::AdminNotFound)),
        Some(target) => if target.is_superadmin && superadmins(admins) <= 1 {
            Some(alert(StatusCode::BadRequest, Message::LastSuperadmin))
        } else {
            None
        },
    }
}

fn find_account(admins: &Vec<ConsoleAdmin>, id: AdminId) -> (r: Option<usize>)
    ensures
        match r {
            Some(i) => i < admins@.len() && account_of(admins@, id) == Some(admins@[i as int]),
            None => account_of(admins@, id) is None,
        },
{
    let n: usize = admins.len();
    let mut i: usize = 0;
    assert(admins@.skip(0) =~= admins@);
    while i < n
        invariant
            n == admins@.len(),
            i <= n,
            account_of(admins@, id) == account_of(admins@.skip(i as int), id),
        decreases n - i,
    {
        assert(admins@.skip(i as int)[0] == admins@[i as int]);
        if admins[i].id == id {
            return Some(i);
        }
        assert(admins@.skip(i as int).skip(1) =~= admins@.skip(i + 1));
        i = i + 1;
    }
    None
}

fn count_superadmins(admins: &Vec<ConsoleAdmin>) -> (r: usize)
    ensures
        r == superadmins(admins@),
{
    let n: usize = admins.len();
    let mut count: usize = 0;
    let mut i: usize = 0;
    while i < n
        invariant
            n == admins@.len(),
            i <= n,
            count <= i,
            count == superadmins(admins@.take(i as int)),
        decreases n - i,
    {
        assert(admins@.take(i + 1).drop_last() =~= admins@.take(i as int));
        if admins[i].is_superadmin {
            count = count + 1;
        }
        i = i + 1;
    }
    assert(admins@.take(n as int) =~= admins@);
    count
}

fn refuse_deletion(admins: &Vec<ConsoleAdmin>, id: AdminId) -> (r: Option<AdminReply>)
    ensures
        r == deletion_refused(admins@, id),
{
    match find_account(admins, id) {
        None => Some(warn(StatusCode::NotFound, Message::AdminNotFound)),
        Some(i) => if admins[i].is_superadmin && count_superadmins(admins) <= 1 {
            Some(warn(StatusCode::BadRequest, Message::LastSuperadmin))
        } else {
            None
        },
    }
}

pub open spec fn delete_admin_step(deletion: DeleteAdmin, event: DeleteAdminEvent) -> DeleteAdmin {
    match (deletion, event) {
        (DeleteAdmin::ListAdmins(id), DeleteAdminEvent::Admins(listed)) => match listed {
            Ok(admins) => match deletion_refused(admins@, id) {
                Some(reply) => DeleteAdmin::Done(reply),
                None => DeleteAdmin::Delete(id),
            },
            Err(_) => DeleteAdmin::Done(database_error()),
        },
        (DeleteAdmin::Delete(_), DeleteAdminEvent::Deleted(deleted)) => match deleted {
            Ok(true) => DeleteAdmin::Done(AdminReply::List),
            Ok(false) => DeleteAdmin::Done(alert(StatusCode::NotFound, Message::AdminNotFound)),
            Err(_) => DeleteAdmin::Done(database_error()),
        },
        _ => deletion,
    }
}

impl DeleteAdmin {
    /// Takes the outcome of the pending work into account.
    pub fn advance(self, event: DeleteAdminEvent) -> (r: DeleteAdmin)
        ensures
            r == delete_admin_step(self, event),
    {
        match (self, event) {
            (DeleteAdmin::ListAdmins(id), DeleteAdminEvent::Admins(listed)) => match listed {
                Ok(admins) => match refuse_deletion(&admins, id) {
                    Some(reply) => DeleteAdmin::Done(reply),
                    None => DeleteAdmin::Delete(id),
                },
                Err(_) => DeleteAdmin::Done(report_database_error()),
            },
            (DeleteAdmin::Delete(_), DeleteAdminEvent::Deleted(deleted)) => match deleted {
                Ok(true) => DeleteAdmin::Done(AdminReply::List),
                Ok(false) => DeleteAdmin::Done(warn(StatusCode::NotFound, Message::AdminNotFound)),
                Err(_) => DeleteAdmin::Done(report_database_error()),
            },
            (deletion, _) => deletion,
        }
    }
}

/// Some account is a superadmin's.
pub open spec fn has_superadmin(accounts: console_admin_service::Accounts) -> bool {
    exists|id: AdminId| #[trigger] accounts.contains_key(id) && accounts[id].is_superadmin
}

/// Some account is a superadmin's and has a password.
pub open spec fn has_usable_superadmin(accounts: console_admin_service::Accounts) -> bool {
    exists|id: AdminId| #[trigger]
        accounts.contains_key(id) && accounts[id].is_superadmin
            && accounts[id].password_hash.len() > 0
}

/// No superadmin's account is still a placeholder.
pub open spec fn superadmins_have_passwords(accounts: console_admin_service::Accounts) -> bool {
    forall|id: AdminId| #[trigger]
        accounts.contains_key(id) && accounts[id].is_superadmin ==> accounts[id].password_hash.len()
            > 0
}

proof fn account_is_listed(admins: Seq<ConsoleAdmin>, id: AdminId)
    ensures
        account_of(admins, id) matches Some(admin) ==> admin.id == id && admins.contains(admin),
        account_of(admins, id) is None ==> !console_admin_service::lists_id(admins, id),
    decreases admins.len(),
{
    if admins.len() > 0 && admins[0].id != id {
        let rest = admins.skip(1);
        account_is_listed(rest, id);
        if let Some(admin) = account_of(rest, id) {
            let i = choose|i: int| 0 <= i < rest.len() && rest[i] == admin;
            assert(admins[i + 1] == admin);
        } else if console_admin_service::lists_id(admins, id) {
            let i = choose|i: int| 0 <= i < admins.len() && (#[trigger] admins[i]).id == id;
            assert(rest[i - 1].id == id);
        }
    }
}

/// Another superadmin than the account at `at`.
proof fn another_superadmin(admins: Seq<ConsoleAdmin>, at: int) -> (other: int)
    requires
        0 <= at,
        superadmins(admins) >= 2 || (superadmins(admins) >= 1 && at >= admins.len()),
    ensures
        0 <= other < admins.len(),
        other != at,
        admins[other].is_superadmin,
    decreases admins.len(),
{
    let last = admins.len() - 1;
    if admins.last().is_superadmin && at != last {
        last
    } else {
        another_superadmin(admins.drop_last(), at)
    }
}

/// Deleting an account, where that is not refused, leaves a superadmin if there
/// was one. Where no superadmin's account was a placeholder, it leaves one with a
/// password, so that somebody can still manage the accounts.
pub proof fn a_superadmin_remains(
    accounts: console_admin_service::Accounts,
    admins: Seq<ConsoleAdmin>,
    id: AdminId,
)
    requires
        console_admin_service::alphabetical(admins),
        forall|i: int|
            0 <= i < admins.len() ==> console_admin_service::is_account(
                accounts,
                #[trigger] admins[i],
            ),
        forall|known: AdminId| #[trigger]
            accounts.contains_key(known) ==> console_admin_service::lists_id(admins, known),
        has_superadmin(accounts),
        deletion_refused(admins, id) is None,
    ensures
        has_superadmin(accounts.remove(id)),
        superadmins_have_passwords(accounts) ==> has_usable_superadmin(accounts.remove(id)),
{
    account_is_listed(admins, id);
    let target = account_of(admins, id)->Some_0;
    let at = choose|at: int| 0 <= at < admins.len() && admins[at] == target;
    assert(console_admin_service::is_account(accounts, admins[at]));
    if target.is_superadmin {
        let other = another_superadmin(admins, at);
        assert(console_admin_service::is_account(accounts, admins[other]));
        if admins[other].id == id {
            assert(admins[other]@ == admins[at]@);
            assert(admins[other].username@ == admins[at].username@);
            text::precedes_is_total(admins[at].username@, admins[at].username@);
            if other < at {
                assert(text::precedes(admins[other].username@, admins[at].username@));
            } else {
                assert(text::precedes(admins[at].username@, admins[other].username@));
            }
        }
        assert(accounts.remove(id).contains_key(admins[other].id));
    } else {
        let kept = choose|kept: AdminId| #[trigger]
            accounts.contains_key(kept) && accounts[kept].is_superadmin;
        assert(accounts.remove(id).contains_key(kept));
    }
}

/// The account at `at` is the first with this id.
pub open spec fn is_first_with_id(admins: Seq<ConsoleAdmin>, at: int, id: AdminId) -> bool {
    &&& 0 <= at < admins.len()
    &&& admins[at].id == id
    &&& forall|j: int| 0 <= j < at ==> (#[trigger] admins[j]).id != id
}

/// Some account other than the one at `at` is a superadmin's.
pub open spec fn another_is_superadmin(admins: Seq<ConsoleAdmin>, at: int) -> bool {
    exists|i: int| 0 <= i < admins.len() && i != at && (#[trigger] admins[i]).is_superadmin
}

proof fn first_account(admins: Seq<ConsoleAdmin>, at: int, id: AdminId)
    requires
        is_first_with_id(admins, at, id),
    ensures
        account_of(admins, id) == Some(admins[at]),
    decreases admins.len(),
{
    if at > 0 {
        let rest = admins.skip(1);
        assert(admins[0].id != id);
        assert forall|j: int| 0 <= j < at - 1 implies (#[trigger] rest[j]).id != id by {
            assert(rest[j] == admins[j + 1]);
        }
        first_account(rest, at - 1, id);
    }
}

proof fn only_superadmin(admins: Seq<ConsoleAdmin>, at: int)
    requires
        0 <= at,
        !another_is_superadmin(admins, at),
    ensures
        superadmins(admins) <= 1,
        at >= admins.len() ==> superadmins(admins) == 0,
    decreases admins.len(),
{
    if admins.len() > 0 {
        let front = admins.drop_last();
        let last = admins.len() - 1;
        assert(!another_is_superadmin(front, at)) by {
            if another_is_superadmin(front, at) {
                let i = choose|i: int|
                    0 <= i < front.len() && i != at && (#[trigger] front[i]).is_superadmin;
                assert(admins[i].is_superadmin);
            }
        }
        only_superadmin(front, at);
        if last != at {
            assert(!admins[last].is_superadmin);
        }
    }
}

/// An account may be deleted exactly when it is there and is not that of the only
/// superadmin; the two refusals are told apart. The superadmins are counted one by
/// one.
pub proof fn deletion_is_refused_only_for_the_last_superadmin(
    admins: Seq<ConsoleAdmin>,
    at: int,
    id: AdminId,
)
    ensures
        (forall|j: int| 0 <= j < admins.len() ==> (#[trigger] admins[j]).id != id)
            ==> deletion_refused(admins, id) == Some(
            AdminReply::Now(Reply::Alert(StatusCode::NotFound, Message::AdminNotFound)),
        ),
        is_first_with_id(admins, at, id) ==> {
            &&& admins[at].is_superadmin && !another_is_superadmin(admins, at) ==> deletion_refused(
                admins,
                id,
            ) == Some(
                AdminReply::Now(Reply::Alert(StatusCode::BadRequest, Message::LastSuperadmin)),
            )
            &&& !admins[at].is_superadmin || another_is_superadmin(admins, at) ==> deletion_refused(
                admins,
                id,
            ) is None
        },
        superadmins(admins) == admins.filter(|a: ConsoleAdmin| a.is_superadmin).len(),
{
    superadmins_are_filtered(admins);
    account_is_listed(admins, id);
    if forall|j: int| 0 <= j < admins.len() ==> (#[trigger] admins[j]).id != id {
        if let Some(admin) = account_of(admins, id) {
            let j = choose|j: int| 0 <= j < admins.len() && admins[j] == admin;
            assert(admins[j].id != id);
        }
    }
    if is_first_with_id(admins, at, id) {
        first_account(admins, at, id);
        if another_is_superadmin(admins, at) {
            if admins[at].is_superadmin {
                let i = choose|i: int|
                    0 <= i < admins.len() && i != at && (#[trigger] admins[i]).is_superadmin;
                if i < at {
                    two_superadmins(admins, i, at);
                } else {
                    two_superadmins(admins, at, i);
                }
            }
        } else {
            only_superadmin(admins, at);
        }
    }
}

proof fn superadmins_are_filtered(admins: Seq<ConsoleAdmin>)
    ensures
        superadmins(admins) == admins.filter(|a: ConsoleAdmin| a.is_superadmin).len(),
    decreases admins.len(),
{
    reveal(Seq::filter);
    if admins.len() > 0 {
        superadmins_are_filtered(admins.drop_last());
    }
}

proof fn a_superadmin_counts(admins: Seq<ConsoleAdmin>, i: int)
    requires
        0 <= i < admins.len(),
        admins[i].is_superadmin,
    ensures
        superadmins(admins) >= 1,
    decreases admins.len(),
{
    if i < admins.len() - 1 {
        a_superadmin_counts(admins.drop_last(), i);
    }
}

proof fn two_superadmins(admins: Seq<ConsoleAdmin>, i: int, j: int)
    requires
        0 <= i < j < admins.len(),
        admins[i].is_superadmin,
        admins[j].is_superadmin,
    ensures
        superadmins(admins) >= 2,
    decreases admins.len(),
{
    if j < admins.len() - 1 {
        two_superadmins(admins.drop_last(), i, j);
    } else {
        a_superadmin_counts(admins.drop_last(), i);
    }
}

pub open spec fn delete_admin_run(deletion: DeleteAdmin, events: Seq<DeleteAdminEvent>) -> DeleteAdmin
    decreases events.len(),
{
    if events.len() == 0 {
        deletion
    } else {
        delete_admin_step(delete_admin_run(deletion, events.drop_last()), events.last())
    }
}

/// Whatever happens in the course of deleting a console admin, it is that account
/// that is deleted, and the list is shown only after it was.
pub proof fn admin_deleted_before_listed(id: AdminId, events: Seq<DeleteAdminEvent>)
    ensures
        match delete_admin_run(DeleteAdmin::ListAdmins(id), events) {
            DeleteAdmin::ListAdmins(target) => target == id,
            DeleteAdmin::Delete(target) => target == id,
            DeleteAdmin::Done(AdminReply::List) => events.contains(
                DeleteAdminEvent::Deleted(Ok(true)),
            ),
            DeleteAdmin::Done(reply) => reply is Now,
        },
    decreases events.len(),
{
    if events.len() > 0 {
        let before = events.drop_last();
        admin_deleted_before_listed(id, before);
        assert(events[events.len() - 1] == events.last());
        assert forall|e: DeleteAdminEvent| #[trigger] before.contains(e) implies events.contains(
            e,
        ) by {
            let i = choose|i: int| 0 <= i < before.len() && #[trigger] before[i] == e;
            assert(events[i] == e);
        }
    }
}

/// Deleting a console admin goes on from the list to the deletion, if that is not
/// refused, and from there to the list; what goes wrong is answered as such, and an
/// event that does not answer the pending work changes nothing.
pub proof fn admin_deletion_takes_its_course(
    id: AdminId,
    admins: Vec<ConsoleAdmin>,
    error: StorageError,
    deletion: DeleteAdmin,
    event: DeleteAdminEvent,
)
    ensures
        ({
            let listed = delete_admin_step(
                DeleteAdmin::ListAdmins(id),
                DeleteAdminEvent::Admins(Ok(admins)),
            );
            let database = DeleteAdmin::Done(
                AdminReply::Now(
                    Reply::Text(StatusCode::InternalServerError, Message::DatabaseError),
                ),
            );
            &&& deletion_refused(admins@, id) is None ==> listed == DeleteAdmin::Delete(id)
            &&& deletion_refused(admins@, id) matches Some(reply) ==> listed == DeleteAdmin::Done(
                reply,
            )
            &&& delete_admin_step(
                DeleteAdmin::ListAdmins(id),
                DeleteAdminEvent::Admins(Err(error)),
            ) == database
            &&& delete_admin_step(DeleteAdmin::Delete(id), DeleteAdminEvent::Deleted(Ok(true)))
                == DeleteAdmin::Done(AdminReply::List)
            &&& delete_admin_step(DeleteAdmin::Delete(id), DeleteAdminEvent::Deleted(Ok(false)))
                == DeleteAdmin::Done(
                AdminReply::Now(Reply::Alert(StatusCode::NotFound, Message::AdminNotFound)),
            )
            &&& delete_admin_step(DeleteAdmin::Delete(id), DeleteAdminEvent::Deleted(Err(error)))
                == database
        }),
        delete_admin_step(deletion, event) == deletion || {
            ||| deletion is ListAdmins && event is Admins
            ||| deletion is Delete && event is Deleted
        },
{
}

} // verus!
