use jellyswarrm_proxy::admin_id::AdminId;
use jellyswarrm_proxy::console_admin_service::{ConsoleAdmin, ConsoleAdminError, ConsoleAdminService};
use jellyswarrm_proxy::encryption::Password;
use jellyswarrm_proxy::moment::Moment;
use jellyswarrm_proxy::server::{MediaStreamingMode, Server, ServerId};
use jellyswarrm_proxy::status::StatusCode;
use jellyswarrm_proxy::storage::{DatabaseFault, StorageError};
use jellyswarrm_proxy::ui::admin::admins::{
    add_admin, delete_admin, update_admin_password, AddAdmin, AddAdminForm, AdminReply, DeleteAdmin,
    DeleteAdminEvent, UpdateAdminPassword, UpdatePasswordForm,
};
use jellyswarrm_proxy::ui::admin::ownership::CurrentAdmin;
use jellyswarrm_proxy::ui::admin::popup::with_popup;
use jellyswarrm_proxy::ui::admin::reply::{loaded, page, partial, Message, Reply};
use jellyswarrm_proxy::ui::admin::servers::{
    add_server, add_server_admin, delete_server, delete_server_admin, server_to_add, swap_server_list,
    update_server_media_streaming_mode, update_server_priority, AddServer, AddServerAdmin,
    AddServerAdminEvent, AddServerAdminForm, AddServerEvent, AddServerForm, AdministratorLogin,
    ChangeServer, ChangeServerEvent, ServerEdit, ServerReply, UpdateMediaStreamingModeForm,
    UpdatePriorityForm,
};

fn now() -> Moment {
    Moment::new(1_700_000_000, 0).unwrap()
}

fn server(owner: i64) -> Server {
    Server {
        id: ServerId::new(1),
        name: "Server".to_string(),
        url: "http://server.test".to_string(),
        priority: 100,
        media_streaming_mode: MediaStreamingMode::Proxy,
        created_at: now(),
        updated_at: now(),
        owner_admin_id: Some(AdminId::new(owner)),
    }
}

fn admin(id: i64) -> CurrentAdmin {
    CurrentAdmin {
        id: AdminId::new(id),
        is_superadmin: false,
    }
}

fn broken() -> StorageError {
    StorageError::other("down")
}

fn alert(text: &str) -> String {
    format!("<div class=\"alert alert-error\">{text}</div>")
}

fn shown(reply: Reply) -> (u16, String) {
    (reply.status().as_u16(), reply.body())
}

fn server_now(reply: ServerReply) -> (u16, String) {
    match reply {
        ServerReply::Now(reply) => shown(reply),
        _ => panic!("an immediate answer was expected"),
    }
}

fn add_done(adding: AddServer) -> ServerReply {
    match adding {
        AddServer::Done(reply) => reply,
        _ => panic!("adding the server is over"),
    }
}

fn server_form(name: &str, url: &str, priority: i32) -> AddServerForm {
    AddServerForm {
        name: name.to_string(),
        url: url.to_string(),
        priority,
        media_streaming_mode: "redirect".to_string(),
    }
}

#[test]
fn server_form_is_validated_in_order() {
    let rejected = |form: AddServerForm| server_now(add_done(add_server(admin(1), form)));
    assert_eq!(rejected(server_form(" ", " ", 0)), (400, alert("Server name cannot be empty")));
    assert_eq!(rejected(server_form("a", "\n", 0)), (400, alert("Server URL cannot be empty")));
    assert_eq!(
        rejected(server_form("a", "u", 0)),
        (400, alert("Priority must be between 1 and 999"))
    );
    assert_eq!(
        rejected(server_form("a", "u", 1000)),
        (400, alert("Priority must be between 1 and 999"))
    );
    for priority in [1, 999] {
        let adding = add_server(admin(1), server_form("a", "u", priority));
        assert!(matches!(adding, AddServer::ParseMode(_, _)));
    }
    let mode = add_server(admin(1), server_form("a", "u", 1)).advance(AddServerEvent::ModeParsed(None));
    assert_eq!(server_now(add_done(mode)), (400, alert("Invalid streaming mode")));
}

#[test]
fn server_is_added_under_its_trimmed_name() {
    let form = server_form("  My Server ", "\thttp://u ", 7);
    let adding = add_server(admin(1), form)
        .advance(AddServerEvent::ModeParsed(Some(MediaStreamingMode::Redirect)));
    match &adding {
        AddServer::Insert(owner, form, MediaStreamingMode::Redirect) => {
            assert_eq!(owner.id.as_i64(), 1);
            let added = server_to_add(owner, form, MediaStreamingMode::Redirect);
            assert_eq!(added.name, "My Server");
            assert_eq!(added.url, "http://u");
            assert_eq!(added.priority, 7);
            assert_eq!(added.media_streaming_mode, MediaStreamingMode::Redirect);
            assert_eq!(added.owner_admin_id, Some(AdminId::new(1)));
        }
        _ => panic!("the form is valid"),
    }
    let added = adding.advance(AddServerEvent::Inserted(Ok(ServerId::new(3))));
    assert!(matches!(added, AddServer::CheckHealth));
    let done = add_done(added.advance(AddServerEvent::HealthChecked));
    assert!(matches!(done, ServerReply::List));
}

fn fault(constraint: &str, message: &str) -> StorageError {
    StorageError {
        text: "error returned from database".to_string(),
        database: Some(DatabaseFault {
            constraint: constraint.to_string(),
            message: message.to_string(),
            unique_violation: true,
        }),
    }
}

#[test]
fn refused_servers_are_explained() {
    let complaint = |error: StorageError| {
        let adding = add_server(admin(1), server_form("a", "u", 1))
            .advance(AddServerEvent::ModeParsed(Some(MediaStreamingMode::Proxy)))
            .advance(AddServerEvent::Inserted(Err(error)));
        server_now(add_done(adding))
    };
    let url_taken = (400, alert("A server with that URL already exists"));
    let name_taken = (400, alert("A server with that name already exists"));
    let failed = (400, alert("Failed to add server"));
    assert_eq!(complaint(fault("idx_servers_url_unique", "")), url_taken);
    assert_eq!(complaint(fault("", "x idx_servers_url_unique y")), url_taken);
    assert_eq!(
        complaint(fault("", "UNIQUE constraint failed: servers.url")),
        url_taken
    );
    assert_eq!(
        complaint(fault("", "UNIQUE constraint failed: servers.name")),
        name_taken
    );
    assert_eq!(complaint(fault("", "UNIQUE constraint failed: other")), name_taken);
    assert_eq!(complaint(fault("", "disk is full")), failed);
    assert_eq!(
        complaint(StorageError::other("Invalid URL: relative")),
        (400, alert("Invalid URL format"))
    );
    assert_eq!(complaint(StorageError::other("invalid url")), failed);
}

fn change_done(change: ChangeServer) -> ServerReply {
    match change {
        ChangeServer::Done(reply) => reply,
        _ => panic!("the change is over"),
    }
}

fn owned(change: ChangeServer) -> ChangeServer {
    change.advance(ChangeServerEvent::Server(Ok(Some(server(1)))))
}

fn set_priority(admin: CurrentAdmin, priority: i32) -> ChangeServer {
    update_server_priority(admin, ServerId::new(1), UpdatePriorityForm { priority })
}

#[test]
fn changes_are_for_the_owner() {
    let stranger = change_done(owned(set_priority(admin(2), 5)));
    assert_eq!(server_now(stranger), (403, String::new()));
    let stranger = change_done(owned(delete_server(admin(2), ServerId::new(1))));
    assert_eq!(server_now(stranger), (403, String::new()));
    let missing = set_priority(admin(1), 5).advance(ChangeServerEvent::Server(Ok(None)));
    assert_eq!(server_now(change_done(missing)), (404, String::new()));
    let failed = set_priority(admin(1), 5).advance(ChangeServerEvent::Server(Err(broken())));
    assert_eq!(server_now(change_done(failed)), (500, String::new()));
}

#[test]
fn priority_is_changed_within_its_range() {
    for priority in [0, 1000, -1] {
        let rejected = change_done(owned(set_priority(admin(1), priority)));
        assert_eq!(
            server_now(rejected),
            (400, alert("Priority must be between 1 and 999"))
        );
    }
    let applying = || owned(set_priority(admin(1), 999));
    assert!(matches!(applying(), ChangeServer::Apply(_, ServerEdit::SetPriority(999))));
    let listed = change_done(applying().advance(ChangeServerEvent::Applied(Ok(true))));
    assert!(matches!(listed, ServerReply::List));
    let gone = change_done(applying().advance(ChangeServerEvent::Applied(Ok(false))));
    assert_eq!(server_now(gone), (404, alert("Server not found")));
    let failed = change_done(applying().advance(ChangeServerEvent::Applied(Err(broken()))));
    assert_eq!(server_now(failed), (500, alert("Failed to update priority")));
}

#[test]
fn mode_is_changed_after_it_is_read() {
    let parsing = || {
        owned(update_server_media_streaming_mode(
            admin(1),
            ServerId::new(1),
            UpdateMediaStreamingModeForm {
                media_streaming_mode: "proxy".to_string(),
            },
        ))
    };
    let invalid = change_done(parsing().advance(ChangeServerEvent::ModeParsed(None)));
    assert_eq!(server_now(invalid), (400, alert("Invalid streaming mode")));
    let applying = parsing().advance(ChangeServerEvent::ModeParsed(Some(MediaStreamingMode::Proxy)));
    let failed = change_done(applying.advance(ChangeServerEvent::Applied(Err(broken()))));
    assert_eq!(server_now(failed), (500, alert("Failed to update streaming mode")));
}

#[test]
fn deleting_a_server_drops_its_sessions() {
    let deleting = || owned(delete_server(admin(1), ServerId::new(1)));
    let deleted = deleting().advance(ChangeServerEvent::Applied(Ok(true)));
    assert!(matches!(deleted, ChangeServer::DropSessions(_)));
    let listed = change_done(deleted.advance(ChangeServerEvent::SessionsDropped));
    assert!(matches!(listed, ServerReply::List));
    let failed = change_done(deleting().advance(ChangeServerEvent::Applied(Err(broken()))));
    assert_eq!(server_now(failed), (500, alert("Failed to delete server")));
    let forgetting = || owned(delete_server_admin(admin(1), ServerId::new(1)));
    let none = change_done(forgetting().advance(ChangeServerEvent::Applied(Ok(false))));
    assert_eq!(server_now(none), (404, alert("Admin not found")));
    let failed = change_done(forgetting().advance(ChangeServerEvent::Applied(Err(broken()))));
    assert_eq!(server_now(failed), (500, alert("Failed to delete admin")));
    let listed = change_done(forgetting().advance(ChangeServerEvent::Applied(Ok(true))));
    assert!(matches!(listed, ServerReply::List));
}

fn banner(text: &str) -> String {
    format!("<div style=\"background-color: #e74c3c; color: white; padding: 0.75rem; border-radius: 0.25rem; margin-bottom: 1rem;\">{text}</div>")
}

fn admin_done(adding: AddServerAdmin) -> (u16, String) {
    match adding {
        AddServerAdmin::Done(reply) => server_now(reply),
        _ => panic!("adding the administrator is over"),
    }
}

#[test]
fn administrators_are_checked_on_the_server() {
    let begun = |id: i64| {
        add_server_admin(
            admin(id),
            ServerId::new(1),
            AddServerAdminForm {
                username: "root".to_string(),
                password: Password::new("pw".to_string()),
            },
        )
        .advance(AddServerAdminEvent::Server(Ok(Some(server(1)))))
    };
    assert_eq!(admin_done(begun(2)), (403, String::new()));
    let unconnected = begun(1).advance(AddServerAdminEvent::Connected(Err("bad".to_string())));
    assert_eq!(admin_done(unconnected), (500, banner("Client error")));
    let connected = || begun(1).advance(AddServerAdminEvent::Connected(Ok(())));
    let answered = |login: AdministratorLogin| {
        connected().advance(AddServerAdminEvent::Authenticated(login))
    };
    for flag in [None, Some(false)] {
        assert_eq!(
            admin_done(answered(AdministratorLogin::Accepted(flag))),
            (200, banner("User is not an administrator on this server"))
        );
    }
    assert_eq!(
        admin_done(answered(AdministratorLogin::Rejected)),
        (200, banner("Invalid credentials"))
    );
    assert_eq!(
        admin_done(answered(AdministratorLogin::Failed("timeout".to_string()))),
        (200, banner("Connection error: timeout"))
    );
    let accepted = || answered(AdministratorLogin::Accepted(Some(true)));
    let unencrypted = accepted().advance(AddServerAdminEvent::Encrypted(Err("no".to_string())));
    assert_eq!(admin_done(unencrypted), (500, banner("Encryption failed")));
    let saving = || accepted().advance(AddServerAdminEvent::Encrypted(Ok("cipher".to_string())));
    assert!(matches!(saving(), AddServerAdmin::Save(_, username, password)
        if username == "root" && password == "cipher"));
    let failed = saving().advance(AddServerAdminEvent::Saved(Err(broken())));
    assert_eq!(admin_done(failed), (500, banner("Database error")));
    let saved = saving().advance(AddServerAdminEvent::Saved(Ok(())));
    assert!(matches!(saved, AddServerAdmin::Done(ServerReply::SwapList)));
    assert_eq!(
        shown(swap_server_list(Ok("<p>".to_string()))),
        (200, "<div id=\"server-list\" hx-swap-oob=\"innerHTML\"><p></div>".to_string())
    );
    assert_eq!(
        shown(swap_server_list(Err("broken template".to_string()))),
        (500, "broken template".to_string())
    );
}

fn admin_now(reply: AdminReply) -> (u16, String) {
    match reply {
        AdminReply::Now(reply) => shown(reply),
        AdminReply::List => panic!("an immediate answer was expected"),
    }
}

fn admin_form(username: &str, password: &str) -> AddAdminForm {
    AddAdminForm {
        username: username.to_string(),
        password: Password::new(password.to_string()),
        is_superadmin: false,
    }
}

fn account(id: i64, username: &str, is_superadmin: bool) -> ConsoleAdmin {
    ConsoleAdmin {
        id: AdminId::new(id),
        username: username.to_string(),
        password_hash: "hash".to_string(),
        is_superadmin,
        created_at: now(),
        updated_at: now(),
    }
}

#[test]
fn admin_form_is_validated() {
    let rejected = |form: AddAdminForm| match add_admin(form) {
        AddAdmin::Done(reply) => admin_now(reply),
        AddAdmin::Create(_) => panic!("the form is not valid"),
    };
    assert_eq!(
        rejected(admin_form(" \u{3000}", "long enough")),
        (400, alert("Username cannot be empty"))
    );
    assert_eq!(
        rejected(admin_form("a", "1234567")),
        (400, alert("Password must be at least 8 characters"))
    );
    match add_admin(admin_form(" a ", "12345678")) {
        AddAdmin::Create(form) => assert_eq!(form.trimmed_username(), "a"),
        AddAdmin::Done(_) => panic!("the form is valid"),
    }
    assert!(matches!(add_admin(admin_form("a", "\u{e9}\u{e9}\u{e9}\u{e9}")), AddAdmin::Create(_)));
    let created = add_admin(admin_form("a", "12345678")).created(Ok(account(1, "a", false)));
    assert!(matches!(created, AddAdmin::Done(AdminReply::List)));
    match add_admin(admin_form("a", "12345678")).created(Err(ConsoleAdminError::Hash("x".to_string()))) {
        AddAdmin::Done(reply) => assert_eq!(
            admin_now(reply),
            (400, alert("Failed to create admin (username may already be taken)"))
        ),
        AddAdmin::Create(_) => panic!("creating the account failed"),
    }
}

#[test]
fn password_is_reset() {
    let form = |password: &str| UpdatePasswordForm {
        password: Password::new(password.to_string()),
    };
    let done = |update: UpdateAdminPassword| match update {
        UpdateAdminPassword::Done(reply) => reply,
        UpdateAdminPassword::Update(_, _) => panic!("the update is over"),
    };
    assert_eq!(
        admin_now(done(update_admin_password(AdminId::new(1), form("short")))),
        (400, alert("Password must be at least 8 characters"))
    );
    let begun = || update_admin_password(AdminId::new(1), form("long enough"));
    assert!(matches!(done(begun().updated(Ok(true))), AdminReply::List));
    assert_eq!(
        admin_now(done(begun().updated(Ok(false)))),
        (404, alert("Admin not found"))
    );
    assert_eq!(
        admin_now(done(begun().updated(Err(ConsoleAdminError::Sqlx(broken()))))),
        (500, "Database error".to_string())
    );
}

#[test]
fn last_superadmin_stays() {
    let listed = |admins: Vec<ConsoleAdmin>, id: i64| {
        delete_admin(AdminId::new(id)).advance(DeleteAdminEvent::Admins(Ok(admins)))
    };
    let refused = |deletion: DeleteAdmin| match deletion {
        DeleteAdmin::Done(reply) => admin_now(reply),
        _ => panic!("the deletion is refused"),
    };
    let one = || vec![account(1, "a", true), account(2, "b", false)];
    assert_eq!(
        refused(listed(one(), 1)),
        (400, alert("Cannot delete the last remaining superadmin"))
    );
    assert_eq!(refused(listed(one(), 3)), (404, alert("Admin not found")));
    assert!(matches!(listed(one(), 2), DeleteAdmin::Delete(_)));
    let two = vec![account(1, "a", true), account(2, "b", true)];
    assert!(matches!(listed(two, 1), DeleteAdmin::Delete(id) if id.as_i64() == 1));
    let failed = delete_admin(AdminId::new(1)).advance(DeleteAdminEvent::Admins(Err(broken())));
    assert_eq!(refused(failed), (500, "Database error".to_string()));
    let deleting = || listed(one(), 2);
    let gone = deleting().advance(DeleteAdminEvent::Deleted(Ok(false)));
    assert_eq!(refused(gone), (404, alert("Admin not found")));
    let failed = deleting().advance(DeleteAdminEvent::Deleted(Err(broken())));
    assert_eq!(refused(failed), (500, "Database error".to_string()));
    let done = deleting().advance(DeleteAdminEvent::Deleted(Ok(true)));
    assert!(matches!(done, DeleteAdmin::Done(AdminReply::List)));
}

#[test]
fn superadmin_remains_after_a_deletion() {
    let mut service =
        ConsoleAdminService::from_rows(vec![account(1, "b", true), account(2, "a", true)]).unwrap();
    let deletion = delete_admin(AdminId::new(1)).advance(DeleteAdminEvent::Admins(Ok(service.list_admins())));
    assert!(matches!(deletion, DeleteAdmin::Delete(_)));
    assert!(service.delete_admin(AdminId::new(1)));
    assert!(service.list_admins().iter().any(|a| a.is_superadmin));
    let again = delete_admin(AdminId::new(2)).advance(DeleteAdminEvent::Admins(Ok(service.list_admins())));
    assert!(matches!(again, DeleteAdmin::Done(_)));
}

#[test]
fn superadmin_with_a_password_remains_after_a_deletion() {
    let mut service = ConsoleAdminService::from_rows(vec![
        account(1, "b", true),
        account(2, "a", true),
        account(3, "c", false),
    ])
    .unwrap();
    let deletion = delete_admin(AdminId::new(2)).advance(DeleteAdminEvent::Admins(Ok(service.list_admins())));
    assert!(matches!(deletion, DeleteAdmin::Delete(_)));
    service.delete_admin(AdminId::new(2));
    assert!(service
        .list_admins()
        .iter()
        .any(|a| a.is_superadmin && !a.password_hash.is_empty()));
}

#[test]
fn popup_is_a_json_header() {
    assert_eq!(
        with_popup("Hello"),
        Some("{\"admin-popup\":{\"message\":\"Hello\"}}".to_string())
    );
    assert_eq!(
        with_popup("a\"b\\c\n\t\r\u{8}\u{c}\u{1}\u{1f}/\u{e9}"),
        Some(
            "{\"admin-popup\":{\"message\":\"a\\\"b\\\\c\\n\\t\\r\\b\\f\\u0001\\u001f/\u{e9}\"}}"
                .to_string()
        )
    );
    assert_eq!(with_popup("a\u{7f}"), None);
}

#[test]
fn rendering_failures_are_told_apart() {
    assert_eq!(shown(page(Ok("<p>".to_string()))), (200, "<p>".to_string()));
    assert_eq!(shown(page(Err("x".to_string()))), (500, "Template error".to_string()));
    assert_eq!(shown(partial(Err("x".to_string()))), (500, "Error".to_string()));
    assert!(page(Ok(String::new())).is_html());
    assert!(!Reply::Status(StatusCode::Forbidden).is_html());
    assert!(!Reply::Text(StatusCode::Success, Message::RenderError).is_html());
    let failed = loaded::<u8>(Err(broken())).err().map(shown);
    assert_eq!(failed, Some((500, "Database error".to_string())));
    assert_eq!(loaded::<u8>(Ok(3)).ok(), Some(3));
}
