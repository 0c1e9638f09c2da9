use axum_example_app::auth::{
    access_decision, access_denied_toast, forbidden_message, guard_outcome,
    session_expired_message, GuardOutcome, api_access, cached_user_id, current_user, permissions_cache_key,
    session_cache_key, session_validity, sidebar_cache_key, token_usable, AccessDecision,
    SessionValidity, StoredSession,
};
use axum_example_app::config::{api_rate_limit, login_rate_limit, read_flag, AppConfig, EnvValues};
use axum_example_app::csrf::{csrf_decision, query_token, CsrfDecision};
use axum_example_app::dto::{
    audit_page_count, non_empty, parse_date, parse_role_ids, prepare_user_creation, prepare_user_update,
    read_user_form, username_matches, validate_status, AuditLogsQuery, CreatePostParams,
    CreateUserParams, PostForm, PostsQuery, UserFormError, UserFormFields, UserUpdateParams,
};
use axum_example_app::login::{
    blocked_login_message, can_attempt_login, is_active_status, login_outcome,
    record_failed_attempt, AccountLookup, LoginAttemptRecord, LoginAttemptResult, LoginOutcome, LoginQueryParams,
};
use axum_example_app::notify::{
    should_show_toast, toast, NotificationType, ToastLevel,
};
use axum_example_app::pages::{
    not_found_home_link, profile_password_change, profile_success_message, render_partial,
    reset_password_message, retry_after_secs, PasswordProblem, ProfilePasswordError, ResetOutcome,
    ResetPasswordSubmitParams, UpdatePasswordParams,
};
use axum_example_app::pagination::{default_page, total_pages, PaginationParams};
use axum_example_app::rbac::{
    check_permission, find_toggle_target, get_user_permissions, grant_status_label,
    sort_actions, toggle_edit_plan, toggled_state, ActionRow, PermissionActionRow,
    PermissionEditPlan, PermissionRow, PermissionSet, RbacService, ResourceRow, RoleRow,
    RolePermissionRow,
};
use axum_example_app::rbac_toggle::{toggle_edits, RbacEdit};
use axum_example_app::security::{sanitize_html, strip_html};
use axum_example_app::services::{
    cleanup_interval_secs, export_audit_csv, export_disposition, export_filename,
    find_user_ids_by_username, lookup_username, user_filter, PostService, RoleName, UserName,
    UserOption, UserRoleRow, UserService,
};
use axum_example_app::sidebar::{initials, SidebarUserInfo};
use axum_example_app::text::{parse_u32, parse_u64};
use axum_example_app::time::MICROS_PER_MINUTE;
use axum_example_app::ui::{action_icon, resource_icon, role_color};
use axum_example_app::views::{
    action_badge_class, audit_age_text, csv_escape, format_br_date, format_br_datetime,
    format_chrono_iso_datetime, format_iso_datetime, notification_age_text, AuditLogViewModel,
    AuditRecord, DateParts, NotificationRecord, NotificationViewModel, PostRecord, PostViewModel,
    RoleViewModel, SessionRecord, SessionViewModel, UserRecord, UserViewModel, UserWithRole,
};

const SEC: i64 = 1_000_000;

fn s(x: &str) -> String {
    x.to_string()
}

fn parts(year: i32, month: u32, day: u32, hour: u32, minute: u32, second: u32) -> DateParts {
    DateParts { year, month, day, hour, minute, second }
}

// ---------------------------------------------------------------------------
// ui
// ---------------------------------------------------------------------------

#[test]
fn role_colors_match_known_roles() {
    assert_eq!(role_color("Admin"), "#3b82f6");
    assert_eq!(role_color("Manager"), "#10b981");
    assert_eq!(role_color("Sales"), "#f59e0b");
    assert_eq!(role_color("Viewer"), "#8b5cf6");
    assert_eq!(role_color("Support"), "#06b6d4");
    assert_eq!(role_color("admin"), "#6b7280");
}

#[test]
fn icons_match_known_names() {
    assert_eq!(resource_icon("User Management"), "users");
    assert_eq!(resource_icon("Audit Logs"), "scroll-text");
    assert_eq!(resource_icon("users"), "box");
    assert_eq!(action_icon("delete"), "trash-2");
    assert_eq!(action_icon("export"), "download");
    assert_eq!(action_icon("archive"), "circle");
}

// ---------------------------------------------------------------------------
// pagination
// ---------------------------------------------------------------------------

#[test]
fn pagination_defaults_and_clamps() {
    let p = PaginationParams::new(None, None);
    assert_eq!((p.page(), p.per_page(), p.offset()), (1, 10, 0));
    let p = PaginationParams::new(Some(0), Some(500));
    assert_eq!((p.page(), p.per_page(), p.offset()), (1, 100, 0));
    let p = PaginationParams::new(Some(3), Some(0));
    assert_eq!((p.page(), p.per_page(), p.offset()), (3, 1, 2));
    let p = PaginationParams::new(Some(3), None);
    assert_eq!(p.offset(), 20);
    assert_eq!(default_page(), 1);
}

#[test]
fn page_counts() {
    assert_eq!(total_pages(0, 10), 1);
    assert_eq!(total_pages(25, 10), 3);
    assert_eq!(total_pages(30, 10), 3);
    assert_eq!(total_pages(31, 10), 4);
    assert_eq!(total_pages(0, 0), 1);
    assert_eq!(total_pages(5, 0), u64::MAX);
}

// ---------------------------------------------------------------------------
// csrf
// ---------------------------------------------------------------------------

#[test]
fn query_tokens() {
    assert_eq!(query_token("a=1&csrf_token=xyz&b=2"), Some(s("xyz")));
    assert_eq!(query_token("csrf_token=csrf_token=abc"), Some(s("abc")));
    assert_eq!(query_token("csrf_token=one&csrf_token=two"), Some(s("one")));
    assert_eq!(query_token("csrf_token="), Some(s("")));
    assert_eq!(query_token("xcsrf_token=1"), None);
    assert_eq!(query_token("foo=bar"), None);
    assert_eq!(query_token(""), None);
}

#[test]
fn csrf_decisions() {
    assert!(csrf_decision("GET", "/admin/users", None, None, None) == CsrfDecision::PassEnsureCookie);
    assert!(csrf_decision("POST", "/admin/login", None, None, None) == CsrfDecision::PassEnsureCookie);
    assert!(csrf_decision("DELETE", "/admin/toasts/dismiss", None, None, None) == CsrfDecision::Pass);
    assert!(csrf_decision("POST", "/admin/users", Some(s("t")), Some(s("t")), None) == CsrfDecision::Pass);
    assert!(
        csrf_decision("PUT", "/admin/users", Some(s("t")), None, Some(s("x=1&csrf_token=t")))
            == CsrfDecision::Pass
    );
    assert!(csrf_decision("POST", "/admin/users", None, Some(s("t")), None) == CsrfDecision::RejectNoCookie);
    assert!(csrf_decision("POST", "/admin/users", Some(s("t")), None, None) == CsrfDecision::RejectMissingToken);
    assert!(csrf_decision("POST", "/admin/users", Some(s("t")), Some(s("u")), None) == CsrfDecision::RejectMismatch);
    assert_eq!(CsrfDecision::RejectMissingToken.message(), Some(s("CSRF token ausente")));
    assert_eq!(CsrfDecision::RejectMismatch.message(), Some(s("CSRF token inválido")));
    assert_eq!(CsrfDecision::Pass.message(), None);
}

// ---------------------------------------------------------------------------
// login throttling
// ---------------------------------------------------------------------------

#[test]
fn failures_count_then_lock() {
    let (r1, m1) = record_failed_attempt(None, 0, 5, 15);
    assert_eq!((r1.attempts, r1.locked_until, m1), (1, None, None));
    let four = LoginAttemptRecord { attempts: 4, locked_until: None };
    let (r5, m5) = record_failed_attempt(Some(four), 0, 5, 15);
    assert_eq!(r5.attempts, 5);
    assert_eq!(r5.locked_until, Some(15 * MICROS_PER_MINUTE));
    assert_eq!(m5, Some(15));
    assert!(can_attempt_login(Some(r5), 0) == LoginAttemptResult::Blocked { minutes_remaining: 15 });
    assert!(
        can_attempt_login(Some(r5), 15 * MICROS_PER_MINUTE - 30 * SEC)
            == LoginAttemptResult::Blocked { minutes_remaining: 1 }
    );
    assert!(can_attempt_login(Some(r5), 15 * MICROS_PER_MINUTE) == LoginAttemptResult::Allowed);
    assert!(can_attempt_login(None, 0) == LoginAttemptResult::Allowed);
}

#[test]
fn huge_limit_wraps_negative_and_locks_at_once() {
    let (r, m) = record_failed_attempt(None, 0, u32::MAX, 2);
    assert_eq!(r.locked_until, Some(2 * MICROS_PER_MINUTE));
    assert_eq!(m, Some(2));
}

#[test]
fn login_decisions() {
    let blocked = Some(LoginAttemptResult::Blocked { minutes_remaining: 3 });
    let ok = AccountLookup::Found { password_ok: true, active: true };
    assert!(login_outcome(blocked, ok) == LoginOutcome::Blocked { minutes_remaining: 3 });
    assert!(login_outcome(None, ok) == LoginOutcome::Success);
    assert!(login_outcome(Some(LoginAttemptResult::Allowed), ok) == LoginOutcome::Success);
    assert!(
        login_outcome(None, AccountLookup::Found { password_ok: true, active: false })
            == LoginOutcome::Inactive
    );
    assert!(
        login_outcome(None, AccountLookup::Found { password_ok: false, active: false })
            == LoginOutcome::InvalidCredentials
    );
    assert!(login_outcome(None, AccountLookup::NotFound) == LoginOutcome::InvalidCredentials);
    assert!(login_outcome(None, AccountLookup::Failed) == LoginOutcome::InternalError);
    assert_eq!(blocked_login_message(15), "Muitas tentativas. Tente novamente em 15 minutos.");
    let q = LoginQueryParams { reset_success: Some(true), error: None };
    assert_eq!(
        q.success_message(),
        Some(s("Senha alterada com sucesso! Faça login com sua nova senha."))
    );
    let q = LoginQueryParams { reset_success: Some(false), error: Some(s("x")) };
    assert_eq!(q.success_message(), None);
    assert!(is_active_status("Active"));
    assert!(!is_active_status("Inactive"));
    assert!(!is_active_status("active"));
}

// ---------------------------------------------------------------------------
// sessions and sidebar
// ---------------------------------------------------------------------------

#[test]
fn uuid_text_round_trip() {
    let v: u128 = 0xa1a2a3a4b1b2c1c2d1d2d3d4d5d6d7d8;
    let option = UserOption::from_user(&UserName { id: v, username: s("ana") });
    assert_eq!(option.id, "a1a2a3a4-b1b2-c1c2-d1d2-d3d4d5d6d7d8");
    assert_eq!(cached_user_id("a1a2a3a4-b1b2-c1c2-d1d2-d3d4d5d6d7d8"), Some(v));
    assert_eq!(cached_user_id(&option.id), Some(v));
    assert_eq!(cached_user_id("not-a-uuid"), None);
    assert_eq!(cached_user_id("00000000-0000-0000-0000-00000000002a"), Some(42));
}

#[test]
fn cache_keys() {
    assert_eq!(session_cache_key("abc"), "session:abc");
    assert_eq!(sidebar_cache_key(1), "user:sidebar:00000000-0000-0000-0000-000000000001");
    assert_eq!(
        permissions_cache_key(255),
        "user:permissions:00000000-0000-0000-0000-0000000000ff"
    );
}

#[test]
fn session_decisions() {
    let now = 1_000 * SEC;
    assert!(session_validity(now + 90 * SEC + 500_000, now) == SessionValidity::Valid { cache_ttl_seconds: Some(90) });
    assert!(session_validity(now, now) == SessionValidity::Valid { cache_ttl_seconds: None });
    assert!(session_validity(now - 1, now) == SessionValidity::Expired);
    assert_eq!(current_user(Some(7), None, now), Some(7));
    let stored = StoredSession { user_id: 9, expires_at: now + 10 };
    assert_eq!(current_user(None, Some(stored), now), Some(9));
    assert_eq!(current_user(None, Some(stored), now + 11), None);
    assert_eq!(current_user(None, None, now), None);
    assert!(!token_usable(""));
    assert!(token_usable("t"));
    assert!(access_decision(None, true) == AccessDecision::RedirectToLogin);
    assert!(access_decision(Some(""), true) == AccessDecision::RedirectToLogin);
    assert!(access_decision(Some("t"), true) == AccessDecision::Pass);
    assert!(access_decision(Some("t"), false) == AccessDecision::ClearCookieAndRedirect);
    assert!(api_access(Some("t")));
    assert!(!api_access(Some("")));
    assert!(!api_access(None));
}

#[test]
fn sidebar_initials() {
    assert_eq!(initials("João Silva Santos"), "JS");
    assert_eq!(initials("  maria  "), "M");
    assert_eq!(initials(""), "U");
    assert_eq!(initials(" \t\n"), "U");
    assert_eq!(initials("ana\u{3000}beatriz"), "AB");
    assert_eq!(initials("élan vital"), "éV");
}

#[test]
fn sidebar_permissions() {
    let mut perms = PermissionSet::new();
    perms.insert(s("Posts"), s("read"));
    perms.insert(s("Posts"), s("edit"));
    let info = SidebarUserInfo::for_user(s("Maria Souza"), Some(s("Viewer")), perms);
    assert_eq!(info.initials, "MS");
    assert_eq!(info.role, "Viewer");
    assert!(info.can_read("Posts"));
    assert!(info.has_permission("Posts", "edit"));
    assert!(!info.has_permission("Posts", "delete"));
    assert!(!info.can_read("Settings"));
    let admin = SidebarUserInfo::for_user(s("Root"), Some(s("Admin")), PermissionSet::new());
    assert!(admin.can_read("Settings"));
    assert!(admin.has_permission("Anything", "delete"));
    let nobody = SidebarUserInfo::for_user(s("x"), None, PermissionSet::new());
    assert_eq!(nobody.role, "User");
    let d = SidebarUserInfo::default();
    assert!(d.name.is_empty() && d.initials.is_empty() && d.role.is_empty());
    assert!(!d.can_read("Dashboard"));
}

// ---------------------------------------------------------------------------
// rbac
// ---------------------------------------------------------------------------

fn rbac_rows() -> (
    Vec<RoleRow>,
    Vec<ResourceRow>,
    Vec<ActionRow>,
    Vec<RolePermissionRow>,
    Vec<PermissionRow>,
    Vec<PermissionActionRow>,
) {
    let roles = vec![RoleRow { id: 1, name: s("Admin") }, RoleRow { id: 2, name: s("Viewer") }];
    let resources = vec![
        ResourceRow { id: 10, name: s("Dashboard") },
        ResourceRow { id: 11, name: s("User Management") },
    ];
    let actions = vec![
        ActionRow { id: 20, name: s("delete") },
        ActionRow { id: 21, name: s("read") },
        ActionRow { id: 22, name: s("archive") },
        ActionRow { id: 23, name: s("create") },
    ];
    let links = vec![
        RolePermissionRow { role_id: 1, permission_id: 100 },
        RolePermissionRow { role_id: 2, permission_id: 101 },
        RolePermissionRow { role_id: 1, permission_id: 102 },
    ];
    let perms = vec![
        PermissionRow { id: 100, resource_id: 10 },
        PermissionRow { id: 101, resource_id: 10 },
        PermissionRow { id: 102, resource_id: 11 },
    ];
    let pas = vec![
        PermissionActionRow { permission_id: 100, action_id: 21, allowed: true },
        PermissionActionRow { permission_id: 100, action_id: 20, allowed: true },
        PermissionActionRow { permission_id: 101, action_id: 21, allowed: true },
        PermissionActionRow { permission_id: 102, action_id: 23, allowed: false },
        PermissionActionRow { permission_id: 102, action_id: 21, allowed: true },
    ];
    (roles, resources, actions, links, perms, pas)
}

#[test]
fn actions_sorted_by_rank() {
    let (_, _, actions, _, _, _) = rbac_rows();
    let sorted: Vec<String> = sort_actions(&actions).into_iter().map(|a| a.name).collect();
    assert_eq!(sorted, vec![s("read"), s("create"), s("delete"), s("archive")]);
}

#[test]
fn permission_matrix() {
    let (roles, resources, actions, links, perms, pas) = rbac_rows();
    let m = RbacService::build_permissions_matrix(&roles, &resources, &actions, &links, &perms, &pas, None);
    assert_eq!(m.active_role, "Admin");
    assert_eq!(m.roles[1].bg_color, "#8b5cf6");
    assert_eq!(m.resources[1].icon, "users");
    let names: Vec<&str> = m.actions.iter().map(|a| a.name.as_str()).collect();
    assert_eq!(names, vec!["read", "create", "delete", "archive"]);
    let cells = |i: usize, j: usize| -> Vec<bool> {
        m.permissions[i].resources[j].permission.actions.iter().map(|g| g.allowed).collect()
    };
    assert_eq!(m.permissions[0].role, "Admin");
    assert_eq!(m.permissions[0].resources[0].resource, "Dashboard");
    assert_eq!(cells(0, 0), vec![true, false, true, false]);
    assert_eq!(cells(0, 1), vec![true, false, false, false]);
    assert_eq!(cells(1, 0), vec![true, false, false, false]);
    assert_eq!(cells(1, 1), vec![false, false, false, false]);
    let m2 = RbacService::build_permissions_matrix(&roles, &resources, &actions, &links, &perms, &pas, Some(s("Viewer")));
    assert_eq!(m2.active_role, "Viewer");
    let m3 = RbacService::build_permissions_matrix(&roles, &resources, &actions, &links, &perms, &pas, Some(s("Ghost")));
    assert_eq!(m3.active_role, "Admin");
    let m4 = RbacService::build_permissions_matrix(&vec![], &resources, &actions, &links, &perms, &pas, Some(s("Ghost")));
    assert_eq!(m4.active_role, "Ghost");
    assert!(m4.permissions.is_empty());
}

#[test]
fn user_permissions_and_decision() {
    let (_, resources, actions, links, perms, pas) = rbac_rows();
    let viewer = get_user_permissions(&vec![2], &links, &perms, &resources, &pas, &actions);
    let pairs: Vec<(String, String)> =
        viewer.grants.iter().map(|g| (g.resource.clone(), g.action.clone())).collect();
    assert_eq!(pairs, vec![(s("Dashboard"), s("read"))]);
    let admin = get_user_permissions(&vec![1], &links, &perms, &resources, &pas, &actions);
    let pairs: Vec<(String, String)> =
        admin.grants.iter().map(|g| (g.resource.clone(), g.action.clone())).collect();
    assert_eq!(
        pairs,
        vec![
            (s("Dashboard"), s("read")),
            (s("Dashboard"), s("delete")),
            (s("User Management"), s("read"))
        ]
    );
    let none = get_user_permissions(&vec![], &links, &perms, &resources, &pas, &actions);
    assert!(none.grants.is_empty());
    assert!(check_permission(&vec![s("Viewer")], &viewer, "Dashboard", "read"));
    assert!(!check_permission(&vec![s("Viewer")], &viewer, "Dashboard", "delete"));
    assert!(check_permission(&vec![s("Viewer"), s("Admin")], &viewer, "Settings", "delete"));
    assert!(!check_permission(&vec![], &PermissionSet::new(), "Dashboard", "read"));
}

#[test]
fn toggling_a_cell() {
    let (_, _, _, links, perms, _) = rbac_rows();
    assert_eq!(find_toggle_target(&links, &perms, 1, 11), Some(102));
    assert_eq!(find_toggle_target(&links, &perms, 2, 11), None);
    assert!(matches!(toggle_edit_plan(Some(5), 2), PermissionEditPlan::CloneShared(5)));
    assert!(matches!(toggle_edit_plan(Some(5), 1), PermissionEditPlan::Reuse(5)));
    assert!(matches!(toggle_edit_plan(None, 0), PermissionEditPlan::CreateNew));
    assert!(!toggled_state("granted"));
    assert!(toggled_state("denied"));
    assert!(toggled_state("anything"));
    assert_eq!(grant_status_label(true), "granted");
    assert_eq!(grant_status_label(false), "denied");
}

// ---------------------------------------------------------------------------
// forms
// ---------------------------------------------------------------------------

fn create_params(user: &str, email: &str, status: &str) -> CreateUserParams {
    CreateUserParams {
        name: s("Ana Maria"),
        user: s(user),
        email: s(email),
        password: s("segredo123"),
        status: s(status),
        role_ids: vec![],
    }
}

#[test]
fn usernames() {
    assert!(username_matches("joao"));
    assert!(username_matches("joao_silva"));
    assert!(username_matches("Joao"));
    assert!(username_matches("joao_1"));
    assert!(!username_matches("joao.silva"));
    assert!(!username_matches("joão"));
    assert!(!username_matches("joao silva"));
    assert!(!username_matches(""));
    assert!(!username_matches("joao\n"));
}

#[test]
fn user_form_rules() {
    assert!(create_params("ana_maria", "ana@example.com", "Active").validate().is_ok());
    assert!(create_params("joao_1", "joao@x.com", "Active").validate().is_ok());
    let e = create_params("A", "ana@example.com", "Active").validate().unwrap_err();
    assert_eq!(
        e.joined_messages(),
        "Usuário deve ter entre 3 e 50 caracteres"
    );
    let e = create_params("ana", "nope", "Banned").validate().unwrap_err();
    let codes: Vec<&str> = e.errors.iter().map(|f| f.code.as_str()).collect();
    assert_eq!(codes, vec!["email", "invalid_status"]);
    let mut p = create_params("ana", "ana@example.com", "Inactive");
    p.password = s("curta");
    let e = p.validate().unwrap_err();
    assert_eq!(e.errors[0].field, "password");
    assert_eq!(e.errors[0].message, "Senha deve ter no mínimo 8 caracteres");
    let u = UserUpdateParams {
        name: s("A"),
        user: s("ana"),
        email: s("ana@example.com"),
        password: None,
        status: s("Active"),
        role_ids: vec![],
    };
    let e = u.validate().unwrap_err();
    assert_eq!(e.errors.len(), 1);
    assert_eq!(e.errors[0].message, "Nome deve ter entre 2 e 100 caracteres");
    let e = create_params("ana.maria", "ana@example.com", "Active").validate().unwrap_err();
    assert_eq!(e.joined_messages(), "Usuário deve conter apenas letras, números e _");
    let u = UserUpdateParams {
        name: s("Ana"),
        user: s("ana"),
        email: s("ana@example.com"),
        password: Some(s("abc")),
        status: s("Active"),
        role_ids: vec![],
    };
    let e = u.validate().unwrap_err();
    assert_eq!(e.errors.len(), 1);
    assert_eq!(e.errors[0].field, "password");
    assert_eq!(e.errors[0].message, "Senha deve ter no mínimo 8 caracteres");
    assert!(validate_status("Active").is_ok());
    assert_eq!(validate_status("x").unwrap_err().code, "invalid_status");
}

#[test]
fn post_form_rules() {
    let p = CreatePostParams {
        title: s("Hi"),
        text: s("short"),
        author: s("a"),
        category: s("c"),
        status: s("draft"),
        image_url: s(""),
    };
    let e = p.validate().unwrap_err();
    let msgs: Vec<&str> = e.errors.iter().map(|f| f.message.as_str()).collect();
    assert_eq!(
        msgs,
        vec!["Título deve ter entre 5 e 200 caracteres", "Conteúdo deve ter no mínimo 10 caracteres"]
    );
    let form = PostForm {
        title: s("Hello world"),
        text: s("Long enough text"),
        author: s("Ana"),
        category: s("News"),
        status: s("published"),
        image_url: s(""),
    };
    let p = form.into_create_params();
    assert!(p.validate().is_ok());
    let f = PostService::new_post_fields(p);
    assert_eq!(f.image_url, "https://placehold.co/100x60");
    assert_eq!(f.title, "Hello world");
    assert_eq!(PostsQuery { page: 0 }.page_to_show(), 1);
    assert!(PostService::delete_found(1));
    assert!(!PostService::delete_found(0));
}

#[test]
fn reading_user_forms() {
    let f = read_user_form("name=Ana+Maria&user=ana&role_ids=x&role_ids=y&name=Bia&extra=1");
    assert_eq!(f.name, "Bia");
    assert_eq!(f.user, "ana");
    assert_eq!(f.email, "");
    assert_eq!(f.role_ids, vec![s("x"), s("y")]);
    let role = "00000000-0000-0000-0000-000000000003";
    let fields = |ids: Vec<String>, password: &str| UserFormFields {
        name: s("Ana Maria"),
        user: s("ana_maria"),
        email: s("ana@example.com"),
        password: s(password),
        status: s("Active"),
        role_ids: ids,
    };
    match prepare_user_creation(fields(vec![s("junk")], "segredo123")) {
        Err(UserFormError::NoRoleSelected) => {}
        _ => panic!("expected no role"),
    }
    match prepare_user_creation(fields(vec![s("junk"), s(role)], "segredo123")) {
        Ok((p, ids)) => {
            assert_eq!(ids, vec![3]);
            assert_eq!(p.user, "ana_maria");
        }
        _ => panic!("expected success"),
    }
    match prepare_user_creation(fields(vec![s(role)], "curta")) {
        Err(UserFormError::Invalid(e)) => assert_eq!(e.errors[0].field, "password"),
        _ => panic!("expected invalid"),
    }
    match prepare_user_update(fields(vec![s(role)], "")) {
        Ok((p, _)) => assert_eq!(p.password, None),
        _ => panic!("expected success"),
    }
    match prepare_user_update(fields(vec![s(role)], "abc")) {
        Err(UserFormError::Invalid(e)) => assert_eq!(e.errors[0].field, "password"),
        _ => panic!("expected invalid"),
    }
    match prepare_user_update(fields(vec![s(role)], "segredo123")) {
        Ok((p, _)) => assert_eq!(p.password, Some(s("segredo123"))),
        _ => panic!("expected success"),
    }
    assert_eq!(parse_role_ids(&vec![s(role), s("x")]), vec![3]);
}

#[test]
fn html_sanitizing() {
    assert_eq!(sanitize_html("<b>x</b><script>y</script>"), "<b>x</b>");
    assert_eq!(strip_html("<b>bold</b>"), "bold");
    let f = read_user_form("name=%3Cb%3EAna%3C%2Fb%3E");
    assert_eq!(f.name, "<b>Ana</b>");
}

#[test]
fn audit_filters() {
    let q = AuditLogsQuery {
        page: Some(0),
        action: Some(s("")),
        entity_type: Some(s("user")),
        username: None,
        date_from: Some(s("2024-01-15")),
        date_to: Some(s("2024-02-30")),
    };
    let f = q.filters();
    assert_eq!(f.page, 1);
    assert_eq!(f.action, None);
    assert_eq!(f.entity_type, Some(s("user")));
    assert_eq!(f.date_from, Some((2024, 1, 15)));
    assert_eq!(f.date_to, None);
    assert_eq!(non_empty(Some(s(""))), None);
    assert_eq!(parse_date(None), None);
    assert_eq!(f.per_page, 20);
}

#[test]
fn audit_page_counts() {
    assert_eq!(audit_page_count(0), 1);
    assert_eq!(audit_page_count(1), 1);
    assert_eq!(audit_page_count(20), 1);
    assert_eq!(audit_page_count(21), 2);
    assert_eq!(audit_page_count(40), 2);
    assert_eq!(audit_page_count(u64::MAX), u64::MAX / 20 + 1);
}

// ---------------------------------------------------------------------------
// views
// ---------------------------------------------------------------------------

#[test]
fn date_formats() {
    let d = parts(2024, 12, 24, 15, 54, 28);
    assert_eq!(format_iso_datetime(d), "2024-12-24 15:54:28");
    assert_eq!(format_chrono_iso_datetime(d), "2024-12-24 15:54:28");
    assert_eq!(format_br_date(parts(2025, 2, 1, 0, 0, 0)), "01/02/2025");
    assert_eq!(format_br_datetime(parts(2025, 2, 1, 9, 5, 0)), "01/02/2025 09:05");
    let old = parts(-5, 1, 2, 3, 4, 5);
    assert_eq!(format_iso_datetime(old), "-005-01-02 03:04:05");
    assert_eq!(format_chrono_iso_datetime(old), "-0005-01-02 03:04:05");
    assert_eq!(format_br_date(parts(12345, 1, 2, 0, 0, 0)), "02/01/+12345");
    assert_eq!(format_br_date(parts(42, 1, 2, 0, 0, 0)), "02/01/0042");
}

#[test]
fn relative_times() {
    assert_eq!(audit_age_text(0, 59 * SEC), "Agora");
    assert_eq!(audit_age_text(0, 60 * SEC), "Há 1 min");
    assert_eq!(audit_age_text(0, 3599 * SEC), "Há 59 min");
    assert_eq!(audit_age_text(0, 3600 * SEC), "Há 1 h");
    assert_eq!(audit_age_text(0, 86_400 * SEC), "Há 1 dias");
    assert_eq!(audit_age_text(0, 7 * 86_400 * SEC), "Há 1 sem");
    assert_eq!(audit_age_text(0, -300 * SEC), "Agora");
    assert_eq!(notification_age_text(0, 30 * SEC), "agora");
    assert_eq!(notification_age_text(0, 5 * 60 * SEC), "5m atrás");
    assert_eq!(notification_age_text(0, 2 * 3600 * SEC), "2h atrás");
    assert_eq!(notification_age_text(0, 3 * 86_400 * SEC), "3d atrás");
}

#[test]
fn audit_view_and_export() {
    let rec = AuditRecord {
        id: 1,
        action: s("login"),
        entity_type: s("user"),
        entity_id: Some(2),
        user_id: Some(2),
        details: Some(s("said \"hi\"")),
        ip_address: None,
        created_at: 0,
        created_parts: parts(2024, 12, 24, 15, 54, 28),
    };
    let vm = AuditLogViewModel::from_record(
        AuditRecord { details: rec.details.clone(), ip_address: None, ..rec_clone(&rec) },
        2 * 3600 * SEC,
    );
    assert_eq!(vm.id, "00000000-0000-0000-0000-000000000001");
    assert_eq!(vm.action_badge_class, "badge--purple");
    assert_eq!(vm.user_id, Some(s("00000000-0000-0000-0000-000000000002")));
    assert_eq!(vm.username, None);
    assert_eq!(vm.created_at, "2024-12-24 15:54:28");
    assert_eq!(vm.created_at_relative, "Há 2 h");
    assert_eq!(action_badge_class("purge"), "badge--default");
    let users = vec![
        UserName { id: 2, username: s("ana") },
        UserName { id: 3, username: s("bia") },
    ];
    assert_eq!(lookup_username(&users, Some(3)), Some(s("bia")));
    assert_eq!(lookup_username(&users, Some(9)), None);
    assert_eq!(lookup_username(&users, None), None);
    let csv = export_audit_csv(&vec![rec], &users);
    assert_eq!(
        csv,
        "Data/Hora,Ação,Entidade,ID Entidade,Usuário,IP,Detalhes\n\"2024-12-24 15:54:28\",\"login\",\"user\",\"00000000-0000-0000-0000-000000000002\",\"ana\",\"-\",\"said \"\"hi\"\"\"\n"
    );
    let esc: String = csv_escape("a\"b").into_iter().collect();
    assert_eq!(esc, "a\"\"b");
    assert_eq!(export_filename(parts(2025, 3, 7, 8, 9, 10)), "audit_logs_20250307_080910.csv");
    assert_eq!(export_disposition("f.csv"), "attachment; filename=\"f.csv\"");
    let opt = UserOption::from_user(&users[0]);
    assert_eq!(opt.id, "00000000-0000-0000-0000-000000000002");
    assert_eq!(opt.name, "ana");
}

fn rec_clone(r: &AuditRecord) -> AuditRecord {
    AuditRecord {
        id: r.id,
        action: r.action.clone(),
        entity_type: r.entity_type.clone(),
        entity_id: r.entity_id,
        user_id: r.user_id,
        details: r.details.clone(),
        ip_address: r.ip_address.clone(),
        created_at: r.created_at,
        created_parts: r.created_parts,
    }
}

#[test]
fn notification_and_session_views() {
    let n = NotificationRecord {
        id: 16,
        title: s("t"),
        message: s("m"),
        notification_type: s(NotificationType::Warning.as_str()),
        is_read: false,
        action_url: None,
        created_at: 0,
        created_parts: parts(2025, 1, 2, 3, 4, 5),
    };
    let vm = NotificationViewModel::from_record(n, 5 * 60 * SEC);
    assert_eq!(vm.id, "00000000-0000-0000-0000-000000000010");
    assert_eq!(vm.notification_type, "warning");
    assert_eq!(vm.created_at, "02/01/2025 03:04");
    assert_eq!(vm.time_ago, "5m atrás");
    let sess = SessionRecord {
        id: 1,
        token: s("tok"),
        ip_address: None,
        user_agent: Some(s("curl")),
        created_at: 0,
        created_parts_utc: parts(2025, 1, 2, 3, 4, 5),
        expires_at: 30 * 60 * SEC,
    };
    let vm = SessionViewModel::from_record(sess, "tok", 0);
    assert_eq!(vm.ip_address, "Desconhecido");
    assert_eq!(vm.user_agent, "curl");
    assert!(vm.is_current);
    assert_eq!(vm.expires_in, "30 min");
    assert_eq!(vm.last_accessed, "Agora mesmo");
    let sess = SessionRecord {
        id: 1,
        token: s("other"),
        ip_address: Some(s("10.0.0.1")),
        user_agent: None,
        created_at: 0,
        created_parts_utc: parts(2025, 1, 2, 3, 4, 5),
        expires_at: 5 * 3600 * SEC,
    };
    let vm = SessionViewModel::from_record(sess, "tok", 3 * 3600 * SEC);
    assert!(!vm.is_current);
    assert_eq!(vm.expires_in, "2 h");
    assert_eq!(vm.last_accessed, "3h atrás");
}

#[test]
fn post_and_user_views() {
    let p = PostRecord {
        id: -1,
        title: s("t"),
        text: s("x"),
        author: s("a"),
        category: s("c"),
        status: s("s"),
        image_url: s("i"),
        date: parts(2024, 5, 6, 0, 0, 0),
        views: 1234,
        comments: 2,
    };
    let vm = PostViewModel::from_record(p);
    assert_eq!(vm.id, u32::MAX);
    assert_eq!(vm.views, "1234");
    assert_eq!(vm.date, "06/05/2024");
    assert_eq!(vm.comments, 2);
    let u = UserRecord { id: 5, name: s("João"), username: s("joao"), email: s("j@x.io"), status: s("Active") };
    let vm = UserViewModel::from_user(u);
    assert_eq!(vm.avatar_initials, "JO");
    assert_eq!(vm.roles.len(), 1);
    assert_eq!(vm.roles[0].name, "Sem Role");
    assert_eq!(vm.roles[0].color, "#6b7280");
    let u = UserRecord { id: 6, name: s("Ana"), username: s("ñu"), email: s("a@x.io"), status: s("Active") };
    let vm = UserViewModel::from_user_with_roles(UserWithRole { user: u, role_names: vec![s("Admin"), s("Sales")] });
    assert_eq!(vm.avatar_initials, "ÑU");
    assert_eq!(vm.roles[1].color, "#f59e0b");
    let r = RoleViewModel::from_role(7, s("Support"));
    assert_eq!(r.color, "#06b6d4");
}

#[test]
fn users_with_their_roles() {
    let user = |id: u128, name: &str| UserRecord {
        id,
        name: s(name),
        username: s(name),
        email: s("e"),
        status: s("Active"),
    };
    let users = vec![user(1, "ana"), user(2, "bia"), user(1, "ana")];
    let links = vec![
        UserRoleRow { user_id: 1, role_id: 10 },
        UserRoleRow { user_id: 1, role_id: 99 },
        UserRoleRow { user_id: 1, role_id: 11 },
    ];
    let roles = vec![RoleName { id: 10, name: s("Admin") }, RoleName { id: 11, name: s("Sales") }];
    let r = UserService::attach_roles(&users, &links, &roles);
    assert_eq!(r[0].role_names, vec![s("Admin"), s("Sales")]);
    assert_eq!(r[1].role_names, vec![s("Sem Role")]);
    assert_eq!(r[2].role_names, vec![s("Sem Role")]);
}

#[test]
fn username_search() {
    let users = vec![
        UserName { id: 1, username: s("Admin") },
        UserName { id: 2, username: s("maria") },
        UserName { id: 3, username: s("ADMINISTRADOR") },
    ];
    let ids = find_user_ids_by_username(&users, "admin");
    assert_eq!(ids, vec![1, 3]);
    assert_eq!(user_filter(&ids), None);
    let ids = find_user_ids_by_username(&users, "MAR");
    assert_eq!(ids, vec![2]);
    assert_eq!(user_filter(&ids), Some(2));
    assert_eq!(find_user_ids_by_username(&users, ""), vec![1, 2, 3]);
}

// ---------------------------------------------------------------------------
// settings and pages
// ---------------------------------------------------------------------------

#[test]
fn number_parsing() {
    assert_eq!(parse_u64("18446744073709551615"), Some(u64::MAX));
    assert_eq!(parse_u64("18446744073709551616"), None);
    assert_eq!(parse_u64(""), None);
    assert_eq!(parse_u64("+"), None);
    assert_eq!(parse_u64("-1"), None);
    assert_eq!(parse_u64("+5"), Some(5));
    assert_eq!(parse_u64("007"), Some(7));
    assert_eq!(parse_u64(" 7"), None);
    assert_eq!(parse_u32("4294967296"), None);
    assert_eq!(parse_u32("4294967295"), Some(u32::MAX));
    assert_eq!(cleanup_interval_secs(None), 3600);
    assert_eq!(cleanup_interval_secs(Some(s("120"))), 120);
    assert_eq!(cleanup_interval_secs(Some(s("soon"))), 3600);
}

#[test]
fn settings_from_environment() {
    let env = EnvValues {
        database_url: s("postgres://db"),
        host: s("0.0.0.0"),
        port: s("8000"),
        redis_url: None,
        redis_host: None,
        redis_port: Some(s("6380")),
        cookie_secure: Some(s("TRUE")),
        max_login_attempts: Some(s("x")),
        login_lockout_minutes: Some(s("30")),
    };
    let c = AppConfig::from_env(env);
    assert_eq!(c.server_url, "0.0.0.0:8000");
    assert_eq!(c.redis_url, "redis://localhost:6380");
    assert!(c.cookie_secure);
    assert_eq!(c.max_login_attempts, 5);
    assert_eq!(c.login_lockout_minutes, 30);
    assert!(!read_flag(Some(s("yes"))));
    assert!(!read_flag(None));
}

#[test]
fn rate_limits() {
    let l = login_rate_limit(None);
    assert_eq!((l.period_ms, l.burst_size), (60_000, 5));
    let a = api_rate_limit(None);
    assert_eq!((a.period_ms, a.burst_size), (500, 120));
    assert!(a.is_usable());
    let z = api_rate_limit(Some(s("0")));
    assert_eq!((z.period_ms, z.burst_size), (60_000, 0));
    assert!(!z.is_usable());
    let big = api_rate_limit(Some(s("70000")));
    assert_eq!(big.period_ms, 0);
    assert!(!big.is_usable());
    let wrap = login_rate_limit(Some(s("4294967297")));
    assert_eq!(wrap.burst_size, 1);
}

#[test]
fn page_decisions() {
    assert!(render_partial(true, false, None));
    assert!(render_partial(true, false, Some("#main")));
    assert!(!render_partial(true, false, Some("#app-layout")));
    assert!(!render_partial(true, false, Some("app-layout")));
    assert!(!render_partial(true, true, None));
    assert!(!render_partial(false, false, None));
    assert_eq!(not_found_home_link("/admin/users"), "/admin");
    assert_eq!(not_found_home_link("/posts"), "/");
    assert_eq!(retry_after_secs(Some("30")), 30);
    assert_eq!(retry_after_secs(Some("soon")), 60);
    assert_eq!(retry_after_secs(None), 60);
    assert_eq!(profile_success_message(Some(s("true"))), Some(s("Changes saved successfully.")));
    assert_eq!(profile_success_message(None), None);
}

#[test]
fn password_changes() {
    assert!(profile_password_change("abcdefgh", "abcdefgi", true) == Err(ProfilePasswordError::Mismatch));
    assert!(profile_password_change("short", "short", true) == Err(ProfilePasswordError::TooShort));
    assert!(profile_password_change("ção12", "ção12", true) == Err(ProfilePasswordError::TooShort));
    assert!(profile_password_change("çãoçãoç", "çãoçãoç", true) == Ok(()));
    assert!(profile_password_change("longenough", "longenough", false) == Err(ProfilePasswordError::WrongCurrent));
    assert_eq!(ProfilePasswordError::Mismatch.message(), "As senhas não coincidem");
    assert_eq!(ProfilePasswordError::TooShort.redirect(), "/admin/profile?error=Senha+muito+curta");
    let p = UpdatePasswordParams {
        current_password: s("old"),
        new_password: s("newpassword"),
        confirm_password: s("newpassword"),
    };
    assert!(p.check(true) == Ok(()));
    let r = ResetPasswordSubmitParams { token: s("t"), password: s("a"), confirm_password: s("b") };
    assert!(r.check() == Some(PasswordProblem::Mismatch));
    assert_eq!(reset_password_message(PasswordProblem::TooShort), "Password must be at least 8 characters.");
}

#[test]
fn reset_submissions() {
    let now = 1_000;
    let bad = ResetPasswordSubmitParams { token: s("t"), password: s("a"), confirm_password: s("b") };
    assert_eq!(bad.outcome(Some(2_000), now), ResetOutcome::Problem(PasswordProblem::Mismatch));
    assert_eq!(bad.outcome(Some(2_000), now).message(), Some("Passwords do not match."));
    let short = ResetPasswordSubmitParams { token: s("t"), password: s("abc"), confirm_password: s("abc") };
    assert_eq!(short.outcome(None, now), ResetOutcome::Problem(PasswordProblem::TooShort));
    let ok = ResetPasswordSubmitParams {
        token: s("t"),
        password: s("segredo123"),
        confirm_password: s("segredo123"),
    };
    assert_eq!(ok.outcome(None, now), ResetOutcome::InvalidToken);
    assert_eq!(ok.outcome(None, now).message(), Some("Invalid or expired token."));
    assert_eq!(ok.outcome(Some(999), now), ResetOutcome::LinkExpired);
    assert_eq!(ok.outcome(Some(999), now).message(), Some("Link expired."));
    assert_eq!(ok.outcome(Some(1_000), now), ResetOutcome::Proceed);
    assert_eq!(ok.outcome(Some(1_000), now).message(), None);
}

#[test]
fn permission_guard() {
    assert_eq!(guard_outcome(None, true), GuardOutcome::Unauthorized);
    assert_eq!(guard_outcome(None, false), GuardOutcome::Unauthorized);
    assert_eq!(guard_outcome(Some(7), true), GuardOutcome::Allow(7));
    assert_eq!(guard_outcome(Some(7), false), GuardOutcome::Forbidden(7));
    assert_eq!(session_expired_message(), "Sessão expirada. Por favor, faça login novamente.");
    assert_eq!(forbidden_message("Posts", "edit"), "Você não tem permissão para edit em Posts.");
    assert_eq!(
        access_denied_toast("User Management", "delete"),
        "Acesso negado: você não tem permissão para delete em User Management"
    );
}

#[test]
fn toasts() {
    assert!(should_show_toast(None, None));
    assert!(should_show_toast(None, Some(1)));
    assert!(!should_show_toast(Some(1), None));
    assert!(should_show_toast(Some(1), Some(1)));
    assert!(!should_show_toast(Some(1), Some(2)));
    assert!(toast(None, ToastLevel::Info, s("x")).is_none());
    let t = toast(Some(4), ToastLevel::Success, s("ok")).unwrap();
    assert_eq!(t.user_id, Some(4));
    assert_eq!(t.level.as_str(), "success");
    assert_eq!(ToastLevel::Error.as_str(), "error");
    assert_eq!(NotificationType::Info.as_str(), "info");
}

// ---------------------------------------------------------------------------
// toggling a cell: the writes
// ---------------------------------------------------------------------------

fn link(role_id: u128, permission_id: u128) -> RolePermissionRow {
    RolePermissionRow { role_id, permission_id }
}

fn grant(permission_id: u128, action_id: u128, allowed: bool) -> PermissionActionRow {
    PermissionActionRow { permission_id, action_id, allowed }
}

/// Plays the writes on the rows, as the store does.
fn play(
    edits: &[RbacEdit],
    links: &mut Vec<RolePermissionRow>,
    perms: &mut Vec<PermissionRow>,
    pas: &mut Vec<PermissionActionRow>,
) {
    for e in edits {
        match *e {
            RbacEdit::InsertPermission { id, resource_id } => perms.push(PermissionRow { id, resource_id }),
            RbacEdit::InsertPermissionAction { permission_id, action_id, allowed } => {
                pas.push(grant(permission_id, action_id, allowed))
            }
            RbacEdit::DeleteLink { role_id, permission_id } => {
                links.retain(|l| !(l.role_id == role_id && l.permission_id == permission_id))
            }
            RbacEdit::InsertLink { role_id, permission_id } => links.push(link(role_id, permission_id)),
            RbacEdit::UpdatePermissionAction { permission_id, action_id, allowed } => {
                for r in pas.iter_mut() {
                    if r.permission_id == permission_id && r.action_id == action_id {
                        r.allowed = allowed;
                    }
                }
            }
        }
    }
}

/// A cell of the matrix: the role's first permission on the resource allows the action.
fn cell(
    links: &[RolePermissionRow],
    perms: &[PermissionRow],
    pas: &[PermissionActionRow],
    role_id: u128,
    resource_id: u128,
    action_id: u128,
) -> bool {
    let resource_of = |pid: u128| perms.iter().rev().find(|p| p.id == pid).map(|p| p.resource_id);
    match links.iter().find(|l| l.role_id == role_id && resource_of(l.permission_id) == Some(resource_id)) {
        Some(l) => pas
            .iter()
            .any(|r| r.permission_id == l.permission_id && r.action_id == action_id && r.allowed),
        None => false,
    }
}

#[test]
fn toggle_keeps_the_cells_of_other_roles() {
    // Role 2 holds two permissions on resource 100 and shares the first with role 1.
    let mut links = vec![link(1, 20), link(2, 20), link(2, 21)];
    let mut perms = vec![
        PermissionRow { id: 20, resource_id: 100 },
        PermissionRow { id: 21, resource_id: 100 },
    ];
    let mut pas = vec![grant(20, 7, true), grant(21, 8, true)];
    let before: Vec<bool> = [7u128, 8].iter().map(|&a| cell(&links, &perms, &pas, 2, 100, a)).collect();
    assert_eq!(before, vec![true, false]);
    let edits = toggle_edits(&links, &perms, &pas, 1, 100, 7, false, 99);
    play(&edits, &mut links, &mut perms, &mut pas);
    let after: Vec<bool> = [7u128, 8].iter().map(|&a| cell(&links, &perms, &pas, 2, 100, a)).collect();
    assert_eq!(after, before);
    assert!(!cell(&links, &perms, &pas, 1, 100, 7));
}

#[test]
fn toggle_writes_copy_a_shared_permission() {
    // Roles 1 and 2 share permission 10 on resource 100.
    let links = vec![link(1, 10), link(2, 10)];
    let perms = vec![PermissionRow { id: 10, resource_id: 100 }];
    let pas = vec![grant(10, 7, true), grant(10, 8, false)];
    let edits = toggle_edits(&links, &perms, &pas, 1, 100, 7, false, 99);
    assert_eq!(edits.len(), 6);
    assert!(matches!(edits[0], RbacEdit::InsertPermission { id: 99, resource_id: 100 }));
    assert!(matches!(
        edits[1],
        RbacEdit::InsertPermissionAction { permission_id: 99, action_id: 7, allowed: true }
    ));
    assert!(matches!(
        edits[2],
        RbacEdit::InsertPermissionAction { permission_id: 99, action_id: 8, allowed: false }
    ));
    assert!(matches!(edits[3], RbacEdit::DeleteLink { role_id: 1, permission_id: 10 }));
    assert!(matches!(edits[4], RbacEdit::InsertLink { role_id: 1, permission_id: 99 }));
    assert!(matches!(
        edits[5],
        RbacEdit::UpdatePermissionAction { permission_id: 99, action_id: 7, allowed: false }
    ));
}

#[test]
fn toggle_writes_edit_an_own_permission() {
    let links = vec![link(1, 10), link(2, 20)];
    let perms = vec![
        PermissionRow { id: 10, resource_id: 100 },
        PermissionRow { id: 20, resource_id: 100 },
    ];
    let pas = vec![grant(10, 7, true)];
    let edits = toggle_edits(&links, &perms, &pas, 1, 100, 7, false, 99);
    assert_eq!(edits.len(), 1);
    assert!(matches!(
        edits[0],
        RbacEdit::UpdatePermissionAction { permission_id: 10, action_id: 7, allowed: false }
    ));
    let edits = toggle_edits(&links, &perms, &pas, 2, 100, 7, true, 99);
    assert_eq!(edits.len(), 1);
    assert!(matches!(
        edits[0],
        RbacEdit::InsertPermissionAction { permission_id: 20, action_id: 7, allowed: true }
    ));
}

#[test]
fn toggle_writes_create_a_missing_permission() {
    let links = vec![link(1, 10)];
    let perms = vec![PermissionRow { id: 10, resource_id: 100 }];
    let pas: Vec<PermissionActionRow> = vec![];
    let edits = toggle_edits(&links, &perms, &pas, 1, 200, 7, true, 99);
    assert_eq!(edits.len(), 3);
    assert!(matches!(edits[0], RbacEdit::InsertPermission { id: 99, resource_id: 200 }));
    assert!(matches!(edits[1], RbacEdit::InsertLink { role_id: 1, permission_id: 99 }));
    assert!(matches!(
        edits[2],
        RbacEdit::InsertPermissionAction { permission_id: 99, action_id: 7, allowed: true }
    ));
}

#[test]
fn matrix_and_enforcement_agree() {
    let (roles, resources, actions, links, perms, pas) = rbac_rows();
    let m = RbacService::build_permissions_matrix(&roles, &resources, &actions, &links, &perms, &pas, None);
    for (i, role) in roles.iter().enumerate() {
        let held = get_user_permissions(&vec![role.id], &links, &perms, &resources, &pas, &actions);
        for (j, res) in resources.iter().enumerate() {
            for cell in &m.permissions[i].resources[j].permission.actions {
                assert_eq!(held.contains(&res.name, &cell.action), cell.allowed);
            }
        }
    }
}
