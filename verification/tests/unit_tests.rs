use axum_example_app::auth::SESSION_COOKIE_NAME;
use axum_example_app::csrf::constant_time_compare;
use axum_example_app::rbac::RbacService;
use axum_example_app::services::CleanupResult;

#[test]
fn test_session_cookie_name() {
    assert_eq!(SESSION_COOKIE_NAME, "admin_session");
}

#[test]
fn test_constant_time_compare() {
    assert!(constant_time_compare("abc", "abc"));
    assert!(!constant_time_compare("abc", "abd"));
    assert!(!constant_time_compare("abc", "ab"));
}

#[test]
fn test_audit_service_module_compiles() {
    // Placeholder kept from the audit service: its logging needs a database.
}

#[test]
fn test_role_color_returns_string() {
    let color = RbacService::role_color("Admin");
    assert!(!color.is_empty());
}

#[test]
fn test_role_color_different_roles() {
    let admin_color = RbacService::role_color("Admin");
    let user_color = RbacService::role_color("User");
    assert!(!admin_color.is_empty());
    assert!(!user_color.is_empty());
}

#[test]
fn test_resource_icon_returns_string() {
    let icon = RbacService::resource_icon("users");
    assert!(!icon.is_empty());
}

#[test]
fn test_resource_icon_unknown_returns_default() {
    let icon = RbacService::resource_icon("unknown_resource");
    assert!(!icon.is_empty());
}

#[test]
fn test_cleanup_result_default() {
    let result = CleanupResult {
        deleted_count: 0,
        errors: Vec::new(),
    };
    assert_eq!(result.deleted_count, 0);
    assert!(result.errors.is_empty());
}
