//! Colors and icons shown in the administration interface.
use vstd::prelude::*;
use crate::text::str_eq;

verus! {

broadcast use vstd::string::group_string_axioms;

/// The badge color (`#RRGGBB`) of a role.
pub open spec fn role_color_of(role_name: Seq<char>) -> Seq<char> {
    if role_name == "Admin"@ {
        "#3b82f6"@
    } else if role_name == "Manager"@ {
        "#10b981"@
    } else if role_name == "Sales"@ {
        "#f59e0b"@
    } else if role_name == "Viewer"@ {
        "#8b5cf6"@
    } else if role_name == "Support"@ {
        "#06b6d4"@
    } else {
        "#6b7280"@
    }
}

/// The Lucide icon name (without the `lucide-` prefix) of a resource.
pub open spec fn resource_icon_of(resource_name: Seq<char>) -> Seq<char> {
    if resource_name == "Dashboard"@ {
        "layout-dashboard"@
    } else if resource_name == "User Management"@ {
        "users"@
    } else if resource_name == "Analytics"@ {
        "bar-chart-3"@
    } else if resource_name == "Content Library"@ {
        "library-big"@
    } else if resource_name == "Settings"@ {
        "settings"@
    } else if resource_name == "Export"@ {
        "download"@
    } else if resource_name == "Print"@ {
        "printer"@
    } else if resource_name == "Reports"@ {
        "file-text"@
    } else if resource_name == "Notifications"@ {
        "bell"@
    } else if resource_name == "Security"@ {
        "shield"@
    } else if resource_name == "Audit Logs"@ {
        "scroll-text"@
    } else {
        "box"@
    }
}

/// The Lucide icon name of an action.
pub open spec fn action_icon_of(action_name: Seq<char>) -> Seq<char> {
    if action_name == "read"@ {
        "eye"@
    } else if action_name == "create"@ {
        "plus"@
    } else if action_name == "edit"@ {
        "pencil"@
    } else if action_name == "delete"@ {
        "trash-2"@
    } else if action_name == "approve"@ {
        "check-circle"@
    } else if action_name == "print"@ {
        "printer"@
    } else if action_name == "export"@ {
        "download"@
    } else {
        "circle"@
    }
}

/// Returns the background color for a role (Admin, Manager, Sales, ...);
/// unknown roles get gray.
pub fn role_color(role_name: &str) -> (color: String)
    ensures
        color@ == role_color_of(role_name@),
{
    if str_eq(role_name, "Admin") {
        "#3b82f6".to_owned()
    } else if str_eq(role_name, "Manager") {
        "#10b981".to_owned()
    } else if str_eq(role_name, "Sales") {
        "#f59e0b".to_owned()
    } else if str_eq(role_name, "Viewer") {
        "#8b5cf6".to_owned()
    } else if str_eq(role_name, "Support") {
        "#06b6d4".to_owned()
    } else {
        "#6b7280".to_owned()
    }
}

/// Returns the Lucide icon for a resource; unknown resources get `box`.
pub fn resource_icon(resource_name: &str) -> (icon: String)
    ensures
        icon@ == resource_icon_of(resource_name@),
{
    if str_eq(resource_name, "Dashboard") {
        "layout-dashboard".to_owned()
    } else if str_eq(resource_name, "User Management") {
        "users".to_owned()
    } else if str_eq(resource_name, "Analytics") {
        "bar-chart-3".to_owned()
    } else if str_eq(resource_name, "Content Library") {
        "library-big".to_owned()
    } else if str_eq(resource_name, "Settings") {
        "settings".to_owned()
    } else if str_eq(resource_name, "Export") {
        "download".to_owned()
    } else if str_eq(resource_name, "Print") {
        "printer".to_owned()
    } else if str_eq(resource_name, "Reports") {
        "file-text".to_owned()
    } else if str_eq(resource_name, "Notifications") {
        "bell".to_owned()
    } else if str_eq(resource_name, "Security") {
        "shield".to_owned()
    } else if str_eq(resource_name, "Audit Logs") {
        "scroll-text".to_owned()
    } else {
        "box".to_owned()
    }
}

/// Returns the Lucide icon for an action; unknown actions get `circle`.
pub fn action_icon(action_name: &str) -> (icon: String)
    ensures
        icon@ == action_icon_of(action_name@),
{
    if str_eq(action_name, "read") {
        "eye".to_owned()
    } else if str_eq(action_name, "create") {
        "plus".to_owned()
    } else if str_eq(action_name, "edit") {
        "pencil".to_owned()
    } else if str_eq(action_name, "delete") {
        "trash-2".to_owned()
    } else if str_eq(action_name, "approve") {
        "check-circle".to_owned()
    } else if str_eq(action_name, "print") {
        "printer".to_owned()
    } else if str_eq(action_name, "export") {
        "download".to_owned()
    } else {
        "circle".to_owned()
    }
}

/// Every role gets a non-empty color, known or not.
pub proof fn role_color_never_empty(role_name: Seq<char>)
    ensures
        role_color_of(role_name).len() > 0,
{
    reveal_strlit("#3b82f6");
    reveal_strlit("#10b981");
    reveal_strlit("#f59e0b");
    reveal_strlit("#8b5cf6");
    reveal_strlit("#06b6d4");
    reveal_strlit("#6b7280");
}

/// Every resource gets a non-empty icon, known or not.
pub proof fn resource_icon_never_empty(resource_name: Seq<char>)
    ensures
        resource_icon_of(resource_name).len() > 0,
{
    reveal_strlit("layout-dashboard");
    reveal_strlit("users");
    reveal_strlit("bar-chart-3");
    reveal_strlit("library-big");
    reveal_strlit("settings");
    reveal_strlit("download");
    reveal_strlit("printer");
    reveal_strlit("file-text");
    reveal_strlit("bell");
    reveal_strlit("shield");
    reveal_strlit("scroll-text");
    reveal_strlit("box");
}

} // verus!
