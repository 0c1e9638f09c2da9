//! Toasts and in-app notifications.
use vstd::prelude::*;

verus! {

broadcast use vstd::string::group_string_axioms;

/// Severity of a toast.
#[derive(Clone, Copy, Debug, PartialEq, Eq, Structural)]
pub enum ToastLevel {
    Success,
    Error,
    Warning,
    Info,
}

/// The CSS name of a toast level.
pub open spec fn toast_level_name(l: ToastLevel) -> Seq<char> {
    match l {
        ToastLevel::Success => "success"@,
        ToastLevel::Error => "error"@,
        ToastLevel::Warning => "warning"@,
        ToastLevel::Info => "info"@,
    }
}

impl ToastLevel {
    /// The CSS name of the level.
    pub fn as_str(&self) -> (s: &'static str)
        ensures
            s@ == toast_level_name(*self),
    {
        match self {
            ToastLevel::Success => "success",
            ToastLevel::Error => "error",
            ToastLevel::Warning => "warning",
            ToastLevel::Info => "info",
        }
    }
}

/// A toast on its way to the connected browsers.
pub struct ToastNotification {
    pub level: ToastLevel,
    pub message: String,
    /// The user it is for; `None` for everyone.
    pub user_id: Option<u128>,
}

/// Whether a browser logged in as `viewer` (if anyone) shows a toast meant
/// for `target`: broadcasts show everywhere, personal toasts only to their user.
pub open spec fn toast_visible(target: Option<u128>, viewer: Option<u128>) -> bool {
    target is None || (viewer is Some && target == viewer)
}

/// Decides whether a browser shows a toast.
pub fn should_show_toast(target: Option<u128>, viewer: Option<u128>) -> (show: bool)
    ensures
        show == toast_visible(target, viewer),
{
    match target {
        None => true,
        Some(t) => match viewer {
            Some(v) => t == v,
            None => false,
        },
    }
}

/// A personal toast never reaches another user nor an anonymous browser.
pub proof fn personal_toasts_stay_personal(target: u128, viewer: Option<u128>)
    ensures
        toast_visible(Some(target), viewer) <==> viewer == Some(target),
{
}

/// A toast without a recipient reaches every connected viewer, logged in or not.
pub proof fn broadcast_toasts_reach_everyone(viewer: Option<u128>)
    ensures
        toast_visible(None, viewer),
{
}

/// A toast for one user.
pub fn personal_toast(user_id: u128, level: ToastLevel, message: String) -> (t: ToastNotification)
    ensures
        t.level == level,
        t.message == message,
        t.user_id == Some(user_id),
{
    ToastNotification { level, message, user_id: Some(user_id) }
}

/// A toast for everyone.
pub fn broadcast_toast(level: ToastLevel, message: String) -> (t: ToastNotification)
    ensures
        t.level == level,
        t.message == message,
        t.user_id is None,
{
    ToastNotification { level, message, user_id: None }
}

/// A toast for the user if there is one; nothing for an anonymous request.
pub fn toast(user_id: Option<u128>, level: ToastLevel, message: String) -> (t: Option<
    ToastNotification,
>)
    ensures
        match user_id {
            Some(u) => t is Some && t->0.user_id == Some(u) && t->0.level == level && t->0.message
                == message,
            None => t is None,
        },
{
    match user_id {
        Some(u) => Some(personal_toast(u, level, message)),
        None => None,
    }
}

/// Kind of an in-app notification.
#[derive(Clone, Copy, Debug, PartialEq, Eq, Structural)]
pub enum NotificationType {
    Info,
    Success,
    Warning,
    Error,
}

/// The stored name of a notification kind.
pub open spec fn notification_type_name(t: NotificationType) -> Seq<char> {
    match t {
        NotificationType::Info => "info"@,
        NotificationType::Success => "success"@,
        NotificationType::Warning => "warning"@,
        NotificationType::Error => "error"@,
    }
}

impl NotificationType {
    /// The stored name of the kind.
    pub fn as_str(&self) -> (s: &'static str)
        ensures
            s@ == notification_type_name(*self),
    {
        match self {
            NotificationType::Info => "info",
            NotificationType::Success => "success",
            NotificationType::Warning => "warning",
            NotificationType::Error => "error",
        }
    }
}

} // verus!
