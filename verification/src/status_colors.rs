//! Theme colors for user status badges.
use vstd::prelude::*;

verus! {

/// Green.
pub const ACTIVE: &'static str = "#10b981";

/// Gray.
pub const INACTIVE: &'static str = "#6b7280";

/// Orange.
pub const PENDING: &'static str = "#f59e0b";

/// Red.
pub const BANNED: &'static str = "#ef4444";

} // verus!
