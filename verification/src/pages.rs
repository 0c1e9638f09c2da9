//! Page-level decisions: full page or HTMX fragment, error page links and
//! the checks of the password forms.
use vstd::prelude::*;
use crate::text::{str_eq, to_chars, starts_with, has_prefix, parse_u64, parsed_u64};
use vstd::string::StringSliceAdditionalSpecFns;

verus! {

broadcast use vstd::string::group_string_axioms;

/// Whether a request gets the page fragment instead of the full page: an
/// HTMX request, not boosted, that does not target the whole layout.
pub open spec fn wants_fragment(is_hx_request: bool, is_boosted: bool, target: Seq<char>) -> bool {
    is_hx_request && !is_boosted && target != "app-layout"@ && target != "#app-layout"@
}

/// Decides between fragment and full page; a missing or unreadable
/// `HX-Target` counts as empty.
pub fn render_partial(is_hx_request: bool, is_boosted: bool, target: Option<&str>) -> (partial: bool)
    ensures
        partial == wants_fragment(
            is_hx_request,
            is_boosted,
            match target {
                Some(t) => t@,
                None => Seq::empty(),
            },
        ),
{
    let t = match target {
        Some(t) => t,
        None => "",
    };
    proof {
        reveal_strlit("");
        assert(""@ =~= Seq::<char>::empty());
    }
    is_hx_request && !is_boosted && !str_eq(t, "app-layout") && !str_eq(t, "#app-layout")
}

/// The "back home" link of the 404 page: the admin home for admin paths.
pub fn not_found_home_link(path: &str) -> (link: String)
    ensures
        link@ == (if has_prefix(path@, "/admin"@) {
            "/admin"@
        } else {
            "/"@
        }),
{
    let p = to_chars(path);
    let prefix = to_chars("/admin");
    if starts_with(&p, &prefix) {
        "/admin".to_owned()
    } else {
        "/".to_owned()
    }
}

/// Seconds to wait after a rate-limit refusal: the `Retry-After` header when
/// it is a number, else one minute.
pub fn retry_after_secs(header: Option<&str>) -> (secs: u64)
    ensures
        secs == (match header {
            Some(h) => match parsed_u64(h@) {
                Some(n) => n,
                None => 60,
            },
            None => 60,
        }),
{
    match header {
        Some(h) => match parse_u64(h) {
            Some(n) => n,
            None => 60,
        },
        None => 60,
    }
}

/// What is wrong with a new password.
#[derive(Clone, Copy, PartialEq, Eq, Structural, Debug)]
pub enum PasswordProblem {
    /// The confirmation differs.
    Mismatch,
    /// Shorter than 8 bytes.
    TooShort,
}

/// The check of a new password and its confirmation: equal, and at least 8
/// bytes long (the confirmation is checked first).
pub open spec fn password_problem(new: Seq<char>, new_bytes: nat, confirm: Seq<char>) -> Option<
    PasswordProblem,
> {
    if new != confirm {
        Some(PasswordProblem::Mismatch)
    } else if new_bytes < 8 {
        Some(PasswordProblem::TooShort)
    } else {
        None
    }
}

/// Checks a new password and its confirmation.
pub fn check_new_password(new: &str, confirm: &str) -> (p: Option<PasswordProblem>)
    ensures
        p == password_problem(new@, new.spec_bytes().len(), confirm@),
{
    if !str_eq(new, confirm) {
        Some(PasswordProblem::Mismatch)
    } else if new.as_bytes().len() < 8 {
        Some(PasswordProblem::TooShort)
    } else {
        None
    }
}

/// Why the profile's password form was refused.
#[derive(Clone, Copy, PartialEq, Eq, Structural)]
pub enum ProfilePasswordError {
    Mismatch,
    TooShort,
    WrongCurrent,
}

impl ProfilePasswordError {
    /// The message shown in the form.
    pub fn message(&self) -> (m: &'static str)
        ensures
            m@ == (match *self {
                ProfilePasswordError::Mismatch => "As senhas não coincidem"@,
                ProfilePasswordError::TooShort => "A senha deve ter pelo menos 8 caracteres"@,
                ProfilePasswordError::WrongCurrent => "Senha atual incorreta"@,
            }),
    {
        match self {
            ProfilePasswordError::Mismatch => "As senhas não coincidem",
            ProfilePasswordError::TooShort => "A senha deve ter pelo menos 8 caracteres",
            ProfilePasswordError::WrongCurrent => "Senha atual incorreta",
        }
    }

    /// Where a plain (non-HTMX) form submission is sent back to.
    pub fn redirect(&self) -> (r: &'static str)
        ensures
            r@ == (match *self {
                ProfilePasswordError::Mismatch => "/admin/profile?error=As+senhas+n%C3%A3o+coincidem"@,
                ProfilePasswordError::TooShort => "/admin/profile?error=Senha+muito+curta"@,
                ProfilePasswordError::WrongCurrent => "/admin/profile?error=Senha+incorreta"@,
            }),
    {
        match self {
            ProfilePasswordError::Mismatch => "/admin/profile?error=As+senhas+n%C3%A3o+coincidem",
            ProfilePasswordError::TooShort => "/admin/profile?error=Senha+muito+curta",
            ProfilePasswordError::WrongCurrent => "/admin/profile?error=Senha+incorreta",
        }
    }
}

/// The profile's password change: the new password is checked first, then
/// the current one (`current_ok` says whether it verified).
pub fn profile_password_change(new: &str, confirm: &str, current_ok: bool) -> (r: Result<
    (),
    ProfilePasswordError,
>)
    ensures
        r == (match password_problem(new@, new.spec_bytes().len(), confirm@) {
            Some(PasswordProblem::Mismatch) => Err(ProfilePasswordError::Mismatch),
            Some(PasswordProblem::TooShort) => Err(ProfilePasswordError::TooShort),
            None => if current_ok {
                Ok(())
            } else {
                Err(ProfilePasswordError::WrongCurrent)
            },
        }),
{
    match check_new_password(new, confirm) {
        Some(PasswordProblem::Mismatch) => Err(ProfilePasswordError::Mismatch),
        Some(PasswordProblem::TooShort) => Err(ProfilePasswordError::TooShort),
        None => if current_ok {
            Ok(())
        } else {
            Err(ProfilePasswordError::WrongCurrent)
        },
    }
}

/// The message of the password reset form for a problem.
pub fn reset_password_message(p: PasswordProblem) -> (m: &'static str)
    ensures
        m@ == (match p {
            PasswordProblem::Mismatch => "Passwords do not match."@,
            PasswordProblem::TooShort => "Password must be at least 8 characters."@,
        }),
{
    match p {
        PasswordProblem::Mismatch => "Passwords do not match.",
        PasswordProblem::TooShort => "Password must be at least 8 characters.",
    }
}

/// A reset link is expired once its expiry lies strictly in the past.
pub fn reset_link_expired(expires_at: i64, now: i64) -> (expired: bool)
    ensures
        expired == (expires_at < now),
{
    expires_at < now
}

/// The success banner of the profile page, shown whenever `success` is in the query.
pub fn profile_success_message(success: Option<String>) -> (m: Option<String>)
    ensures
        m is Some == success is Some,
        m is Some ==> m->0@ == "Changes saved successfully."@,
{
    match success {
        Some(_) => Some("Changes saved successfully.".to_owned()),
        None => None,
    }
}

/// The profile form.
pub struct UpdateProfileParams {
    pub name: String,
    pub email: String,
}

/// The password form of the profile.
pub struct UpdatePasswordParams {
    pub current_password: String,
    pub new_password: String,
    pub confirm_password: String,
}

impl UpdatePasswordParams {
    /// The password change, given whether the current password verified.
    pub fn check(&self, current_ok: bool) -> (r: Result<(), ProfilePasswordError>)
        ensures
            r == (match password_problem(
                self.new_password@,
                vstd::utf8::encode_utf8(self.new_password@).len(),
                self.confirm_password@,
            ) {
                Some(PasswordProblem::Mismatch) => Err(ProfilePasswordError::Mismatch),
                Some(PasswordProblem::TooShort) => Err(ProfilePasswordError::TooShort),
                None => if current_ok {
                    Ok(())
                } else {
                    Err(ProfilePasswordError::WrongCurrent)
                },
            }),
    {
        profile_password_change(self.new_password.as_str(), self.confirm_password.as_str(), current_ok)
    }
}

/// The query string of the profile page.
pub struct ProfileQueryParams {
    pub success: Option<String>,
    pub error: Option<String>,
}

/// The "forgot password" form.
pub struct ForgotPasswordParams {
    pub email: String,
}

/// The link of a password reset email.
pub struct ResetPasswordPageParams {
    pub token: String,
}

/// The password reset form.
pub struct ResetPasswordSubmitParams {
    pub token: String,
    pub password: String,
    pub confirm_password: String,
}

/// What the password reset form's submission comes to.
#[derive(Clone, Copy, PartialEq, Eq, Structural, Debug)]
pub enum ResetOutcome {
    /// The new password is refused; the form is shown again.
    Problem(PasswordProblem),
    /// The token's link has expired.
    LinkExpired,
    /// No reset is pending under the token.
    InvalidToken,
    /// The password may be changed.
    Proceed,
}

/// The decision on a reset submission: the new password is checked first;
/// then the token must name a pending reset whose expiry is not in the past.
/// `expires_at` is the expiry of the reset stored under the token, if any.
pub open spec fn reset_outcome(
    problem: Option<PasswordProblem>,
    expires_at: Option<i64>,
    now: i64,
) -> ResetOutcome {
    match problem {
        Some(p) => ResetOutcome::Problem(p),
        None => match expires_at {
            None => ResetOutcome::InvalidToken,
            Some(e) => if e < now {
                ResetOutcome::LinkExpired
            } else {
                ResetOutcome::Proceed
            },
        },
    }
}

impl ResetOutcome {
    /// The message shown for the outcome; none when the change proceeds.
    pub fn message(&self) -> (m: Option<&'static str>)
        ensures
            match *self {
                ResetOutcome::Problem(PasswordProblem::Mismatch) => m matches Some(t) && t@
                    == "Passwords do not match."@,
                ResetOutcome::Problem(PasswordProblem::TooShort) => m matches Some(t) && t@
                    == "Password must be at least 8 characters."@,
                ResetOutcome::LinkExpired => m matches Some(t) && t@ == "Link expired."@,
                ResetOutcome::InvalidToken => m matches Some(t) && t@
                    == "Invalid or expired token."@,
                ResetOutcome::Proceed => m is None,
            },
    {
        match self {
            ResetOutcome::Problem(p) => Some(reset_password_message(*p)),
            ResetOutcome::LinkExpired => Some("Link expired."),
            ResetOutcome::InvalidToken => Some("Invalid or expired token."),
            ResetOutcome::Proceed => None,
        }
    }
}

impl ResetPasswordSubmitParams {
    /// Decides the submission, given the expiry of the reset stored under
    /// the form's token (`None` when there is none) and the current time.
    pub fn outcome(&self, expires_at: Option<i64>, now: i64) -> (o: ResetOutcome)
        ensures
            o == reset_outcome(
                password_problem(
                    self.password@,
                    vstd::utf8::encode_utf8(self.password@).len(),
                    self.confirm_password@,
                ),
                expires_at,
                now,
            ),
    {
        match self.check() {
            Some(p) => ResetOutcome::Problem(p),
            None => match expires_at {
                None => ResetOutcome::InvalidToken,
                Some(e) => if reset_link_expired(e, now) {
                    ResetOutcome::LinkExpired
                } else {
                    ResetOutcome::Proceed
                },
            },
        }
    }

    /// The check of the new password.
    pub fn check(&self) -> (p: Option<PasswordProblem>)
        ensures
            p == password_problem(
                self.password@,
                vstd::utf8::encode_utf8(self.password@).len(),
                self.confirm_password@,
            ),
    {
        check_new_password(self.password.as_str(), self.confirm_password.as_str())
    }
}

} // verus!
