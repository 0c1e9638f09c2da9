//! Request data of the handlers and the rules it is validated against.
use vstd::prelude::*;
use crate::text::{to_chars, from_chars, str_eq, opt_view};
use crate::security::{sanitize_html, ammonia_cleaned};
use crate::ids::{parse_uuid, uuid_parsed};
use crate::pagination::page_count;
use chrono::Datelike;

verus! {

broadcast use vstd::string::group_string_axioms;

// ---------------------------------------------------------------------------
// Validation errors
// ---------------------------------------------------------------------------

/// One failed rule: the field, the rule's code and the message for the user.
pub struct FieldError {
    pub field: String,
    pub code: String,
    pub message: String,
}

/// The failed rules of a form, in field order.
pub struct ValidationErrors {
    pub errors: Vec<FieldError>,
}

/// A failed rule as text: (field, code, message).
pub type ErrorView = (Seq<char>, Seq<char>, Seq<char>);

impl ValidationErrors {
    /// The failed rules as text.
    pub open spec fn view_errors(&self) -> Seq<ErrorView> {
        self.errors@.map_values(|e: FieldError| (e.field@, e.code@, e.message@))
    }

    fn push(&mut self, field: &str, code: &str, message: &str)
        ensures
            final(self).view_errors() == old(self).view_errors().push((field@, code@, message@)),
    {
        self.errors.push(
            FieldError { field: field.to_owned(), code: code.to_owned(), message: message.to_owned() },
        );
        assert(self.view_errors() =~= old(self).view_errors().push((field@, code@, message@)));
    }

    /// The messages joined with `"; "`, as the error page shows them.
    pub fn joined_messages(&self) -> (s: String)
        ensures
            s@ == joined(self.errors@.map_values(|e: FieldError| e.message@)),
    {
        let ghost msgs = self.errors@.map_values(|e: FieldError| e.message@);
        let mut v: Vec<char> = Vec::new();
        for i in 0..self.errors.len()
            invariant
                msgs == self.errors@.map_values(|e: FieldError| e.message@),
                v@ == joined(msgs.take(i as int)),
        {
            assert(msgs.take(i + 1).drop_last() == msgs.take(i as int));
            if i > 0 {
                crate::text::push_str(&mut v, "; ");
            }
            crate::text::push_str(&mut v, self.errors[i].message.as_str());
            proof {
                reveal_strlit("; ");
                if i == 0 {
                    assert(msgs.take(0) =~= Seq::<Seq<char>>::empty());
                }
            }
        }
        assert(msgs.take(self.errors.len() as int) == msgs);
        from_chars(&v)
    }
}

/// The texts separated by `"; "`.
pub open spec fn joined(parts: Seq<Seq<char>>) -> Seq<char>
    decreases parts.len(),
{
    if parts.len() == 0 {
        Seq::empty()
    } else if parts.len() == 1 {
        parts[0]
    } else {
        joined(parts.drop_last()) + "; "@ + parts.last()
    }
}

/// A length rule: fails when the number of characters is outside `[min, max]`.
pub open spec fn length_rule(
    field: Seq<char>,
    value: Seq<char>,
    min: nat,
    max: Option<nat>,
    message: Seq<char>,
) -> Seq<ErrorView> {
    let n = value.len();
    if n < min || (max is Some && n > max->0) {
        seq![(field, "length"@, message)]
    } else {
        Seq::empty()
    }
}

fn check_length(
    errs: &mut ValidationErrors,
    field: &str,
    value: &String,
    min: usize,
    max: Option<usize>,
    message: &str,
)
    ensures
        final(errs).view_errors() == old(errs).view_errors() + length_rule(
            field@,
            value@,
            min as nat,
            match max {
                Some(m) => Some(m as nat),
                None => None,
            },
            message@,
        ),
{
    let n = to_chars(value.as_str()).len();
    let too_long = match max {
        Some(m) => n > m,
        None => false,
    };
    if n < min || too_long {
        errs.push(field, "length", message);
    } else {
        assert(old(errs).view_errors() + Seq::<ErrorView>::empty() =~= old(errs).view_errors());
    }
    proof {
        reveal_strlit("length");
    }
    assert(errs.view_errors() =~= old(errs).view_errors() + length_rule(
        field@,
        value@,
        min as nat,
        match max {
            Some(m) => Some(m as nat),
            None => None,
        },
        message@,
    ));
}

// ---------------------------------------------------------------------------
// Field rules
// ---------------------------------------------------------------------------

/// Whether `c` may stand in a username: an ASCII letter, an ASCII digit or `_`.
pub open spec fn username_char(c: char) -> bool {
    ('a' <= c && c <= 'z') || ('A' <= c && c <= 'Z') || ('0' <= c && c <= '9') || c == '_'
}

/// The username shape: one or more letters, digits or underscores.
pub open spec fn username_shape(s: Seq<char>) -> bool {
    s.len() > 0 && forall|i: int| 0 <= i < s.len() ==> username_char(#[trigger] s[i])
}

/// Whether a username has the required shape.
pub fn username_matches(user: &str) -> (r: bool)
    ensures
        r == username_shape(user@),
{
    let v = to_chars(user);
    if v.len() == 0 {
        return false;
    }
    for i in 0..v.len()
        invariant
            v@ == user@,
            forall|j: int| 0 <= j < i ==> username_char(#[trigger] v@[j]),
    {
        let c = v[i];
        if !(('a' <= c && c <= 'z') || ('A' <= c && c <= 'Z') || ('0' <= c && c <= '9') || c == '_') {
            assert(!username_char(v@[i as int]));
            return false;
        }
    }
    true
}

/// The username rule.
pub open spec fn username_rule(user: Seq<char>) -> Seq<ErrorView> {
    if username_shape(user) {
        Seq::empty()
    } else {
        seq![
            ("user"@, "regex"@, "Usuário deve conter apenas letras, números e _"@),
        ]
    }
}

/// Whether validator's email check (the HTML5 address form) accepts `s`.
pub uninterp spec fn email_accepted(s: Seq<char>) -> bool;

/// `validator::ValidateEmail::validate_email`: the HTML5 address rules of
/// validator. Its result is named `email_accepted`; the source refuses any
/// text without an `@` before looking further, which is all that is stated here.
#[verifier::external_body]
pub(crate) fn validate_email(s: &str) -> (ok: bool)
    ensures
        ok == email_accepted(s@),
        ok ==> s@.contains('@'),
{
    validator::ValidateEmail::validate_email(&s)
}

/// The email rule.
pub open spec fn email_rule(email: Seq<char>) -> Seq<ErrorView> {
    if email_accepted(email) {
        Seq::empty()
    } else {
        seq![("email"@, "email"@, "Email inválido"@)]
    }
}

/// The status rule: `Active` or `Inactive`.
pub open spec fn status_rule(status: Seq<char>) -> Seq<ErrorView> {
    if status == "Active"@ || status == "Inactive"@ {
        Seq::empty()
    } else {
        seq![("status"@, "invalid_status"@, "Status deve ser 'Active' ou 'Inactive'"@)]
    }
}

/// Accepts `Active` and `Inactive`; anything else fails with code
/// `invalid_status` and a message.
pub fn validate_status(status: &str) -> (r: Result<(), FieldError>)
    ensures
        (r is Ok) == (status@ == "Active"@ || status@ == "Inactive"@),
        r matches Err(e) ==> (e.field@, e.code@, e.message@) == status_rule(status@)[0],
{
    if str_eq(status, "Active") || str_eq(status, "Inactive") {
        Ok(())
    } else {
        Err(
            FieldError {
                field: "status".to_owned(),
                code: "invalid_status".to_owned(),
                message: "Status deve ser 'Active' ou 'Inactive'".to_owned(),
            },
        )
    }
}

fn check_username(errs: &mut ValidationErrors, user: &String)
    ensures
        final(errs).view_errors() == old(errs).view_errors() + username_rule(user@),
{
    if !username_matches(user.as_str()) {
        errs.push("user", "regex", "Usuário deve conter apenas letras, números e _");
    }
    assert(errs.view_errors() =~= old(errs).view_errors() + username_rule(user@));
}

fn check_email(errs: &mut ValidationErrors, email: &String)
    ensures
        final(errs).view_errors() == old(errs).view_errors() + email_rule(email@),
{
    if !validate_email(email.as_str()) {
        errs.push("email", "email", "Email inválido");
    }
    assert(errs.view_errors() =~= old(errs).view_errors() + email_rule(email@));
}

fn check_status(errs: &mut ValidationErrors, status: &String)
    ensures
        final(errs).view_errors() == old(errs).view_errors() + status_rule(status@),
{
    if validate_status(status.as_str()).is_err() {
        errs.push("status", "invalid_status", "Status deve ser 'Active' ou 'Inactive'");
    }
    assert(errs.view_errors() =~= old(errs).view_errors() + status_rule(status@));
}

fn finish(errs: ValidationErrors) -> (r: Result<(), ValidationErrors>)
    ensures
        match r {
            Ok(()) => errs.view_errors().len() == 0,
            Err(e) => e.view_errors() == errs.view_errors() && errs.view_errors().len() > 0,
        },
{
    if errs.errors.len() == 0 {
        Ok(())
    } else {
        Err(errs)
    }
}

/// How a validation turned out against the failed rules it should report.
pub open spec fn validation_matches(r: Result<(), ValidationErrors>, expected: Seq<ErrorView>) -> bool {
    match r {
        Ok(()) => expected.len() == 0,
        Err(e) => e.view_errors() == expected && expected.len() > 0,
    }
}

// ---------------------------------------------------------------------------
// User forms
// ---------------------------------------------------------------------------

/// The user creation form.
pub struct CreateUserParams {
    pub name: String,
    pub user: String,
    pub email: String,
    pub password: String,
    pub status: String,
    /// Role ids as submitted (one per `role_ids` field).
    pub role_ids: Vec<String>,
}

/// The failed rules of a creation form: name 2 to 100 characters, username 3
/// to 50 letters, digits or underscores, a valid email, a password of
/// at least 8 characters and a known status.
pub open spec fn create_user_errors(p: CreateUserParams) -> Seq<ErrorView> {
    length_rule("name"@, p.name@, 2, Some(100), "Nome deve ter entre 2 e 100 caracteres"@)
        + length_rule("user"@, p.user@, 3, Some(50), "Usuário deve ter entre 3 e 50 caracteres"@)
        + username_rule(p.user@) + email_rule(p.email@) + length_rule(
        "password"@,
        p.password@,
        8,
        None,
        "Senha deve ter no mínimo 8 caracteres"@,
    ) + status_rule(p.status@)
}

impl CreateUserParams {
    /// Checks the form against its rules.
    pub fn validate(&self) -> (r: Result<(), ValidationErrors>)
        ensures
            validation_matches(r, create_user_errors(*self)),
    {
        let mut errs = ValidationErrors { errors: Vec::new() };
        assert(errs.view_errors() =~= Seq::<ErrorView>::empty());
        check_length(
            &mut errs,
            "name",
            &self.name,
            2,
            Some(100),
            "Nome deve ter entre 2 e 100 caracteres",
        );
        check_length(
            &mut errs,
            "user",
            &self.user,
            3,
            Some(50),
            "Usuário deve ter entre 3 e 50 caracteres",
        );
        check_username(&mut errs, &self.user);
        check_email(&mut errs, &self.email);
        check_length(
            &mut errs,
            "password",
            &self.password,
            8,
            None,
            "Senha deve ter no mínimo 8 caracteres",
        );
        check_status(&mut errs, &self.status);
        assert(errs.view_errors() =~= create_user_errors(*self));
        finish(errs)
    }
}

/// The user edition form; an empty password keeps the current one.
pub struct UserUpdateParams {
    pub name: String,
    pub user: String,
    pub email: String,
    pub password: Option<String>,
    pub status: String,
    pub role_ids: Vec<String>,
}

/// The rule on the password of an edition form: none given keeps the current
/// one; a given one needs 8 characters, as on creation.
pub open spec fn optional_password_rule(password: Option<Seq<char>>) -> Seq<ErrorView> {
    match password {
        Some(pw) => length_rule("password"@, pw, 8, None, "Senha deve ter no mínimo 8 caracteres"@),
        None => Seq::empty(),
    }
}

/// The failed rules of an edition form: as for creation, where the password
/// is checked only when one is given.
pub open spec fn update_user_errors(p: UserUpdateParams) -> Seq<ErrorView> {
    length_rule("name"@, p.name@, 2, Some(100), "Nome deve ter entre 2 e 100 caracteres"@)
        + length_rule("user"@, p.user@, 3, Some(50), "Usuário deve ter entre 3 e 50 caracteres"@)
        + username_rule(p.user@) + email_rule(p.email@) + optional_password_rule(opt_view(p.password))
        + status_rule(p.status@)
}

impl UserUpdateParams {
    /// Checks the form against its rules.
    pub fn validate(&self) -> (r: Result<(), ValidationErrors>)
        ensures
            validation_matches(r, update_user_errors(*self)),
    {
        let mut errs = ValidationErrors { errors: Vec::new() };
        assert(errs.view_errors() =~= Seq::<ErrorView>::empty());
        check_length(
            &mut errs,
            "name",
            &self.name,
            2,
            Some(100),
            "Nome deve ter entre 2 e 100 caracteres",
        );
        check_length(
            &mut errs,
            "user",
            &self.user,
            3,
            Some(50),
            "Usuário deve ter entre 3 e 50 caracteres",
        );
        check_username(&mut errs, &self.user);
        check_email(&mut errs, &self.email);
        match &self.password {
            Some(pw) => {
                check_length(
                    &mut errs,
                    "password",
                    pw,
                    8,
                    None,
                    "Senha deve ter no mínimo 8 caracteres",
                );
            },
            None => {
                assert(errs.view_errors() + Seq::<ErrorView>::empty() =~= errs.view_errors());
            },
        }
        check_status(&mut errs, &self.status);
        assert(errs.view_errors() =~= update_user_errors(*self));
        finish(errs)
    }
}

// ---------------------------------------------------------------------------
// Reading a user form body
// ---------------------------------------------------------------------------

/// What `serde_urlencoded::from_str::<Vec<(String, String)>>` reads from a
/// form body: the decoded `key=value` pairs, in order.
pub uninterp spec fn urlencoded_pairs(body: Seq<char>) -> Option<Seq<(Seq<char>, Seq<char>)>>;

/// The text of a list of pairs.
pub open spec fn pairs_view(v: Seq<(String, String)>) -> Seq<(Seq<char>, Seq<char>)> {
    v.map_values(|p: (String, String)| (p.0@, p.1@))
}

/// `serde_urlencoded::from_str::<Vec<(String, String)>>`, with the error as
/// `None`. Its result is named `urlencoded_pairs`.
#[verifier::external_body]
pub(crate) fn parse_form_pairs(body: &str) -> (r: Option<Vec<(String, String)>>)
    ensures
        match r {
            Some(v) => urlencoded_pairs(body@) == Some(pairs_view(v@)),
            None => urlencoded_pairs(body@) is None,
        },
{
    serde_urlencoded::from_str::<Vec<(String, String)>>(body).ok()
}

/// The value of the last pair with key `key`, or the empty text.
pub open spec fn last_value(pairs: Seq<(Seq<char>, Seq<char>)>, key: Seq<char>) -> Seq<char>
    decreases pairs.len(),
{
    if pairs.len() == 0 {
        Seq::empty()
    } else if pairs.last().0 == key {
        pairs.last().1
    } else {
        last_value(pairs.drop_last(), key)
    }
}

/// The values of all pairs with key `key`, in order.
pub open spec fn all_values(pairs: Seq<(Seq<char>, Seq<char>)>, key: Seq<char>) -> Seq<Seq<char>>
    decreases pairs.len(),
{
    if pairs.len() == 0 {
        Seq::empty()
    } else if pairs.last().0 == key {
        all_values(pairs.drop_last(), key).push(pairs.last().1)
    } else {
        all_values(pairs.drop_last(), key)
    }
}

/// The fields of a user form, before sanitizing.
pub struct UserFormFields {
    pub name: String,
    pub user: String,
    pub email: String,
    pub password: String,
    pub status: String,
    pub role_ids: Vec<String>,
}

/// Whether `f` holds what the pairs say: each field from its last pair
/// (empty when absent), every `role_ids` pair in order.
pub open spec fn fields_of(f: UserFormFields, pairs: Seq<(Seq<char>, Seq<char>)>) -> bool {
    &&& f.name@ == last_value(pairs, "name"@)
    &&& f.user@ == last_value(pairs, "user"@)
    &&& f.email@ == last_value(pairs, "email"@)
    &&& f.password@ == last_value(pairs, "password"@)
    &&& f.status@ == last_value(pairs, "status"@)
    &&& f.role_ids@.map_values(|s: String| s@) == all_values(pairs, "role_ids"@)
}

/// Reads the fields of a user form body; a body that does not parse reads
/// as no pairs at all.
pub fn read_user_form(body: &str) -> (f: UserFormFields)
    ensures
        fields_of(
            f,
            match urlencoded_pairs(body@) {
                Some(p) => p,
                None => Seq::empty(),
            },
        ),
{
    let pairs: Vec<(String, String)> = match parse_form_pairs(body) {
        Some(v) => v,
        None => Vec::new(),
    };
    let ghost pv = pairs_view(pairs@);
    let mut f = UserFormFields {
        name: String::new(),
        user: String::new(),
        email: String::new(),
        password: String::new(),
        status: String::new(),
        role_ids: Vec::new(),
    };
    assert(pv.take(0) =~= Seq::<(Seq<char>, Seq<char>)>::empty());
    assert(f.role_ids@.map_values(|s: String| s@) =~= Seq::<Seq<char>>::empty());
    proof {
        reveal_strlit("name");
        reveal_strlit("user");
        reveal_strlit("email");
        reveal_strlit("password");
        reveal_strlit("status");
        reveal_strlit("role_ids");
        assert("name"@[0] == 'n');
        assert("user"@[0] == 'u');
        assert("email"@[0] == 'e');
        assert("password"@[0] == 'p');
        assert("status"@[0] == 's');
        assert("role_ids"@[0] == 'r');
    }
    for i in 0..pairs.len()
        invariant
            pv == pairs_view(pairs@),
            fields_of(f, pv.take(i as int)),
            "name"@ != "user"@,
            "name"@ != "email"@,
            "name"@ != "password"@,
            "name"@ != "status"@,
            "name"@ != "role_ids"@,
            "user"@ != "email"@,
            "user"@ != "password"@,
            "user"@ != "status"@,
            "user"@ != "role_ids"@,
            "email"@ != "password"@,
            "email"@ != "status"@,
            "email"@ != "role_ids"@,
            "password"@ != "status"@,
            "password"@ != "role_ids"@,
            "status"@ != "role_ids"@,
    {
        let ghost prev = pv.take(i as int);
        assert(pv.take(i + 1).drop_last() == prev);
        assert(pv.take(i + 1).last() == (pairs@[i as int].0@, pairs@[i as int].1@));
        let k = pairs[i].0.as_str();
        let val = pairs[i].1.clone();
        if str_eq(k, "name") {
            f.name = val;
        } else if str_eq(k, "user") {
            f.user = val;
        } else if str_eq(k, "email") {
            f.email = val;
        } else if str_eq(k, "password") {
            f.password = val;
        } else if str_eq(k, "status") {
            f.status = val;
        } else if str_eq(k, "role_ids") {
            let ghost before = f.role_ids@;
            f.role_ids.push(val);
            assert(f.role_ids@.map_values(|s: String| s@) =~= before.map_values(|s: String| s@).push(
                val@,
            ));
        }
    }
    assert(pv.take(pairs.len() as int) == pv);
    f
}

/// The role ids that parse as UUIDs, in order.
pub open spec fn parsed_ids(ids: Seq<Seq<char>>) -> Seq<u128>
    decreases ids.len(),
{
    if ids.len() == 0 {
        Seq::empty()
    } else {
        let rest = parsed_ids(ids.drop_last());
        match uuid_parsed(ids.last()) {
            Some(id) => rest.push(id),
            None => rest,
        }
    }
}

/// Parses the submitted role ids, dropping those that are not UUIDs.
pub fn parse_role_ids(ids: &Vec<String>) -> (r: Vec<u128>)
    ensures
        r@ == parsed_ids(ids@.map_values(|s: String| s@)),
{
    let ghost iv = ids@.map_values(|s: String| s@);
    let mut r: Vec<u128> = Vec::new();
    for i in 0..ids.len()
        invariant
            iv == ids@.map_values(|s: String| s@),
            r@ == parsed_ids(iv.take(i as int)),
    {
        assert(iv.take(i + 1).drop_last() == iv.take(i as int));
        assert(iv.take(i + 1).last() == ids@[i as int]@);
        match parse_uuid(ids[i].as_str()) {
            Some(id) => r.push(id),
            None => {},
        }
    }
    assert(iv.take(ids.len() as int) == iv);
    r
}

/// Why a user form is refused.
pub enum UserFormError {
    /// Some fields break their rules.
    Invalid(ValidationErrors),
    /// No valid role was selected.
    NoRoleSelected,
}

/// The creation form as a body reads: name, username and email sanitized.
pub open spec fn create_params_of(p: CreateUserParams, f: UserFormFields) -> bool {
    &&& p.name@ == ammonia_cleaned(f.name@)
    &&& p.user@ == ammonia_cleaned(f.user@)
    &&& p.email@ == ammonia_cleaned(f.email@)
    &&& p.password@ == f.password@
    &&& p.status@ == f.status@
    &&& p.role_ids@.map_values(|s: String| s@) == f.role_ids@.map_values(|s: String| s@)
}

/// Prepares a user creation from the form's fields: sanitizes name,
/// username and email, checks the rules, then requires at least one role id
/// that parses.
pub fn prepare_user_creation(f: UserFormFields) -> (r: Result<(CreateUserParams, Vec<u128>), UserFormError>)
    ensures
        exists|p: CreateUserParams|
            #![trigger create_params_of(p, f)]
            create_params_of(p, f) && {
                let errs = create_user_errors(p);
                let ids = parsed_ids(p.role_ids@.map_values(|s: String| s@));
                match r {
                    Err(UserFormError::Invalid(e)) => errs.len() > 0 && e.view_errors() == errs,
                    Err(UserFormError::NoRoleSelected) => errs.len() == 0 && ids.len() == 0,
                    Ok((q, v)) => errs.len() == 0 && ids.len() > 0 && q == p && v@ == ids,
                }
            },
{
    let p = CreateUserParams {
        name: sanitize_html(f.name.as_str()),
        user: sanitize_html(f.user.as_str()),
        email: sanitize_html(f.email.as_str()),
        password: f.password,
        status: f.status,
        role_ids: f.role_ids,
    };
    assert(create_params_of(p, f));
    match p.validate() {
        Err(e) => Err(UserFormError::Invalid(e)),
        Ok(()) => {
            let ids = parse_role_ids(&p.role_ids);
            if ids.len() == 0 {
                Err(UserFormError::NoRoleSelected)
            } else {
                Ok((p, ids))
            }
        },
    }
}

/// The edition form as a body reads: name, username and email sanitized, an
/// empty password meaning "keep the current one".
pub open spec fn update_params_of(p: UserUpdateParams, f: UserFormFields) -> bool {
    &&& p.name@ == ammonia_cleaned(f.name@)
    &&& p.user@ == ammonia_cleaned(f.user@)
    &&& p.email@ == ammonia_cleaned(f.email@)
    &&& opt_view(p.password) == (if f.password@.len() == 0 {
        None
    } else {
        Some(f.password@)
    })
    &&& p.status@ == f.status@
    &&& p.role_ids@.map_values(|s: String| s@) == f.role_ids@.map_values(|s: String| s@)
}

/// Prepares a user edition from the form's fields, as for creation.
pub fn prepare_user_update(f: UserFormFields) -> (r: Result<(UserUpdateParams, Vec<u128>), UserFormError>)
    ensures
        exists|p: UserUpdateParams|
            #![trigger update_params_of(p, f)]
            update_params_of(p, f) && {
                let errs = update_user_errors(p);
                let ids = parsed_ids(p.role_ids@.map_values(|s: String| s@));
                match r {
                    Err(UserFormError::Invalid(e)) => errs.len() > 0 && e.view_errors() == errs,
                    Err(UserFormError::NoRoleSelected) => errs.len() == 0 && ids.len() == 0,
                    Ok((q, v)) => errs.len() == 0 && ids.len() > 0 && q == p && v@ == ids,
                }
            },
{
    let password = if f.password.as_str().is_empty() {
        None
    } else {
        Some(f.password)
    };
    let p = UserUpdateParams {
        name: sanitize_html(f.name.as_str()),
        user: sanitize_html(f.user.as_str()),
        email: sanitize_html(f.email.as_str()),
        password,
        status: f.status,
        role_ids: f.role_ids,
    };
    assert(update_params_of(p, f));
    match p.validate() {
        Err(e) => Err(UserFormError::Invalid(e)),
        Ok(()) => {
            let ids = parse_role_ids(&p.role_ids);
            if ids.len() == 0 {
                Err(UserFormError::NoRoleSelected)
            } else {
                Ok((p, ids))
            }
        },
    }
}

// ---------------------------------------------------------------------------
// Post forms
// ---------------------------------------------------------------------------

/// The post creation form.
pub struct CreatePostParams {
    pub title: String,
    pub text: String,
    pub author: String,
    pub category: String,
    pub status: String,
    pub image_url: String,
}

/// The post edition form.
pub struct UpdatePostParams {
    pub title: String,
    pub text: String,
    pub author: String,
    pub category: String,
    pub status: String,
    pub image_url: String,
}

/// The failed rules of a post form: a title of 5 to 200 characters and a
/// text of at least 10.
pub open spec fn post_errors(title: Seq<char>, text: Seq<char>) -> Seq<ErrorView> {
    length_rule("title"@, title, 5, Some(200), "Título deve ter entre 5 e 200 caracteres"@)
        + length_rule("text"@, text, 10, None, "Conteúdo deve ter no mínimo 10 caracteres"@)
}

fn validate_post(title: &String, text: &String) -> (r: Result<(), ValidationErrors>)
    ensures
        validation_matches(r, post_errors(title@, text@)),
{
    let mut errs = ValidationErrors { errors: Vec::new() };
    assert(errs.view_errors() =~= Seq::<ErrorView>::empty());
    check_length(
        &mut errs,
        "title",
        title,
        5,
        Some(200),
        "Título deve ter entre 5 e 200 caracteres",
    );
    check_length(&mut errs, "text", text, 10, None, "Conteúdo deve ter no mínimo 10 caracteres");
    assert(errs.view_errors() =~= post_errors(title@, text@));
    finish(errs)
}

impl CreatePostParams {
    /// Checks the form against its rules.
    pub fn validate(&self) -> (r: Result<(), ValidationErrors>)
        ensures
            validation_matches(r, post_errors(self.title@, self.text@)),
    {
        validate_post(&self.title, &self.text)
    }
}

impl UpdatePostParams {
    /// Checks the form against its rules.
    pub fn validate(&self) -> (r: Result<(), ValidationErrors>)
        ensures
            validation_matches(r, post_errors(self.title@, self.text@)),
    {
        validate_post(&self.title, &self.text)
    }
}

// ---------------------------------------------------------------------------
// Query strings of the listings
// ---------------------------------------------------------------------------

/// Page of the user listing.
pub struct UsersPageQuery {
    pub page: Option<u64>,
}

/// Role selected on the RBAC screen.
pub struct RbacParams {
    pub role: Option<String>,
}

/// A click on one cell of the RBAC matrix.
pub struct RbacToggleParams {
    pub role: String,
    pub resource: String,
    pub action: String,
    pub current_status: String,
}

/// Filters of the audit log screen.
pub struct AuditLogsQuery {
    pub page: Option<u64>,
    pub action: Option<String>,
    pub entity_type: Option<String>,
    pub username: Option<String>,
    pub date_from: Option<String>,
    pub date_to: Option<String>,
}

/// An empty text counts as absent.
pub open spec fn non_empty_of(opt: Option<Seq<char>>) -> Option<Seq<char>> {
    match opt {
        Some(s) => if s.len() > 0 {
            Some(s)
        } else {
            None
        },
        None => None,
    }
}

/// Treats an empty text as absent.
pub fn non_empty(opt: Option<String>) -> (r: Option<String>)
    ensures
        opt_view(r) == non_empty_of(opt_view(opt)),
{
    match opt {
        Some(s) => if s.as_str().is_empty() {
            None
        } else {
            Some(s)
        },
        None => None,
    }
}

/// The date `chrono::NaiveDate::parse_from_str(s, "%Y-%m-%d")` reads, as
/// (year, month, day).
pub uninterp spec fn ymd_parsed(s: Seq<char>) -> Option<(i32, u32, u32)>;

/// `chrono::NaiveDate::parse_from_str(s, "%Y-%m-%d")`, read back through
/// `Datelike`, with the error as `None`. Its result is named `ymd_parsed`;
/// chrono only builds valid dates, so the month and day are in range.
#[verifier::external_body]
pub(crate) fn parse_ymd(s: &str) -> (r: Option<(i32, u32, u32)>)
    ensures
        r == ymd_parsed(s@),
        r matches Some((y, m, d)) ==> 1 <= m <= 12 && 1 <= d <= 31,
{
    match chrono::NaiveDate::parse_from_str(s, "%Y-%m-%d") {
        Ok(d) => Some((d.year(), d.month(), d.day())),
        Err(_) => None,
    }
}

/// Reads an optional date filter.
pub fn parse_date(s: Option<String>) -> (r: Option<(i32, u32, u32)>)
    ensures
        r == (match opt_view(s) {
            Some(t) => ymd_parsed(t),
            None => None,
        }),
{
    match s {
        Some(d) => parse_ymd(d.as_str()),
        None => None,
    }
}

/// Rows on a page of the audit log screen.
pub const AUDIT_PAGE_SIZE: u64 = 20;

/// The number of pages of the audit log screen for `total` matching rows:
/// `total / AUDIT_PAGE_SIZE` rounded up, and at least 1.
pub fn audit_page_count(total: u64) -> (n: u64)
    ensures
        n == page_count(total, AUDIT_PAGE_SIZE),
        n >= 1,
        total == 0 ==> n == 1,
        total > 0 ==> n == (total + AUDIT_PAGE_SIZE - 1) / (AUDIT_PAGE_SIZE as int),
{
    let full: u64 = total / AUDIT_PAGE_SIZE;
    let pages: u64 = if total % AUDIT_PAGE_SIZE != 0 {
        full + 1
    } else {
        full
    };
    assert(pages == (total + AUDIT_PAGE_SIZE - 1) / (AUDIT_PAGE_SIZE as int));
    if pages < 1 {
        1
    } else {
        pages
    }
}

/// The filters of the audit log screen, normalized.
pub struct AuditFilters {
    /// Page, at least 1.
    pub page: u64,
    /// Rows on a page: `AUDIT_PAGE_SIZE`.
    pub per_page: u64,
    pub action: Option<String>,
    pub entity_type: Option<String>,
    pub username: Option<String>,
    pub date_from: Option<(i32, u32, u32)>,
    pub date_to: Option<(i32, u32, u32)>,
}

impl AuditLogsQuery {
    /// Normalizes the filters: page 1 by default and at least 1, empty texts
    /// dropped, dates parsed (a date that does not parse is dropped).
    pub fn filters(self) -> (f: AuditFilters)
        ensures
            f.page == (match self.page {
                Some(p) => if p >= 1 {
                    p
                } else {
                    1
                },
                None => 1,
            }),
            f.per_page == AUDIT_PAGE_SIZE,
            opt_view(f.action) == non_empty_of(opt_view(self.action)),
            opt_view(f.entity_type) == non_empty_of(opt_view(self.entity_type)),
            opt_view(f.username) == non_empty_of(opt_view(self.username)),
            f.date_from == (match non_empty_of(opt_view(self.date_from)) {
                Some(t) => ymd_parsed(t),
                None => None,
            }),
            f.date_to == (match non_empty_of(opt_view(self.date_to)) {
                Some(t) => ymd_parsed(t),
                None => None,
            }),
    {
        let page = match self.page {
            Some(p) => if p >= 1 {
                p
            } else {
                1
            },
            None => 1,
        };
        AuditFilters {
            page,
            per_page: AUDIT_PAGE_SIZE,
            action: non_empty(self.action),
            entity_type: non_empty(self.entity_type),
            username: non_empty(self.username),
            date_from: parse_date(non_empty(self.date_from)),
            date_to: parse_date(non_empty(self.date_to)),
        }
    }
}

// ---------------------------------------------------------------------------
// Post screens
// ---------------------------------------------------------------------------

/// Page of the post listing (1 when absent).
pub struct PostsQuery {
    pub page: u64,
}

impl PostsQuery {
    /// The page to show, at least 1.
    pub fn page_to_show(&self) -> (p: u64)
        ensures
            p == (if self.page >= 1 {
                self.page
            } else {
                1
            }),
    {
        if self.page >= 1 {
            self.page
        } else {
            1
        }
    }
}

/// The post form as submitted.
pub struct PostForm {
    pub title: String,
    pub text: String,
    pub author: String,
    pub category: String,
    pub status: String,
    pub image_url: String,
}

impl PostForm {
    /// The form as a creation request.
    pub fn into_create_params(self) -> (p: CreatePostParams)
        ensures
            p.title == self.title,
            p.text == self.text,
            p.author == self.author,
            p.category == self.category,
            p.status == self.status,
            p.image_url == self.image_url,
    {
        CreatePostParams {
            title: self.title,
            text: self.text,
            author: self.author,
            category: self.category,
            status: self.status,
            image_url: self.image_url,
        }
    }

    /// The form as an edition request.
    pub fn into_update_params(self) -> (p: UpdatePostParams)
        ensures
            p.title == self.title,
            p.text == self.text,
            p.author == self.author,
            p.category == self.category,
            p.status == self.status,
            p.image_url == self.image_url,
    {
        UpdatePostParams {
            title: self.title,
            text: self.text,
            author: self.author,
            category: self.category,
            status: self.status,
            image_url: self.image_url,
        }
    }
}

// ---------------------------------------------------------------------------
// Laws of the forms
// ---------------------------------------------------------------------------

/// A username has the required shape exactly when it is non-empty and each
/// of its characters is an ASCII letter, an ASCII digit or `_`.
pub proof fn username_shape_is_letters_digits_underscore(s: Seq<char>)
    ensures
        username_shape(s) <==> s.len() > 0 && forall|i: int|
            0 <= i < s.len() ==> {
                let c = #[trigger] s[i];
                ('a' <= c && c <= 'z') || ('A' <= c && c <= 'Z') || ('0' <= c && c <= '9') || c
                    == '_'
            },
{
}

/// A username holding any other character (such as `-`, `.` or a space)
/// fails the shape rule on the creation form and on the edition form.
pub proof fn username_with_other_char_refused(p: CreateUserParams, q: UserUpdateParams, i: int)
    requires
        0 <= i < p.user@.len(),
        q.user@ == p.user@,
        !(('a' <= p.user@[i] && p.user@[i] <= 'z') || ('A' <= p.user@[i] && p.user@[i] <= 'Z') || (
        '0' <= p.user@[i] && p.user@[i] <= '9') || p.user@[i] == '_'),
    ensures
        create_user_errors(p).contains(
            ("user"@, "regex"@, "Usuário deve conter apenas letras, números e _"@),
        ),
        update_user_errors(q).contains(
            ("user"@, "regex"@, "Usuário deve conter apenas letras, números e _"@),
        ),
{
    let err = ("user"@, "regex"@, "Usuário deve conter apenas letras, números e _"@);
    assert(!username_char(p.user@[i]));
    assert(!username_shape(p.user@));
    let a = length_rule("name"@, p.name@, 2, Some(100), "Nome deve ter entre 2 e 100 caracteres"@)
        + length_rule("user"@, p.user@, 3, Some(50), "Usuário deve ter entre 3 e 50 caracteres"@);
    assert(create_user_errors(p)[a.len() as int] == err);
    let b = length_rule("name"@, q.name@, 2, Some(100), "Nome deve ter entre 2 e 100 caracteres"@)
        + length_rule("user"@, q.user@, 3, Some(50), "Usuário deve ter entre 3 e 50 caracteres"@);
    assert(update_user_errors(q)[b.len() as int] == err);
}

/// A username of 3 to 50 letters, digits or underscores draws no error on
/// the `user` field of the creation form.
pub proof fn good_username_accepted(p: CreateUserParams)
    requires
        3 <= p.user@.len() <= 50,
        forall|i: int|
            0 <= i < p.user@.len() ==> {
                let c = #[trigger] p.user@[i];
                ('a' <= c && c <= 'z') || ('A' <= c && c <= 'Z') || ('0' <= c && c <= '9') || c
                    == '_'
            },
    ensures
        forall|k: int|
            0 <= k < create_user_errors(p).len() ==> (#[trigger] create_user_errors(p)[k]).0
                != "user"@,
{
    reveal_strlit("user");
    reveal_strlit("name");
    reveal_strlit("email");
    reveal_strlit("password");
    reveal_strlit("status");
    assert(username_shape(p.user@));
    let e = create_user_errors(p);
    let n = length_rule("name"@, p.name@, 2, Some(100), "Nome deve ter entre 2 e 100 caracteres"@);
    let m = email_rule(p.email@);
    let w = length_rule("password"@, p.password@, 8, None, "Senha deve ter no mínimo 8 caracteres"@);
    let t = status_rule(p.status@);
    assert(e =~= n + m + w + t);
    assert forall|k: int| 0 <= k < e.len() implies (#[trigger] e[k]).0 != "user"@ by {
        if k < n.len() {
            assert(e[k] == n[k]);
            assert(n[k].0 == "name"@);
            assert("name"@[0] == 'n' && "user"@[0] == 'u');
        } else if k < n.len() + m.len() {
            assert(e[k] == m[k - n.len()]);
            assert(m[k - n.len()].0 == "email"@);
            assert("email"@[0] == 'e' && "user"@[0] == 'u');
        } else if k < n.len() + m.len() + w.len() {
            assert(e[k] == w[k - n.len() - m.len()]);
            assert(w[k - n.len() - m.len()].0 == "password"@);
            assert("password"@[0] == 'p' && "user"@[0] == 'u');
        } else {
            assert(e[k] == t[k - n.len() - m.len() - w.len()]);
            assert(t[k - n.len() - m.len() - w.len()].0 == "status"@);
            assert("status"@[0] == 's' && "user"@[0] == 'u');
        }
    }
}

/// The content of a post has no upper bound: with at least 10 characters it
/// draws no error, however long it is, and with a title of 5 to 200
/// characters the form is valid.
pub proof fn post_content_has_no_upper_bound(title: Seq<char>, text: Seq<char>)
    requires
        text.len() >= 10,
    ensures
        forall|k: int|
            0 <= k < post_errors(title, text).len() ==> (#[trigger] post_errors(title, text)[k]).0
                != "text"@,
        5 <= title.len() <= 200 ==> post_errors(title, text).len() == 0,
{
    reveal_strlit("text");
    reveal_strlit("title");
    let a = length_rule("title"@, title, 5, Some(200), "Título deve ter entre 5 e 200 caracteres"@);
    assert(post_errors(title, text) =~= a);
    assert forall|k: int| 0 <= k < a.len() implies (#[trigger] a[k]).0 != "text"@ by {
        assert(a[k].0 == "title"@);
    }
}

/// A post content under 10 characters is refused with its message.
pub proof fn short_post_content_refused(title: Seq<char>, text: Seq<char>)
    requires
        text.len() < 10,
    ensures
        post_errors(title, text).contains(
            ("text"@, "length"@, "Conteúdo deve ter no mínimo 10 caracteres"@),
        ),
{
    let a = length_rule("title"@, title, 5, Some(200), "Título deve ter entre 5 e 200 caracteres"@);
    assert(post_errors(title, text)[a.len() as int] == (
        "text"@,
        "length"@,
        "Conteúdo deve ter no mínimo 10 caracteres"@,
    ));
}

} // verus!
