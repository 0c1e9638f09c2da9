//! What the sidebar shows of the logged-in user, and which menu entries it offers.
use vstd::prelude::*;
use crate::rbac::PermissionSet;
use crate::text::{to_chars, from_chars, str_eq};

verus! {

broadcast use vstd::string::group_string_axioms;

/// Whether `c` has the Unicode `White_Space` property (`char::is_whitespace`).
pub open spec fn is_white_space(c: char) -> bool {
    ||| ('\u{9}' <= c && c <= '\u{d}')
    ||| c == ' '
    ||| c == '\u{85}'
    ||| c == '\u{a0}'
    ||| c == '\u{1680}'
    ||| ('\u{2000}' <= c && c <= '\u{200a}')
    ||| c == '\u{2028}'
    ||| c == '\u{2029}'
    ||| c == '\u{202f}'
    ||| c == '\u{205f}'
    ||| c == '\u{3000}'
}

/// `char::is_whitespace`.
pub fn white_space(c: char) -> (r: bool)
    ensures
        r == is_white_space(c),
{
    ('\u{9}' <= c && c <= '\u{d}') || c == ' ' || c == '\u{85}' || c == '\u{a0}' || c == '\u{1680}'
        || ('\u{2000}' <= c && c <= '\u{200a}') || c == '\u{2028}' || c == '\u{2029}' || c
        == '\u{202f}' || c == '\u{205f}' || c == '\u{3000}'
}

/// `c` with ASCII lowercase letters made uppercase.
pub open spec fn ascii_upper(c: char) -> char {
    if 'a' <= c && c <= 'z' {
        ((c as u32) - 32) as char
    } else {
        c
    }
}

/// `char::to_ascii_uppercase`.
pub fn to_ascii_upper(c: char) -> (r: char)
    ensures
        r == ascii_upper(c),
{
    if 'a' <= c && c <= 'z' {
        ((c as u8) - 32) as char
    } else {
        c
    }
}

/// Whether a word starts at position `i` of `s`.
pub open spec fn starts_word(s: Seq<char>, i: int) -> bool {
    !is_white_space(s[i]) && (i == 0 || is_white_space(s[i - 1]))
}

/// The first character of every whitespace-separated word of `s`, in order.
pub open spec fn word_initials(s: Seq<char>) -> Seq<char>
    decreases s.len(),
{
    if s.len() == 0 {
        Seq::empty()
    } else if starts_word(s, s.len() - 1) {
        word_initials(s.drop_last()).push(s.last())
    } else {
        word_initials(s.drop_last())
    }
}

/// The sidebar initials of a name: the first letters of its first two
/// words, ASCII-uppercased, or `U` when the name has no word.
pub open spec fn initials_of(name: Seq<char>) -> Seq<char> {
    let w = word_initials(name);
    if w.len() == 0 {
        seq!['U']
    } else {
        w.take(if w.len() < 2 { w.len() as int } else { 2 }).map_values(|c: char| ascii_upper(c))
    }
}

/// Computes the sidebar initials of a name.
pub fn initials(name: &str) -> (r: String)
    ensures
        r@ == initials_of(name@),
{
    let v = to_chars(name);
    let mut w: Vec<char> = Vec::new();
    for i in 0..v.len()
        invariant
            v@ == name@,
            w@ == word_initials(v@.take(i as int)),
    {
        let ghost t = v@.take(i + 1 as int);
        assert(t.drop_last() == v@.take(i as int));
        assert(t.last() == v@[i as int]);
        assert(i > 0 ==> t[i - 1] == v@[i - 1]);
        if !white_space(v[i]) && (i == 0 || white_space(v[i - 1])) {
            w.push(v[i]);
        }
    }
    assert(v@.take(v.len() as int) == v@);
    if w.len() == 0 {
        let mut u: Vec<char> = Vec::new();
        u.push('U');
        return from_chars(&u);
    }
    let n = if w.len() < 2 { w.len() } else { 2 };
    let mut out: Vec<char> = Vec::new();
    for i in 0..n
        invariant
            n <= w.len(),
            out@ == w@.take(i as int).map_values(|c: char| ascii_upper(c)),
    {
        out.push(to_ascii_upper(w[i]));
        assert(w@.take(i + 1).map_values(|c: char| ascii_upper(c)) =~= w@.take(i as int).map_values(
            |c: char| ascii_upper(c),
        ).push(ascii_upper(w@[i as int])));
    }
    from_chars(&out)
}

/// The sidebar always shows one or two initials.
pub proof fn initials_one_or_two(name: Seq<char>)
    ensures
        1 <= initials_of(name).len() <= 2,
{
}

/// The logged-in user as the sidebar shows them.
pub struct SidebarUserInfo {
    pub name: String,
    pub initials: String,
    pub role: String,
    /// What the user may do, by resource.
    pub permissions: PermissionSet,
}

/// Whether the sidebar offers `action` on `resource`: to administrators
/// always, to anyone else when they hold that permission.
pub open spec fn offers(info: SidebarUserInfo, resource: Seq<char>, action: Seq<char>) -> bool {
    info.role@ == "Admin"@ || info.permissions.allows(resource, action)
}

impl Default for SidebarUserInfo {
    /// An unknown user: empty texts and no permission.
    fn default() -> (d: Self)
        ensures
            d.name@ == Seq::<char>::empty(),
            d.initials@ == Seq::<char>::empty(),
            d.role@ == Seq::<char>::empty(),
            d.permissions.pairs() == Seq::<(Seq<char>, Seq<char>)>::empty(),
    {
        SidebarUserInfo {
            name: String::new(),
            initials: String::new(),
            role: String::new(),
            permissions: PermissionSet::new(),
        }
    }
}

impl SidebarUserInfo {
    /// The sidebar data of a user: their initials, their first role (`User`
    /// when they have none) and their permissions.
    pub fn for_user(name: String, role: Option<String>, permissions: PermissionSet) -> (info: Self)
        ensures
            info.name@ == name@,
            info.initials@ == initials_of(name@),
            info.role@ == (match role {
                Some(r) => r@,
                None => "User"@,
            }),
            info.permissions == permissions,
    {
        let initials = initials(name.as_str());
        let role = match role {
            Some(r) => r,
            None => "User".to_owned(),
        };
        SidebarUserInfo { name, initials, role, permissions }
    }

    /// Whether the user may read `resource`.
    pub fn can_read(&self, resource: &str) -> (r: bool)
        ensures
            r == offers(*self, resource@, "read"@),
    {
        if str_eq(self.role.as_str(), "Admin") {
            return true;
        }
        self.permissions.contains(resource, "read")
    }

    /// Whether the user may perform `action` on `resource`.
    pub fn has_permission(&self, resource: &str, action: &str) -> (r: bool)
        ensures
            r == offers(*self, resource@, action@),
    {
        if str_eq(self.role.as_str(), "Admin") {
            return true;
        }
        self.permissions.contains(resource, action)
    }
}

/// Reading is the `read` action: `can_read` agrees with `has_permission`.
pub proof fn can_read_is_read_permission(info: SidebarUserInfo, resource: Seq<char>)
    ensures
        offers(info, resource, "read"@) == (info.role@ == "Admin"@ || info.permissions.allows(
            resource,
            "read"@,
        )),
{
}

/// Administrators are offered everything.
pub proof fn admin_offered_everything(info: SidebarUserInfo, resource: Seq<char>, action: Seq<char>)
    requires
        info.role@ == "Admin"@,
    ensures
        offers(info, resource, action),
{
}

} // verus!
