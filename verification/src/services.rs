//! Business rules of the user, post, audit and session services.
use vstd::prelude::*;
use crate::text::{to_chars, from_chars, str_eq, contains_chars, contains_seq, opt_view};
use crate::views::{UserRecord, UserWithRole, AuditRecord, DateParts, csv_line, push_csv_line, chrono_year, two, CSV_HEADER};
use crate::dto::{CreatePostParams, UpdatePostParams};
use crate::security::{sanitize_html, ammonia_cleaned};

verus! {

broadcast use vstd::string::group_string_axioms;

// ---------------------------------------------------------------------------
// Users
// ---------------------------------------------------------------------------

/// A link between a user and a role.
#[derive(Clone, Copy)]
pub struct UserRoleRow {
    pub user_id: u128,
    pub role_id: u128,
}

/// A role's id and name.
pub struct RoleName {
    pub id: u128,
    pub name: String,
}

/// The name of role `id` (the last row with that id wins).
pub open spec fn role_name_of(roles: Seq<RoleName>, id: u128) -> Option<Seq<char>>
    decreases roles.len(),
{
    if roles.len() == 0 {
        None
    } else if roles.last().id == id {
        Some(roles.last().name@)
    } else {
        role_name_of(roles.drop_last(), id)
    }
}

/// The names of the known roles of user `uid`, in link order.
pub open spec fn role_names_of(links: Seq<UserRoleRow>, roles: Seq<RoleName>, uid: u128) -> Seq<
    Seq<char>,
>
    decreases links.len(),
{
    if links.len() == 0 {
        Seq::empty()
    } else {
        let rest = role_names_of(links.drop_last(), roles, uid);
        if links.last().user_id == uid && role_name_of(roles, links.last().role_id) is Some {
            rest.push(role_name_of(roles, links.last().role_id)->0)
        } else {
            rest
        }
    }
}

/// The role names listed for the user at position `i`: their known roles,
/// or `Sem Role` when they have none. A user listed twice gets their roles
/// only the first time.
pub open spec fn listed_role_names(
    users: Seq<UserRecord>,
    links: Seq<UserRoleRow>,
    roles: Seq<RoleName>,
    i: int,
) -> Seq<Seq<char>> {
    let uid = users[i].id;
    let names = role_names_of(links, roles, uid);
    if (exists|j: int| 0 <= j < i && #[trigger] users[j].id == uid) || names.len() == 0 {
        seq!["Sem Role"@]
    } else {
        names
    }
}

fn role_name_exec(roles: &Vec<RoleName>, id: u128) -> (r: Option<String>)
    ensures
        opt_view(r) == role_name_of(roles@, id),
{
    let mut found: Option<String> = None;
    for i in 0..roles.len()
        invariant
            opt_view(found) == role_name_of(roles@.take(i as int), id),
    {
        assert(roles@.take(i + 1).drop_last() == roles@.take(i as int));
        if roles[i].id == id {
            found = Some(roles[i].name.clone());
        }
    }
    assert(roles@.take(roles.len() as int) == roles@);
    found
}

fn role_names_exec(links: &Vec<UserRoleRow>, roles: &Vec<RoleName>, uid: u128) -> (r: Vec<String>)
    ensures
        r@.map_values(|s: String| s@) == role_names_of(links@, roles@, uid),
{
    let mut r: Vec<String> = Vec::new();
    for i in 0..links.len()
        invariant
            r@.map_values(|s: String| s@) == role_names_of(links@.take(i as int), roles@, uid),
    {
        assert(links@.take(i + 1).drop_last() == links@.take(i as int));
        assert(links@.take(i + 1).last() == links@[i as int]);
        if links[i].user_id == uid {
            match role_name_exec(roles, links[i].role_id) {
                Some(n) => {
                    let ghost before = r@;
                    r.push(n);
                    assert(r@.map_values(|s: String| s@) =~= before.map_values(|s: String| s@).push(
                        n@,
                    ));
                },
                None => {},
            }
        }
    }
    assert(links@.take(links.len() as int) == links@);
    r
}

fn sem_role() -> (r: Vec<String>)
    ensures
        r@.map_values(|s: String| s@) == seq!["Sem Role"@],
{
    let mut r: Vec<String> = Vec::new();
    r.push("Sem Role".to_owned());
    assert(r@.map_values(|s: String| s@) =~= seq!["Sem Role"@]);
    r
}

fn copy_user(u: &UserRecord) -> (c: UserRecord)
    ensures
        c == *u,
{
    UserRecord {
        id: u.id,
        name: u.name.clone(),
        username: u.username.clone(),
        email: u.email.clone(),
        status: u.status.clone(),
    }
}

/// The services behind the user screens.
pub struct UserService;

impl UserService {
    /// Attaches to each user of a page the names of their roles (from the
    /// user-role links and the role names), or `Sem Role` when they have none.
    pub fn attach_roles(
        users: &Vec<UserRecord>,
        links: &Vec<UserRoleRow>,
        roles: &Vec<RoleName>,
    ) -> (r: Vec<UserWithRole>)
        ensures
            r@.len() == users@.len(),
            forall|i: int|
                0 <= i < users@.len() ==> (#[trigger] r@[i]).user == users@[i]
                    && r@[i].role_names@.map_values(|s: String| s@) == listed_role_names(
                    users@,
                    links@,
                    roles@,
                    i,
                ),
    {
        let mut r: Vec<UserWithRole> = Vec::new();
        for i in 0..users.len()
            invariant
                r@.len() == i,
                forall|q: int|
                    0 <= q < i ==> (#[trigger] r@[q]).user == users@[q]
                        && r@[q].role_names@.map_values(|s: String| s@) == listed_role_names(
                        users@,
                        links@,
                        roles@,
                        q,
                    ),
        {
            let uid = users[i].id;
            let mut seen = false;
            let mut j: usize = 0;
            while j < i
                invariant
                    j <= i < users.len(),
                    uid == users@[i as int].id,
                    seen == (exists|k: int| 0 <= k < j && #[trigger] users@[k].id == uid),
                decreases i - j,
            {
                if users[j].id == uid {
                    seen = true;
                }
                j = j + 1;
            }
            let names = if seen {
                sem_role()
            } else {
                let n = role_names_exec(links, roles, uid);
                if n.len() == 0 {
                    sem_role()
                } else {
                    n
                }
            };
            r.push(UserWithRole { user: copy_user(&users[i]), role_names: names });
        }
        r
    }
}

// ---------------------------------------------------------------------------
// Audit user filter
// ---------------------------------------------------------------------------

/// What `str::to_lowercase` makes of a text (Unicode lowercase mapping).
pub uninterp spec fn lowercased(s: Seq<char>) -> Seq<char>;

/// `str::to_lowercase`. Its result is named `lowercased`.
#[verifier::external_body]
pub(crate) fn to_lowercase(s: &str) -> (r: String)
    ensures
        r@ == lowercased(s@),
{
    s.to_lowercase()
}

/// A user's id and username.
pub struct UserName {
    pub id: u128,
    pub username: String,
}

/// The users whose username contains the search, ignoring case, in order.
pub open spec fn matching_users(users: Seq<UserName>, search: Seq<char>) -> Seq<u128>
    decreases users.len(),
{
    if users.len() == 0 {
        Seq::empty()
    } else {
        let rest = matching_users(users.drop_last(), search);
        if contains_seq(lowercased(users.last().username@), lowercased(search)) {
            rest.push(users.last().id)
        } else {
            rest
        }
    }
}

/// Finds the users whose username contains the search, ignoring case.
pub fn find_user_ids_by_username(users: &Vec<UserName>, search: &str) -> (r: Vec<u128>)
    ensures
        r@ == matching_users(users@, search@),
{
    let needle_s = to_lowercase(search);
    let needle = to_chars(needle_s.as_str());
    let mut r: Vec<u128> = Vec::new();
    for i in 0..users.len()
        invariant
            needle@ == lowercased(search@),
            r@ == matching_users(users@.take(i as int), search@),
    {
        assert(users@.take(i + 1).drop_last() == users@.take(i as int));
        assert(users@.take(i + 1).last() == users@[i as int]);
        let name_s = to_lowercase(users[i].username.as_str());
        let name = to_chars(name_s.as_str());
        if contains_chars(&name, &needle) {
            r.push(users[i].id);
        }
    }
    assert(users@.take(users.len() as int) == users@);
    r
}

/// The username of user `id` (the last row with that id wins).
pub open spec fn username_of(users: Seq<UserName>, id: u128) -> Option<Seq<char>>
    decreases users.len(),
{
    if users.len() == 0 {
        None
    } else if users.last().id == id {
        Some(users.last().username@)
    } else {
        username_of(users.drop_last(), id)
    }
}

/// Looks up the username of the user of an audit event, if it has one.
pub fn lookup_username(users: &Vec<UserName>, id: Option<u128>) -> (name: Option<String>)
    ensures
        opt_view(name) == (match id {
            Some(x) => username_of(users@, x),
            None => None,
        }),
{
    let x = match id {
        Some(x) => x,
        None => return None,
    };
    let mut found: Option<String> = None;
    for i in 0..users.len()
        invariant
            opt_view(found) == username_of(users@.take(i as int), x),
    {
        assert(users@.take(i + 1).drop_last() == users@.take(i as int));
        if users[i].id == x {
            found = Some(users[i].username.clone());
        }
    }
    assert(users@.take(users.len() as int) == users@);
    found
}

/// A user in the filter dropdown of the audit screen.
pub struct UserOption {
    pub id: String,
    pub name: String,
}

/// The same entry, as the audit templates name it.
pub type AuditUserOption = UserOption;

impl UserOption {
    /// The dropdown entry of a user: their UUID text and username.
    pub fn from_user(u: &UserName) -> (o: Self)
        ensures
            o.id@ == crate::ids::uuid_text(u.id),
            o.name == u.username,
    {
        UserOption { id: crate::ids::uuid_to_string(u.id), name: u.username.clone() }
    }
}

/// The user filter of the audit screen: a search matching exactly one user
/// filters on that user; a search matching none or several does not filter.
pub fn user_filter(matching: &Vec<u128>) -> (f: Option<u128>)
    ensures
        f == (if matching@.len() == 1 {
            Some(matching@[0])
        } else {
            None::<u128>
        }),
{
    if matching.len() == 1 {
        Some(matching[0])
    } else {
        None
    }
}

// ---------------------------------------------------------------------------
// Posts
// ---------------------------------------------------------------------------

/// The image shown for a post without one.
pub const PLACEHOLDER_IMAGE: &'static str = "https://placehold.co/100x60";

/// The editable fields of a post, as stored.
pub struct PostFields {
    pub title: String,
    pub text: String,
    pub author: String,
    pub category: String,
    pub status: String,
    pub image_url: String,
}

/// The services behind the post screens.
pub struct PostService;

impl PostService {
    /// The fields of a new post: title, text, author and category sanitized,
    /// the placeholder image when none is given.
    pub fn new_post_fields(params: CreatePostParams) -> (f: PostFields)
        ensures
            f.title@ == ammonia_cleaned(params.title@),
            f.text@ == ammonia_cleaned(params.text@),
            f.author@ == ammonia_cleaned(params.author@),
            f.category@ == ammonia_cleaned(params.category@),
            f.status == params.status,
            f.image_url@ == (if params.image_url@.len() == 0 {
                "https://placehold.co/100x60"@
            } else {
                params.image_url@
            }),
    {
        let image_url = if params.image_url.as_str().is_empty() {
            PLACEHOLDER_IMAGE.to_owned()
        } else {
            params.image_url
        };
        PostFields {
            title: sanitize_html(params.title.as_str()),
            text: sanitize_html(params.text.as_str()),
            author: sanitize_html(params.author.as_str()),
            category: sanitize_html(params.category.as_str()),
            status: params.status,
            image_url,
        }
    }

    /// The fields of an edited post: as for a new one, except that an empty
    /// image keeps the current image.
    pub fn updated_post_fields(current_image_url: String, params: UpdatePostParams) -> (f: PostFields)
        ensures
            f.title@ == ammonia_cleaned(params.title@),
            f.text@ == ammonia_cleaned(params.text@),
            f.author@ == ammonia_cleaned(params.author@),
            f.category@ == ammonia_cleaned(params.category@),
            f.status == params.status,
            f.image_url == (if params.image_url@.len() == 0 {
                current_image_url
            } else {
                params.image_url
            }),
    {
        let image_url = if params.image_url.as_str().is_empty() {
            current_image_url
        } else {
            params.image_url
        };
        PostFields {
            title: sanitize_html(params.title.as_str()),
            text: sanitize_html(params.text.as_str()),
            author: sanitize_html(params.author.as_str()),
            category: sanitize_html(params.category.as_str()),
            status: params.status,
            image_url,
        }
    }

    /// Deleting a post that was not there is "not found".
    pub fn delete_found(rows_affected: u64) -> (found: bool)
        ensures
            found == (rows_affected != 0),
    {
        rows_affected != 0
    }
}

// ---------------------------------------------------------------------------
// Sessions
// ---------------------------------------------------------------------------

/// What a cleanup of expired sessions did.
pub struct CleanupResult {
    /// Sessions removed.
    pub deleted_count: u64,
    /// Problems met on the way (cache deletions that failed).
    pub errors: Vec<String>,
}

/// The interval of the session cleanup job, in seconds: the configured
/// value when it parses, else one hour.
pub fn cleanup_interval_secs(configured: Option<String>) -> (secs: u64)
    ensures
        secs == (match opt_view(configured) {
            Some(s) => match crate::text::parsed_u64(s) {
                Some(n) => n,
                None => 3600,
            },
            None => 3600,
        }),
{
    match configured {
        Some(s) => match crate::text::parse_u64(s.as_str()) {
            Some(n) => n,
            None => 3600,
        },
        None => 3600,
    }
}

// ---------------------------------------------------------------------------
// Audit export
// ---------------------------------------------------------------------------

/// The lines of the audit export after the header, one per event, with the
/// username of the event's user when known.
pub open spec fn csv_body(logs: Seq<AuditRecord>, users: Seq<UserName>) -> Seq<char>
    decreases logs.len(),
{
    if logs.len() == 0 {
        Seq::empty()
    } else {
        let r = logs.last();
        csv_body(logs.drop_last(), users) + csv_line(
            r,
            match r.user_id {
                Some(x) => username_of(users, x),
                None => None,
            },
        )
    }
}

/// The audit export: the header line, then one line per event.
pub fn export_audit_csv(logs: &Vec<AuditRecord>, users: &Vec<UserName>) -> (csv: String)
    ensures
        csv@ == CSV_HEADER@ + csv_body(logs@, users@),
{
    let mut out = to_chars(CSV_HEADER);
    for i in 0..logs.len()
        invariant
            out@ == CSV_HEADER@ + csv_body(logs@.take(i as int), users@),
    {
        assert(logs@.take(i + 1).drop_last() == logs@.take(i as int));
        assert(logs@.take(i + 1).last() == logs@[i as int]);
        let name = lookup_username(users, logs[i].user_id);
        push_csv_line(&mut out, &logs[i], name);
    }
    assert(logs@.take(logs.len() as int) == logs@);
    from_chars(&out)
}

/// The name of the export file: `audit_logs_` and the instant as
/// `%Y%m%d_%H%M%S`.
pub open spec fn export_filename_of(now: DateParts) -> Seq<char> {
    "audit_logs_"@ + chrono_year(now.year) + two(now.month) + two(now.day) + "_"@ + two(now.hour)
        + two(now.minute) + two(now.second) + ".csv"@
}

/// Names the export file after the instant of the export.
pub fn export_filename(now: DateParts) -> (name: String)
    ensures
        name@ == export_filename_of(now),
{
    let mut v = to_chars("audit_logs_");
    crate::views::push_year_digits(&mut v, now.year);
    crate::views::push_two_digits(&mut v, now.month);
    crate::views::push_two_digits(&mut v, now.day);
    crate::text::push_str(&mut v, "_");
    crate::views::push_two_digits(&mut v, now.hour);
    crate::views::push_two_digits(&mut v, now.minute);
    crate::views::push_two_digits(&mut v, now.second);
    crate::text::push_str(&mut v, ".csv");
    assert(v@ =~= export_filename_of(now));
    from_chars(&v)
}

/// The `Content-Disposition` of the export.
pub fn export_disposition(filename: &str) -> (d: String)
    ensures
        d@ == "attachment; filename=\""@ + filename@ + "\""@,
{
    let mut v = to_chars("attachment; filename=\"");
    crate::text::push_str(&mut v, filename);
    crate::text::push_str(&mut v, "\"");
    from_chars(&v)
}

// ---------------------------------------------------------------------------
// Laws of the audit search and export
// ---------------------------------------------------------------------------

/// The name kept for user `u` is the one of its last row.
proof fn lemma_username_of_last_row(users: Seq<UserName>, u: u128, i: int)
    requires
        0 <= i < users.len(),
        users[i].id == u,
        forall|j: int| i < j < users.len() ==> (#[trigger] users[j]).id != u,
    ensures
        username_of(users, u) == Some(users[i].username@),
    decreases users.len(),
{
    if i < users.len() - 1 {
        assert forall|j: int| i < j < users.drop_last().len() implies (
        #[trigger] users.drop_last()[j]).id != u by {
            assert(users.drop_last()[j] == users[j]);
        }
        assert(users.drop_last()[i] == users[i]);
        lemma_username_of_last_row(users.drop_last(), u, i);
    }
}

/// No row for user `u`: no name.
proof fn lemma_username_of_absent(users: Seq<UserName>, u: u128)
    requires
        forall|j: int| 0 <= j < users.len() ==> (#[trigger] users[j]).id != u,
    ensures
        username_of(users, u) is None,
    decreases users.len(),
{
    if users.len() > 0 {
        assert(users[users.len() - 1].id != u);
        assert forall|j: int| 0 <= j < users.drop_last().len() implies (
        #[trigger] users.drop_last()[j]).id != u by {
            assert(users.drop_last()[j] == users[j]);
        }
        lemma_username_of_absent(users.drop_last(), u);
    }
}

/// Exporting one more event adds one line after the others, whose user
/// column is the username of the event's user: the name of the last row of
/// `users` with the event's `user_id`, whatever the entity the event is about.
pub proof fn export_line_names_the_event_user(
    logs: Seq<AuditRecord>,
    users: Seq<UserName>,
    r: AuditRecord,
    i: int,
)
    requires
        0 <= i < users.len(),
        r.user_id == Some(users[i].id),
        forall|j: int| i < j < users.len() ==> (#[trigger] users[j]).id != users[i].id,
    ensures
        csv_body(logs.push(r), users) == csv_body(logs, users) + csv_line(
            r,
            Some(users[i].username@),
        ),
{
    assert(logs.push(r).drop_last() =~= logs);
    lemma_username_of_last_row(users, users[i].id, i);
}

/// An event without a user, or whose user has no row in `users`, is
/// exported with `-` in the user column.
pub proof fn export_line_without_known_user(
    logs: Seq<AuditRecord>,
    users: Seq<UserName>,
    r: AuditRecord,
)
    requires
        match r.user_id {
            Some(u) => forall|j: int| 0 <= j < users.len() ==> (#[trigger] users[j]).id != u,
            None => true,
        },
    ensures
        csv_body(logs.push(r), users) == csv_body(logs, users) + csv_line(r, None),
{
    assert(logs.push(r).drop_last() =~= logs);
    if let Some(u) = r.user_id {
        lemma_username_of_absent(users, u);
    }
}

/// The username search: a user's id is found exactly when the lowercased
/// search occurs somewhere (at any offset) in the lowercased username.
pub proof fn username_search_matches_anywhere(users: Seq<UserName>, search: Seq<char>, id: u128)
    ensures
        matching_users(users, search).contains(id) <==> exists|i: int, k: int|
            #![trigger users[i], lowercased(users[i].username@).subrange(k, k + lowercased(search).len())]
            0 <= i < users.len() && users[i].id == id && 0 <= k && k + lowercased(search).len()
                <= lowercased(users[i].username@).len() && lowercased(users[i].username@).subrange(
                k,
                k + lowercased(search).len(),
            ) == lowercased(search),
    decreases users.len(),
{
    let needle = lowercased(search);
    if users.len() == 0 {
    } else {
        let init = users.drop_last();
        let last = users.last();
        let n = users.len() - 1;
        username_search_matches_anywhere(init, search, id);
        let rest = matching_users(init, search);
        let name = lowercased(last.username@);
        let hit = contains_seq(name, needle);
        if matching_users(users, search).contains(id) {
            if hit && last.id == id {
                let k = choose|k: int| crate::text::occurs_at(name, needle, k);
                assert(users[n] == last);
                assert(name.subrange(k, k + needle.len()) == needle);
            } else {
                if hit {
                    vstd::seq_lib::lemma_seq_contains_after_push(rest, last.id, id);
                }
                assert(rest.contains(id));
                let (i, k) = choose|i: int, k: int|
                    #![trigger init[i], lowercased(init[i].username@).subrange(k, k + needle.len())]
                    0 <= i < init.len() && init[i].id == id && 0 <= k && k + needle.len()
                        <= lowercased(init[i].username@).len() && lowercased(init[i].username@).subrange(
                        k,
                        k + needle.len(),
                    ) == needle;
                assert(users[i] == init[i]);
                assert(lowercased(users[i].username@).subrange(k, k + needle.len()) == needle);
            }
        }
        if exists|i: int, k: int|
            #![trigger users[i], lowercased(users[i].username@).subrange(k, k + needle.len())]
            0 <= i < users.len() && users[i].id == id && 0 <= k && k + needle.len()
                <= lowercased(users[i].username@).len() && lowercased(users[i].username@).subrange(
                k,
                k + needle.len(),
            ) == needle {
            let (i, k) = choose|i: int, k: int|
                #![trigger users[i], lowercased(users[i].username@).subrange(k, k + needle.len())]
                0 <= i < users.len() && users[i].id == id && 0 <= k && k + needle.len()
                    <= lowercased(users[i].username@).len() && lowercased(users[i].username@).subrange(
                    k,
                    k + needle.len(),
                ) == needle;
            if i == n {
                assert(users[i] == last);
                assert(crate::text::occurs_at(name, needle, k));
                assert(hit);
                assert(matching_users(users, search) == rest.push(last.id));
                assert(rest.push(last.id)[rest.len() as int] == id);
            } else {
                assert(init[i] == users[i]);
                assert(lowercased(init[i].username@).subrange(k, k + needle.len()) == needle);
                assert(rest.contains(id));
                if hit {
                    vstd::seq_lib::lemma_seq_contains_after_push(rest, last.id, id);
                }
            }
        }
    }
}

} // verus!
