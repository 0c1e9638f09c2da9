//! What the pages show of stored records: dates, relative times, badges
//! and role lists.
use vstd::prelude::*;
use crate::text::{
    from_chars, i64_digits, pad_zeros, padded_i64, push_all, push_str, str_eq, to_chars, u64_digits,
    decimal, opt_view, padded_signed, signed_decimal, zero_pad,
};
use crate::time::{span_units, seconds_of, minutes_of, hours_of, days_of, weeks_of};
use crate::ids::{uuid_text, uuid_to_string};
use crate::ui::{role_color, role_color_of};

verus! {

broadcast use vstd::string::group_string_axioms;

// ---------------------------------------------------------------------------
// Dates
// ---------------------------------------------------------------------------

/// The calendar fields of an instant in some time zone.
#[derive(Clone, Copy)]
pub struct DateParts {
    pub year: i32,
    pub month: u32,
    pub day: u32,
    pub hour: u32,
    pub minute: u32,
    pub second: u32,
}

/// A field rendered on two digits at least (`{:02}`).
pub open spec fn two(n: u32) -> Seq<char> {
    zero_pad(decimal(n as nat), 2)
}

/// The year as chrono's `%Y` writes it: four digits at least, with a sign
/// outside 0..=9999.
pub open spec fn chrono_year(y: i32) -> Seq<char> {
    if 0 <= y <= 9999 {
        zero_pad(decimal(y as nat), 4)
    } else if y < 0 {
        seq!['-'] + zero_pad(decimal((-y) as nat), 4)
    } else {
        seq!['+'] + zero_pad(decimal(y as nat), 4)
    }
}

/// `YYYY-MM-DD HH:MM:SS` with the year written as `{:04}` writes it.
pub open spec fn iso_datetime(d: DateParts) -> Seq<char> {
    padded_signed(d.year as int, 4) + "-"@ + two(d.month) + "-"@ + two(d.day) + " "@ + two(d.hour)
        + ":"@ + two(d.minute) + ":"@ + two(d.second)
}

/// `%Y-%m-%d %H:%M:%S`.
pub open spec fn chrono_iso_datetime(d: DateParts) -> Seq<char> {
    chrono_year(d.year) + "-"@ + two(d.month) + "-"@ + two(d.day) + " "@ + two(d.hour) + ":"@ + two(
        d.minute,
    ) + ":"@ + two(d.second)
}

/// `%d/%m/%Y`.
pub open spec fn br_date(d: DateParts) -> Seq<char> {
    two(d.day) + "/"@ + two(d.month) + "/"@ + chrono_year(d.year)
}

/// `%d/%m/%Y %H:%M`.
pub open spec fn br_datetime(d: DateParts) -> Seq<char> {
    br_date(d) + " "@ + two(d.hour) + ":"@ + two(d.minute)
}

/// Appends a field on two digits at least.
pub fn push_two_digits(v: &mut Vec<char>, n: u32)
    ensures
        final(v)@ == old(v)@ + two(n),
{
    let d = u64_digits(n as u64);
    let p = pad_zeros(&d, 2);
    push_all(v, &p);
}

/// Appends a year as `%Y` writes it.
pub fn push_year_digits(v: &mut Vec<char>, y: i32)
    ensures
        final(v)@ == old(v)@ + chrono_year(y),
{
    if 0 <= y && y <= 9999 {
        let d = u64_digits(y as u64);
        let p = pad_zeros(&d, 4);
        push_all(v, &p);
    } else if y < 0 {
        let m: u64 = ((-(y as i64)) as u64);
        let d = u64_digits(m);
        let p = pad_zeros(&d, 4);
        v.push('-');
        push_all(v, &p);
    } else {
        let d = u64_digits(y as u64);
        let p = pad_zeros(&d, 4);
        v.push('+');
        push_all(v, &p);
    }
}

/// Renders `YYYY-MM-DD HH:MM:SS` (year as `{:04}` writes it).
pub fn format_iso_datetime(d: DateParts) -> (s: String)
    ensures
        s@ == iso_datetime(d),
{
    let mut v = padded_i64(d.year as i64, 4);
    push_str(&mut v, "-");
    push_two_digits(&mut v, d.month);
    push_str(&mut v, "-");
    push_two_digits(&mut v, d.day);
    push_str(&mut v, " ");
    push_two_digits(&mut v, d.hour);
    push_str(&mut v, ":");
    push_two_digits(&mut v, d.minute);
    push_str(&mut v, ":");
    push_two_digits(&mut v, d.second);
    from_chars(&v)
}

/// Renders `%Y-%m-%d %H:%M:%S`.
pub fn format_chrono_iso_datetime(d: DateParts) -> (s: String)
    ensures
        s@ == chrono_iso_datetime(d),
{
    let mut v: Vec<char> = Vec::new();
    push_year_digits(&mut v, d.year);
    push_str(&mut v, "-");
    push_two_digits(&mut v, d.month);
    push_str(&mut v, "-");
    push_two_digits(&mut v, d.day);
    push_str(&mut v, " ");
    push_two_digits(&mut v, d.hour);
    push_str(&mut v, ":");
    push_two_digits(&mut v, d.minute);
    push_str(&mut v, ":");
    push_two_digits(&mut v, d.second);
    assert(v@ =~= chrono_iso_datetime(d));
    from_chars(&v)
}

/// Renders `%d/%m/%Y`.
pub fn format_br_date(d: DateParts) -> (s: String)
    ensures
        s@ == br_date(d),
{
    let mut v: Vec<char> = Vec::new();
    push_two_digits(&mut v, d.day);
    push_str(&mut v, "/");
    push_two_digits(&mut v, d.month);
    push_str(&mut v, "/");
    push_year_digits(&mut v, d.year);
    assert(v@ =~= br_date(d));
    from_chars(&v)
}

/// Renders `%d/%m/%Y %H:%M`.
pub fn format_br_datetime(d: DateParts) -> (s: String)
    ensures
        s@ == br_datetime(d),
{
    let mut v: Vec<char> = Vec::new();
    push_two_digits(&mut v, d.day);
    push_str(&mut v, "/");
    push_two_digits(&mut v, d.month);
    push_str(&mut v, "/");
    push_year_digits(&mut v, d.year);
    push_str(&mut v, " ");
    push_two_digits(&mut v, d.hour);
    push_str(&mut v, ":");
    push_two_digits(&mut v, d.minute);
    assert(v@ =~= br_datetime(d));
    from_chars(&v)
}

// ---------------------------------------------------------------------------
// Relative times
// ---------------------------------------------------------------------------

/// `prefix + n + suffix`.
pub open spec fn count_text(prefix: Seq<char>, n: int, suffix: Seq<char>) -> Seq<char> {
    prefix + signed_decimal(n) + suffix
}

fn count_string(prefix: &str, n: i64, suffix: &str) -> (s: String)
    ensures
        s@ == count_text(prefix@, n as int, suffix@),
{
    let mut v = to_chars(prefix);
    let d = i64_digits(n);
    push_all(&mut v, &d);
    push_str(&mut v, suffix);
    from_chars(&v)
}

/// How long ago an audit event happened, `span` microseconds before now.
pub open spec fn audit_age(span: int) -> Seq<char> {
    if seconds_of(span) < 60 {
        "Agora"@
    } else if minutes_of(span) < 60 {
        count_text("Há "@, minutes_of(span), " min"@)
    } else if hours_of(span) < 24 {
        count_text("Há "@, hours_of(span), " h"@)
    } else if days_of(span) < 7 {
        count_text("Há "@, days_of(span), " dias"@)
    } else {
        count_text("Há "@, weeks_of(span), " sem"@)
    }
}

/// Renders how long ago an audit event at `at` happened, seen at `now`.
pub fn audit_age_text(at: i64, now: i64) -> (s: String)
    ensures
        s@ == audit_age(now - at),
{
    let u = span_units(at, now);
    if u.seconds < 60 {
        "Agora".to_owned()
    } else if u.minutes < 60 {
        count_string("Há ", u.minutes, " min")
    } else if u.hours < 24 {
        count_string("Há ", u.hours, " h")
    } else if u.days < 7 {
        count_string("Há ", u.days, " dias")
    } else {
        count_string("Há ", u.weeks, " sem")
    }
}

/// How long ago a notification arrived.
pub open spec fn notification_age(span: int) -> Seq<char> {
    if minutes_of(span) < 1 {
        "agora"@
    } else if minutes_of(span) < 60 {
        count_text(""@, minutes_of(span), "m atrás"@)
    } else if hours_of(span) < 24 {
        count_text(""@, hours_of(span), "h atrás"@)
    } else {
        count_text(""@, days_of(span), "d atrás"@)
    }
}

/// Renders how long ago a notification created at `at` arrived, seen at `now`.
pub fn notification_age_text(at: i64, now: i64) -> (s: String)
    ensures
        s@ == notification_age(now - at),
{
    let u = span_units(at, now);
    if u.minutes < 1 {
        "agora".to_owned()
    } else if u.minutes < 60 {
        count_string("", u.minutes, "m atrás")
    } else if u.hours < 24 {
        count_string("", u.hours, "h atrás")
    } else {
        count_string("", u.days, "d atrás")
    }
}

/// How long ago a session was opened.
pub open spec fn session_age(span: int) -> Seq<char> {
    if minutes_of(span) < 1 {
        "Agora mesmo"@
    } else if minutes_of(span) < 60 {
        count_text(""@, minutes_of(span), "m atrás"@)
    } else if hours_of(span) < 24 {
        count_text(""@, hours_of(span), "h atrás"@)
    } else {
        count_text(""@, days_of(span), "d atrás"@)
    }
}

/// How long a session has left.
pub open spec fn session_remaining(span: int) -> Seq<char> {
    if minutes_of(span) < 60 {
        count_text(""@, minutes_of(span), " min"@)
    } else {
        count_text(""@, hours_of(span), " h"@)
    }
}

// ---------------------------------------------------------------------------
// Audit logs
// ---------------------------------------------------------------------------

/// A stored audit event.
pub struct AuditRecord {
    pub id: u128,
    pub action: String,
    pub entity_type: String,
    pub entity_id: Option<u128>,
    pub user_id: Option<u128>,
    pub details: Option<String>,
    pub ip_address: Option<String>,
    /// When it happened.
    pub created_at: i64,
    /// `created_at` in the time zone it was stored with.
    pub created_parts: DateParts,
}

/// An audit event as the audit screen shows it.
pub struct AuditLogViewModel {
    pub id: String,
    pub action: String,
    pub action_badge_class: String,
    pub entity_type: String,
    pub entity_id: Option<String>,
    pub user_id: Option<String>,
    pub username: Option<String>,
    pub details: Option<String>,
    pub ip_address: Option<String>,
    pub created_at: String,
    pub created_at_relative: String,
}

/// The badge style of an audit action.
pub open spec fn action_badge_of(action: Seq<char>) -> Seq<char> {
    if action == "create"@ {
        "badge--success"@
    } else if action == "update"@ {
        "badge--info"@
    } else if action == "delete"@ {
        "badge--danger"@
    } else if action == "login"@ {
        "badge--purple"@
    } else if action == "logout"@ {
        "badge--secondary"@
    } else {
        "badge--default"@
    }
}

/// The badge style of an audit action.
pub fn action_badge_class(action: &str) -> (c: String)
    ensures
        c@ == action_badge_of(action@),
{
    if str_eq(action, "create") {
        "badge--success".to_owned()
    } else if str_eq(action, "update") {
        "badge--info".to_owned()
    } else if str_eq(action, "delete") {
        "badge--danger".to_owned()
    } else if str_eq(action, "login") {
        "badge--purple".to_owned()
    } else if str_eq(action, "logout") {
        "badge--secondary".to_owned()
    } else {
        "badge--default".to_owned()
    }
}

/// The text of an optional UUID.
pub open spec fn opt_uuid_text(id: Option<u128>) -> Option<Seq<char>> {
    match id {
        Some(x) => Some(uuid_text(x)),
        None => None,
    }
}

fn opt_uuid_string(id: Option<u128>) -> (s: Option<String>)
    ensures
        opt_view(s) == opt_uuid_text(id),
{
    match id {
        Some(x) => Some(uuid_to_string(x)),
        None => None,
    }
}

impl AuditLogViewModel {
    /// The audit event as shown at `now`; the username is left to the caller.
    pub fn from_record(r: AuditRecord, now: i64) -> (vm: Self)
        ensures
            vm.id@ == uuid_text(r.id),
            vm.action@ == r.action@,
            vm.action_badge_class@ == action_badge_of(r.action@),
            vm.entity_type@ == r.entity_type@,
            opt_view(vm.entity_id) == opt_uuid_text(r.entity_id),
            opt_view(vm.user_id) == opt_uuid_text(r.user_id),
            vm.username is None,
            vm.details == r.details,
            vm.ip_address == r.ip_address,
            vm.created_at@ == iso_datetime(r.created_parts),
            vm.created_at_relative@ == audit_age(now - r.created_at),
    {
        let badge = action_badge_class(r.action.as_str());
        AuditLogViewModel {
            id: uuid_to_string(r.id),
            action_badge_class: badge,
            action: r.action,
            entity_type: r.entity_type,
            entity_id: opt_uuid_string(r.entity_id),
            user_id: opt_uuid_string(r.user_id),
            username: None,
            details: r.details,
            ip_address: r.ip_address,
            created_at: format_iso_datetime(r.created_parts),
            created_at_relative: audit_age_text(r.created_at, now),
        }
    }
}

/// A CSV field: quotes doubled.
pub open spec fn csv_escaped(s: Seq<char>) -> Seq<char>
    decreases s.len(),
{
    if s.len() == 0 {
        Seq::empty()
    } else if s.last() == '"' {
        csv_escaped(s.drop_last()) + seq!['"', '"']
    } else {
        csv_escaped(s.drop_last()).push(s.last())
    }
}

/// Doubles the quotes of a text.
pub fn csv_escape(s: &str) -> (r: Vec<char>)
    ensures
        r@ == csv_escaped(s@),
{
    let v = to_chars(s);
    let mut r: Vec<char> = Vec::new();
    for i in 0..v.len()
        invariant
            v@ == s@,
            r@ == csv_escaped(v@.take(i as int)),
    {
        assert(v@.take(i + 1).drop_last() == v@.take(i as int));
        if v[i] == '"' {
            r.push('"');
            r.push('"');
            assert(r@ =~= csv_escaped(v@.take(i as int)) + seq!['"', '"']);
        } else {
            r.push(v[i]);
        }
    }
    assert(v@.take(v.len() as int) == v@);
    r
}

/// Header line of the audit export.
pub const CSV_HEADER: &'static str = "Data/Hora,Ação,Entidade,ID Entidade,Usuário,IP,Detalhes\n";

/// `"` + the text + `"`.
pub open spec fn quoted(s: Seq<char>) -> Seq<char> {
    seq!['"'] + s + seq!['"']
}

fn push_quoted(v: &mut Vec<char>, s: &Vec<char>)
    ensures
        final(v)@ == old(v)@ + quoted(s@),
{
    v.push('"');
    push_all(v, s);
    v.push('"');
    assert(v@ =~= old(v)@ + quoted(s@));
}

/// The seven quoted fields of an export line, in order.
pub open spec fn csv_fields(r: AuditRecord, username: Option<Seq<char>>) -> Seq<Seq<char>> {
    seq![
        chrono_iso_datetime(r.created_parts),
        r.action@,
        r.entity_type@,
        match r.entity_id {
            Some(x) => uuid_text(x),
            None => "-"@,
        },
        match username {
            Some(u) => u,
            None => "-"@,
        },
        match r.ip_address {
            Some(ip) => ip@,
            None => "-"@,
        },
        csv_escaped(
            match r.details {
                Some(d) => d@,
                None => Seq::empty(),
            },
        ),
    ]
}

/// The fields quoted and separated by commas.
pub open spec fn quoted_joined(fields: Seq<Seq<char>>) -> Seq<char>
    decreases fields.len(),
{
    if fields.len() == 0 {
        Seq::empty()
    } else if fields.len() == 1 {
        quoted(fields[0])
    } else {
        quoted_joined(fields.drop_last()) + ","@ + quoted(fields.last())
    }
}

/// One line of the audit export: date, action, entity type, entity id,
/// username, IP and details, each quoted and comma-separated; missing values
/// read `-`, missing details read empty, and only the details have their
/// quotes doubled.
pub open spec fn csv_line(r: AuditRecord, username: Option<Seq<char>>) -> Seq<char> {
    quoted_joined(csv_fields(r, username)) + "\n"@
}

/// Appends one line of the audit export; `username` is the name of the
/// event's user when known.
pub fn push_csv_line(out: &mut Vec<char>, r: &AuditRecord, username: Option<String>)
    ensures
        final(out)@ == old(out)@ + csv_line(*r, opt_view(username)),
{
    let ghost uv = opt_view(username);
    let date = format_chrono_iso_datetime(r.created_parts);
    let eid = match r.entity_id {
        Some(x) => uuid_to_string(x),
        None => "-".to_owned(),
    };
    let un = match username {
        Some(u) => u,
        None => "-".to_owned(),
    };
    let ip = match &r.ip_address {
        Some(ip) => ip.clone(),
        None => "-".to_owned(),
    };
    let details = match &r.details {
        Some(d) => d.clone(),
        None => String::new(),
    };
    let mut fields: Vec<Vec<char>> = Vec::new();
    fields.push(to_chars(date.as_str()));
    fields.push(to_chars(r.action.as_str()));
    fields.push(to_chars(r.entity_type.as_str()));
    fields.push(to_chars(eid.as_str()));
    fields.push(to_chars(un.as_str()));
    fields.push(to_chars(ip.as_str()));
    fields.push(csv_escape(details.as_str()));
    let ghost fv = csv_fields(*r, uv);
    assert(fields@.map_values(|f: Vec<char>| f@) =~= fv);
    let mut line: Vec<char> = Vec::new();
    for i in 0..fields.len()
        invariant
            fields@.len() == 7,
            fields@.map_values(|f: Vec<char>| f@) == fv,
            line@ == quoted_joined(fv.take(i as int)),
    {
        assert(fv.take(i + 1).drop_last() =~= fv.take(i as int));
        assert(fv.take(i + 1).last() == fields@[i as int]@);
        if i > 0 {
            push_str(&mut line, ",");
        } else {
            assert(fv.take(i + 1).len() == 1);
            assert(line@ =~= Seq::<char>::empty());
        }
        push_quoted(&mut line, &fields[i]);
        assert(line@ =~= quoted_joined(fv.take(i + 1)));
    }
    assert(fv.take(7) == fv);
    push_str(&mut line, "\n");
    push_all(out, &line);
}

// ---------------------------------------------------------------------------
// Notifications
// ---------------------------------------------------------------------------

/// A stored notification.
pub struct NotificationRecord {
    pub id: u128,
    pub title: String,
    pub message: String,
    pub notification_type: String,
    pub is_read: bool,
    pub action_url: Option<String>,
    pub created_at: i64,
    pub created_parts: DateParts,
}

/// A notification as the dropdown shows it.
pub struct NotificationViewModel {
    pub id: String,
    pub title: String,
    pub message: String,
    pub notification_type: String,
    pub is_read: bool,
    pub action_url: Option<String>,
    pub created_at: String,
    pub time_ago: String,
}

impl NotificationViewModel {
    /// The notification as shown at `now`.
    pub fn from_record(n: NotificationRecord, now: i64) -> (vm: Self)
        ensures
            vm.id@ == uuid_text(n.id),
            vm.title == n.title,
            vm.message == n.message,
            vm.notification_type == n.notification_type,
            vm.is_read == n.is_read,
            vm.action_url == n.action_url,
            vm.created_at@ == br_datetime(n.created_parts),
            vm.time_ago@ == notification_age(now - n.created_at),
    {
        NotificationViewModel {
            id: uuid_to_string(n.id),
            title: n.title,
            message: n.message,
            notification_type: n.notification_type,
            is_read: n.is_read,
            action_url: n.action_url,
            created_at: format_br_datetime(n.created_parts),
            time_ago: notification_age_text(n.created_at, now),
        }
    }
}

/// Whether the bell shows unread notifications.
pub fn has_unread(unread_count: u64) -> (b: bool)
    ensures
        b == (unread_count > 0),
{
    unread_count > 0
}

// ---------------------------------------------------------------------------
// Sessions
// ---------------------------------------------------------------------------

/// A stored session, as the session list shows it.
pub struct SessionRecord {
    pub id: u128,
    pub token: String,
    pub ip_address: Option<String>,
    pub user_agent: Option<String>,
    pub created_at: i64,
    /// `created_at` in UTC.
    pub created_parts_utc: DateParts,
    pub expires_at: i64,
}

/// A session as the session list shows it.
pub struct SessionViewModel {
    pub id: String,
    pub ip_address: String,
    pub user_agent: String,
    pub created_at: String,
    pub last_accessed: String,
    pub is_current: bool,
    pub expires_in: String,
}

impl SessionViewModel {
    /// The session as shown at `now` to the holder of `current_token`.
    pub fn from_record(s: SessionRecord, current_token: &str, now: i64) -> (vm: Self)
        ensures
            vm.id@ == uuid_text(s.id),
            vm.ip_address@ == (match s.ip_address {
                Some(ip) => ip@,
                None => "Desconhecido"@,
            }),
            vm.user_agent@ == (match s.user_agent {
                Some(ua) => ua@,
                None => "Desconhecido"@,
            }),
            vm.created_at@ == br_datetime(s.created_parts_utc),
            vm.last_accessed@ == session_age(now - s.created_at),
            vm.is_current == (s.token@ == current_token@),
            vm.expires_in@ == session_remaining(s.expires_at - now),
    {
        let is_current = str_eq(s.token.as_str(), current_token);
        let left = span_units(now, s.expires_at);
        let expires_in = if left.minutes < 60 {
            count_string("", left.minutes, " min")
        } else {
            count_string("", left.hours, " h")
        };
        let age = span_units(s.created_at, now);
        let last_accessed = if age.minutes < 1 {
            "Agora mesmo".to_owned()
        } else if age.minutes < 60 {
            count_string("", age.minutes, "m atrás")
        } else if age.hours < 24 {
            count_string("", age.hours, "h atrás")
        } else {
            count_string("", age.days, "d atrás")
        };
        SessionViewModel {
            id: uuid_to_string(s.id),
            ip_address: match s.ip_address {
                Some(ip) => ip,
                None => "Desconhecido".to_owned(),
            },
            user_agent: match s.user_agent {
                Some(ua) => ua,
                None => "Desconhecido".to_owned(),
            },
            created_at: format_br_datetime(s.created_parts_utc),
            last_accessed,
            is_current,
            expires_in,
        }
    }
}

// ---------------------------------------------------------------------------
// Posts
// ---------------------------------------------------------------------------

/// A stored post.
pub struct PostRecord {
    pub id: i32,
    pub title: String,
    pub text: String,
    pub author: String,
    pub category: String,
    pub status: String,
    pub image_url: String,
    pub date: DateParts,
    pub views: i32,
    pub comments: i32,
}

/// A post as the post list shows it.
pub struct PostViewModel {
    pub id: u32,
    pub title: String,
    pub author: String,
    pub category: String,
    pub status: String,
    pub date: String,
    pub views: String,
    pub comments: u32,
    pub image_url: String,
}

impl PostViewModel {
    /// The post as listed (ids and comment counts as unsigned, as cast).
    pub fn from_record(p: PostRecord) -> (vm: Self)
        ensures
            vm.id == p.id as u32,
            vm.title == p.title,
            vm.author == p.author,
            vm.category == p.category,
            vm.status == p.status,
            vm.date@ == br_date(p.date),
            vm.views@ == signed_decimal(p.views as int),
            vm.comments == p.comments as u32,
            vm.image_url == p.image_url,
    {
        let views = from_chars(&i64_digits(p.views as i64));
        PostViewModel {
            id: p.id as u32,
            title: p.title,
            author: p.author,
            category: p.category,
            status: p.status,
            date: format_br_date(p.date),
            views,
            comments: p.comments as u32,
            image_url: p.image_url,
        }
    }
}

// ---------------------------------------------------------------------------
// Users and roles
// ---------------------------------------------------------------------------

/// A role badge.
pub struct RoleBadge {
    pub name: String,
    pub color: String,
}

/// A role offered in the user forms.
pub struct RoleViewModel {
    pub id: u128,
    pub name: String,
    pub color: String,
}

impl RoleViewModel {
    /// The role with its color.
    pub fn from_role(id: u128, name: String) -> (vm: Self)
        ensures
            vm.id == id,
            vm.name == name,
            vm.color@ == role_color_of(name@),
    {
        let color = role_color(name.as_str());
        RoleViewModel { id, name, color }
    }
}

/// A stored user, as the listings need it.
pub struct UserRecord {
    pub id: u128,
    pub name: String,
    pub username: String,
    pub email: String,
    pub status: String,
}

/// A user with the names of their roles.
pub struct UserWithRole {
    pub user: UserRecord,
    pub role_names: Vec<String>,
}

/// A user as the user list shows them.
pub struct UserViewModel {
    pub id: u128,
    pub name: String,
    pub email: String,
    pub roles: Vec<RoleBadge>,
    pub status: String,
    pub avatar_initials: String,
}

/// What `str::to_uppercase` makes of a text (Unicode uppercase mapping).
pub uninterp spec fn uppercased(s: Seq<char>) -> Seq<char>;

/// `str::to_uppercase`. Its result is named `uppercased`.
#[verifier::external_body]
pub(crate) fn to_uppercase(s: &str) -> (r: String)
    ensures
        r@ == uppercased(s@),
{
    s.to_uppercase()
}

/// The avatar of a user: the first two characters of the username, uppercased.
pub open spec fn avatar_of(username: Seq<char>) -> Seq<char> {
    uppercased(username.take(if username.len() < 2 { username.len() as int } else { 2 }))
}

fn avatar_initials(username: &str) -> (r: String)
    ensures
        r@ == avatar_of(username@),
{
    let v = to_chars(username);
    let n = if v.len() < 2 { v.len() } else { 2 };
    let mut w: Vec<char> = Vec::new();
    for i in 0..n
        invariant
            n <= v.len(),
            w@ == v@.take(i as int),
    {
        w.push(v[i]);
        assert(v@.take(i + 1) == v@.take(i as int).push(v@[i as int]));
    }
    let s = from_chars(&w);
    to_uppercase(s.as_str())
}

/// The badges of a list of role names, each with its color.
pub open spec fn badges_match(badges: Seq<RoleBadge>, names: Seq<String>) -> bool {
    &&& badges.len() == names.len()
    &&& forall|i: int|
        0 <= i < names.len() ==> (#[trigger] badges[i]).name == names[i] && badges[i].color@
            == role_color_of(names[i]@)
}

/// The badge shown for a user without roles.
pub const NO_ROLE: &'static str = "Sem Role";

impl UserViewModel {
    /// A user with no role information: one "Sem Role" badge.
    pub fn from_user(u: UserRecord) -> (vm: Self)
        ensures
            vm.id == u.id,
            vm.name == u.name,
            vm.email == u.email,
            vm.status == u.status,
            vm.avatar_initials@ == avatar_of(u.username@),
            vm.roles@.len() == 1,
            vm.roles@[0].name@ == "Sem Role"@,
            vm.roles@[0].color@ == role_color_of("Sem Role"@),
    {
        let mut roles: Vec<RoleBadge> = Vec::new();
        roles.push(RoleBadge { name: "Sem Role".to_owned(), color: role_color("Sem Role") });
        let avatar = avatar_initials(u.username.as_str());
        UserViewModel {
            id: u.id,
            name: u.name,
            email: u.email,
            roles,
            status: u.status,
            avatar_initials: avatar,
        }
    }

    /// A user with their roles, one badge per role name.
    pub fn from_user_with_roles(uwr: UserWithRole) -> (vm: Self)
        ensures
            vm.id == uwr.user.id,
            vm.name == uwr.user.name,
            vm.email == uwr.user.email,
            vm.status == uwr.user.status,
            vm.avatar_initials@ == avatar_of(uwr.user.username@),
            badges_match(vm.roles@, uwr.role_names@),
    {
        let mut roles: Vec<RoleBadge> = Vec::new();
        for i in 0..uwr.role_names.len()
            invariant
                roles@.len() == i,
                forall|q: int|
                    0 <= q < i ==> (#[trigger] roles@[q]).name == uwr.role_names@[q]
                        && roles@[q].color@ == role_color_of(uwr.role_names@[q]@),
        {
            let name = uwr.role_names[i].clone();
            let color = role_color(name.as_str());
            roles.push(RoleBadge { name, color });
        }
        let u = uwr.user;
        let avatar = avatar_initials(u.username.as_str());
        UserViewModel {
            id: u.id,
            name: u.name,
            email: u.email,
            roles,
            status: u.status,
            avatar_initials: avatar,
        }
    }
}

} // verus!
