//! CSRF protection with the double-submit cookie pattern.
//!
//! State-changing requests must echo the token of the `csrf_token` cookie,
//! in the `X-CSRF-Token` header or, failing that, in a `csrf_token` query
//! parameter.
use vstd::prelude::*;
use crate::text::{to_chars, str_eq, has_prefix, opt_view, from_chars};
use vstd::string::StringSliceAdditionalSpecFns;

verus! {

broadcast use vstd::string::group_string_axioms;

/// Name of the CSRF cookie.
pub const CSRF_COOKIE_NAME: &'static str = "csrf_token";

/// Name of the header HTMX sends the token in.
pub const CSRF_HEADER_NAME: &'static str = "x-csrf-token";

/// Compares two strings in time that depends only on their length: equal
/// exactly when they hold the same bytes.
pub fn constant_time_compare(a: &str, b: &str) -> (eq: bool)
    ensures
        eq == (a.spec_bytes() == b.spec_bytes()),
{
    let x = a.as_bytes();
    let y = b.as_bytes();
    if x.len() != y.len() {
        return false;
    }
    let mut acc: u8 = 0;
    for i in 0..x.len()
        invariant
            x@ == a.spec_bytes(),
            y@ == b.spec_bytes(),
            x@.len() == y@.len(),
            (acc == 0) == (forall|j: int| 0 <= j < i ==> x@[j] == y@[j]),
    {
        let p = x[i];
        let q = y[i];
        let next = acc | (p ^ q);
        assert((next == 0) == (acc == 0 && p == q)) by (bit_vector)
            requires
                next == acc | (p ^ q),
        ;
        acc = next;
    }
    assert(acc == 0 ==> x@ =~= y@);
    acc == 0
}

/// Equal bytes mean equal strings: the comparison accepts exactly the token itself.
pub proof fn constant_time_compare_is_equality(a: &str, b: &str)
    ensures
        (a.spec_bytes() == b.spec_bytes()) == (a@ == b@),
{
    vstd::utf8::encode_utf8_decode_utf8(a@);
    vstd::utf8::encode_utf8_decode_utf8(b@);
}

/// Position of the first `&` in `s`, or its length.
pub open spec fn segment_end(s: Seq<char>) -> nat
    decreases s.len(),
{
    if s.len() == 0 {
        0
    } else if s[0] == '&' {
        0
    } else {
        1 + segment_end(s.drop_first())
    }
}

/// The first `&`-separated segment of `s` that starts with `prefix`.
pub open spec fn first_segment_with_prefix(s: Seq<char>, prefix: Seq<char>) -> Option<Seq<char>>
    decreases s.len(),
{
    let end = segment_end(s);
    let seg = s.take(end as int);
    if has_prefix(seg, prefix) {
        Some(seg)
    } else if end >= s.len() {
        None
    } else {
        first_segment_with_prefix(s.skip(end + 1 as int), prefix)
    }
}

/// `s` with every leading copy of `prefix` removed (`trim_start_matches`).
pub open spec fn trim_prefix_all(s: Seq<char>, prefix: Seq<char>) -> Seq<char>
    decreases s.len(),
{
    if prefix.len() > 0 && has_prefix(s, prefix) {
        trim_prefix_all(s.skip(prefix.len() as int), prefix)
    } else {
        s
    }
}

/// The token a query string carries: from its first `csrf_token=` parameter.
pub open spec fn query_token_of(query: Seq<char>) -> Option<Seq<char>> {
    match first_segment_with_prefix(query, "csrf_token="@) {
        Some(seg) => Some(trim_prefix_all(seg, "csrf_token="@)),
        None => None,
    }
}

proof fn lemma_segment_end(s: Seq<char>)
    ensures
        segment_end(s) <= s.len(),
        forall|i: int| 0 <= i < segment_end(s) ==> s[i] != '&',
        segment_end(s) < s.len() ==> s[segment_end(s) as int] == '&',
    decreases s.len(),
{
    if s.len() > 0 && s[0] != '&' {
        lemma_segment_end(s.drop_first());
        assert forall|i: int| 0 <= i < segment_end(s) implies s[i] != '&' by {
            if i > 0 {
                assert(s[i] == s.drop_first()[i - 1]);
            }
        }
    }
}

fn segment_end_exec(v: &Vec<char>, start: usize) -> (e: usize)
    requires
        start <= v.len(),
    ensures
        e == start + segment_end(v@.skip(start as int)),
        e <= v.len(),
{
    let mut i = start;
    proof {
        lemma_segment_end(v@.skip(start as int));
    }
    while i < v.len() && v[i] != '&'
        invariant
            start <= i <= v.len(),
            forall|k: int| start <= k < i ==> v@[k] != '&',
        decreases v.len() - i,
    {
        i = i + 1;
    }
    proof {
        let t = v@.skip(start as int);
        lemma_segment_end(t);
        let e = segment_end(t);
        if e < i - start {
            assert(t[e as int] == '&');
            assert(v@[start + e] == '&');
        } else if e > i - start {
            assert(t[i - start] != '&');
            assert(v@[i as int] == t[i - start]);
        }
    }
    i
}

fn trim_prefix_all_exec(s: Vec<char>, prefix: &Vec<char>) -> (r: Vec<char>)
    requires
        prefix.len() > 0,
    ensures
        r@ == trim_prefix_all(s@, prefix@),
    decreases s.len(),
{
    if crate::text::starts_with(&s, prefix) {
        let mut rest: Vec<char> = Vec::new();
        let n = prefix.len();
        for i in n..s.len()
            invariant
                n == prefix.len(),
                n <= s.len(),
                rest@ == s@.subrange(n as int, i as int),
        {
            rest.push(s[i]);
            assert(s@.subrange(n as int, i + 1) == s@.subrange(n as int, i as int).push(s@[i as int]));
        }
        assert(rest@ == s@.skip(n as int));
        trim_prefix_all_exec(rest, prefix)
    } else {
        s
    }
}

/// Extracts the token from a query string (`csrf_token=...`).
pub fn query_token(query: &str) -> (t: Option<String>)
    ensures
        opt_view(t) == query_token_of(query@),
{
    let v = to_chars(query);
    let prefix = to_chars("csrf_token=");
    proof {
        reveal_strlit("csrf_token=");
    }
    let mut start: usize = 0;
    assert(v@.skip(0) == v@);
    loop
        invariant
            v@ == query@,
            prefix.len() > 0,
            start <= v.len(),
            prefix@ == "csrf_token="@,
            first_segment_with_prefix(v@, prefix@) == first_segment_with_prefix(
                v@.skip(start as int),
                prefix@,
            ),
        decreases v.len() - start,
    {
        let end = segment_end_exec(&v, start);
        let mut seg: Vec<char> = Vec::new();
        for i in start..end
            invariant
                start <= end <= v.len(),
                seg@ == v@.subrange(start as int, i as int),
        {
            seg.push(v[i]);
            assert(v@.subrange(start as int, i + 1) == v@.subrange(start as int, i as int).push(v@[i as int]));
        }
        let ghost t = v@.skip(start as int);
        assert(seg@ == t.take(segment_end(t) as int));
        if crate::text::starts_with(&seg, &prefix) {
            let r = trim_prefix_all_exec(seg, &prefix);
            return Some(from_chars(&r));
        }
        if end >= v.len() {
            return None;
        }
        assert(t.skip(segment_end(t) + 1 as int) == v@.skip(end + 1));
        start = end + 1;
    }
}

/// What the CSRF layer does with a request.
#[derive(Clone, Copy, PartialEq, Eq, Structural)]
pub enum CsrfDecision {
    /// Let the request through, issuing a token cookie if none is set.
    PassEnsureCookie,
    /// Let the request through unchanged.
    Pass,
    /// 403: the request carries no token cookie.
    RejectNoCookie,
    /// 403: the request submits no token.
    RejectMissingToken,
    /// 403: the submitted token differs from the cookie.
    RejectMismatch,
}

impl CsrfDecision {
    /// The text of the 403 answer, for rejections.
    pub fn message(&self) -> (m: Option<String>)
        ensures
            m is Some <==> (self != &CsrfDecision::PassEnsureCookie && self != &CsrfDecision::Pass),
            *self == CsrfDecision::RejectMissingToken ==> m->0@ == "CSRF token ausente"@,
            (*self == CsrfDecision::RejectNoCookie || *self == CsrfDecision::RejectMismatch)
                ==> m->0@ == "CSRF token inválido"@,
    {
        match self {
            CsrfDecision::PassEnsureCookie => None,
            CsrfDecision::Pass => None,
            CsrfDecision::RejectNoCookie => Some("CSRF token inválido".to_owned()),
            CsrfDecision::RejectMissingToken => Some("CSRF token ausente".to_owned()),
            CsrfDecision::RejectMismatch => Some("CSRF token inválido".to_owned()),
        }
    }
}

/// Whether a method cannot change state.
pub open spec fn is_safe_method(method: Seq<char>) -> bool {
    method == "GET"@ || method == "HEAD"@ || method == "OPTIONS"@
}

/// The token a request submits: the header, else the query parameter.
pub open spec fn submitted_token(header: Option<Seq<char>>, query: Option<Seq<char>>) -> Option<
    Seq<char>,
> {
    match header {
        Some(h) => Some(h),
        None => match query {
            Some(q) => query_token_of(q),
            None => None,
        },
    }
}

/// The CSRF decision for a request.
pub open spec fn csrf_decision_of(
    method: Seq<char>,
    path: Seq<char>,
    cookie: Option<Seq<char>>,
    header: Option<Seq<char>>,
    query: Option<Seq<char>>,
) -> CsrfDecision {
    if is_safe_method(method) || path == "/admin/login"@ {
        CsrfDecision::PassEnsureCookie
    } else if path == "/admin/toasts/dismiss"@ {
        CsrfDecision::Pass
    } else {
        match (cookie, submitted_token(header, query)) {
            (None, _) => CsrfDecision::RejectNoCookie,
            (Some(_), None) => CsrfDecision::RejectMissingToken,
            (Some(c), Some(s)) => if c == s {
                CsrfDecision::Pass
            } else {
                CsrfDecision::RejectMismatch
            },
        }
    }
}

/// Decides what to do with a request, given its method, path, token cookie,
/// `X-CSRF-Token` header and query string.
pub fn csrf_decision(
    method: &str,
    path: &str,
    cookie: Option<String>,
    header: Option<String>,
    query: Option<String>,
) -> (d: CsrfDecision)
    ensures
        d == csrf_decision_of(method@, path@, opt_view(cookie), opt_view(header), opt_view(query)),
{
    if str_eq(method, "GET") || str_eq(method, "HEAD") || str_eq(method, "OPTIONS") || str_eq(
        path,
        "/admin/login",
    ) {
        return CsrfDecision::PassEnsureCookie;
    }
    if str_eq(path, "/admin/toasts/dismiss") {
        return CsrfDecision::Pass;
    }
    let submitted: Option<String> = match header {
        Some(h) => Some(h),
        None => match query {
            Some(q) => query_token(q.as_str()),
            None => None,
        },
    };
    match (cookie, submitted) {
        (None, _) => CsrfDecision::RejectNoCookie,
        (Some(_), None) => CsrfDecision::RejectMissingToken,
        (Some(c), Some(s)) => {
            let cs = c.as_str();
            let ss = s.as_str();
            proof {
                constant_time_compare_is_equality(cs, ss);
            }
            if constant_time_compare(cs, ss) {
                CsrfDecision::Pass
            } else {
                CsrfDecision::RejectMismatch
            }
        },
    }
}

/// Safe methods always go through.
pub proof fn safe_methods_pass(
    method: Seq<char>,
    path: Seq<char>,
    cookie: Option<Seq<char>>,
    header: Option<Seq<char>>,
    query: Option<Seq<char>>,
)
    requires
        is_safe_method(method),
    ensures
        csrf_decision_of(method, path, cookie, header, query) == CsrfDecision::PassEnsureCookie,
{
}

/// A state-changing request outside the two exempt paths goes through only
/// when it submits exactly the token of its cookie.
pub proof fn unsafe_request_needs_matching_token(
    method: Seq<char>,
    path: Seq<char>,
    cookie: Option<Seq<char>>,
    header: Option<Seq<char>>,
    query: Option<Seq<char>>,
)
    requires
        !is_safe_method(method),
        path != "/admin/login"@,
        path != "/admin/toasts/dismiss"@,
    ensures
        (csrf_decision_of(method, path, cookie, header, query) == CsrfDecision::Pass) == (
        cookie is Some && submitted_token(header, query) == cookie),
        csrf_decision_of(method, path, cookie, header, query) != CsrfDecision::PassEnsureCookie,
{
}

} // verus!
