//! Sign-in rules: e-mail address checks, bearer-token extraction, the
//! admin gate, session claims, and the magic-link URL.

use vstd::prelude::*;
use crate::ratelimit::{RateLimiter, next_log, refused};
use crate::tokens::{hyphenated_v4, random_uuid};
use crate::text::{
    chars_eq, chars_of, has_prefix, lowercase, push_chars, push_str, split_chars, split_seq,
    starts_with, str_eq, string_of, to_lowercase, trim_chars, trim_end_char, trim_end_char_seq,
    trim_seq, views,
};

verus! {

// ─────────────────────────── byte helpers ───────────────────────────

/// Position of the first `x` in `s`, if any.
pub open spec fn first_of<A>(s: Seq<A>, x: A) -> Option<int> {
    if exists|i: int| 0 <= i < s.len() && s[i] == x {
        Some(choose|i: int| 0 <= i < s.len() && s[i] == x && forall|k: int| 0 <= k < i ==> s[k] != x)
    } else {
        None
    }
}

/// Position of the last `x` in `s`, if any.
pub open spec fn last_of<A>(s: Seq<A>, x: A) -> Option<int> {
    if exists|i: int| 0 <= i < s.len() && s[i] == x {
        Some(choose|i: int| 0 <= i < s.len() && s[i] == x && forall|k: int| i < k < s.len() ==> s[k] != x)
    } else {
        None
    }
}

pub(crate) proof fn lemma_first_of<A>(s: Seq<A>, x: A, i: int)
    requires
        0 <= i < s.len(),
        s[i] == x,
        forall|k: int| 0 <= k < i ==> s[k] != x,
    ensures
        first_of(s, x) == Some(i),
{
    let j = choose|j: int| 0 <= j < s.len() && s[j] == x && forall|k: int| 0 <= k < j ==> s[k] != x;
    assert(0 <= j < s.len() && s[j] == x && forall|k: int| 0 <= k < j ==> s[k] != x);
    if j < i {
        assert(s[j] != x);
    }
    if i < j {
        assert(s[i] != x);
    }
}

proof fn lemma_last_of<A>(s: Seq<A>, x: A, i: int)
    requires
        0 <= i < s.len(),
        s[i] == x,
        forall|k: int| i < k < s.len() ==> s[k] != x,
    ensures
        last_of(s, x) == Some(i),
{
    let j = choose|j: int| 0 <= j < s.len() && s[j] == x && forall|k: int| j < k < s.len() ==> s[k] != x;
    assert(0 <= j < s.len() && s[j] == x && forall|k: int| j < k < s.len() ==> s[k] != x);
    if j < i {
        assert(s[i] != x);
    }
    if i < j {
        assert(s[j] != x);
    }
}

fn find_byte(s: &[u8], from: usize, x: u8) -> (r: Option<usize>)
    requires
        from <= s@.len(),
    ensures
        match r {
            Some(i) => from <= i < s@.len() && first_of(s@.subrange(from as int, s@.len() as int), x)
                == Some(i - from),
            None => first_of(s@.subrange(from as int, s@.len() as int), x) is None,
        },
{
    let ghost t = s@.subrange(from as int, s@.len() as int);
    let mut i: usize = from;
    while i < s.len()
        invariant
            from <= i <= s@.len(),
            t == s@.subrange(from as int, s@.len() as int),
            forall|k: int| 0 <= k < i - from ==> t[k] != x,
        decreases s.len() - i,
    {
        if s[i] == x {
            proof {
                lemma_first_of(t, x, i - from);
            }
            return Some(i);
        }
        i = i + 1;
    }
    None
}

fn rfind_byte(s: &[u8], from: usize, x: u8) -> (r: Option<usize>)
    requires
        from <= s@.len(),
    ensures
        match r {
            Some(i) => from <= i < s@.len() && last_of(s@.subrange(from as int, s@.len() as int), x)
                == Some(i - from),
            None => last_of(s@.subrange(from as int, s@.len() as int), x) is None,
        },
{
    let ghost t = s@.subrange(from as int, s@.len() as int);
    let mut i: usize = s.len();
    while i > from
        invariant
            from <= i <= s@.len(),
            t == s@.subrange(from as int, s@.len() as int),
            forall|k: int| i - from <= k < t.len() ==> t[k] != x,
        decreases i,
    {
        if s[i - 1] == x {
            proof {
                lemma_last_of(t, x, i - 1 - from);
            }
            return Some(i - 1);
        }
        i = i - 1;
    }
    None
}

/// Whether `s` holds two dots in a row.
pub open spec fn has_double_dot(s: Seq<u8>) -> bool {
    exists|i: int| 0 <= i && i + 1 < s.len() && #[trigger] s[i] == 46 && s[i + 1] == 46
}

fn double_dot_in(s: &[u8], from: usize, to: usize) -> (r: bool)
    requires
        from <= to <= s@.len(),
    ensures
        r == has_double_dot(s@.subrange(from as int, to as int)),
{
    let ghost t = s@.subrange(from as int, to as int);
    if to - from < 2 {
        return false;
    }
    let mut i: usize = from;
    while i + 1 < to
        invariant
            from <= i < to,
            to <= s@.len(),
            t == s@.subrange(from as int, to as int),
            forall|k: int| 0 <= k < i - from ==> !(#[trigger] t[k] == 46 && t[k + 1] == 46),
        decreases to - i,
    {
        if s[i] == 46 && s[i + 1] == 46 {
            assert(t[i - from] == 46 && t[i - from + 1] == 46);
            return true;
        }
        i = i + 1;
    }
    false
}

// ─────────────────────────── e-mail addresses ───────────────────────────

/// The server's check of an (already trimmed, lower-cased) address, over
/// its UTF-8 bytes: exactly one `@`, with a non-empty part before it and a
/// non-empty domain after it whose last `.` is neither first nor last and
/// leaves at least two bytes after it, and no `..` in either part.
pub open spec fn valid_email(b: Seq<u8>) -> bool {
    match first_of(b, 64u8) {
        None => false,
        Some(at) => {
            let local = b.subrange(0, at);
            let domain = b.subrange(at + 1, b.len() as int);
            &&& local.len() > 0
            &&& domain.len() > 0
            &&& first_of(domain, 64u8) is None
            &&& match last_of(domain, 46u8) {
                Some(dot) => dot != 0 && dot != domain.len() - 1 && domain.len() - dot >= 3,
                None => false,
            }
            &&& !has_double_dot(local)
            &&& !has_double_dot(domain)
        },
    }
}

/// Whether an address passes the server's check.
pub fn is_valid_email(email: &str) -> (r: bool)
    ensures
        r == valid_email(vstd::utf8::encode_utf8(email@)),
{
    let b = email.as_bytes();
    let n = b.len();
    let at = match find_byte(b, 0, 64u8) {
        Some(i) => i,
        None => {
            assert(b@.subrange(0, n as int) == b@);
            return false;
        },
    };
    assert(b@.subrange(0, n as int) == b@);
    let ghost domain = b@.subrange(at + 1, n as int);
    if at == 0 || at + 1 == n {
        return false;
    }
    if find_byte(b, at + 1, 64u8).is_some() {
        return false;
    }
    let dot = match rfind_byte(b, at + 1, 46u8) {
        Some(d) => d - (at + 1),
        None => return false,
    };
    let dlen = n - (at + 1);
    if dot == 0 || dot == dlen - 1 {
        return false;
    }
    if dlen - dot < 3 {
        return false;
    }
    !double_dot_in(b, 0, at) && !double_dot_in(b, at + 1, n)
}

/// The web client's looser check, over UTF-8 bytes: something before the
/// first `@`, and after it a last `.` that is neither first nor last with
/// at least two bytes after it.
pub open spec fn valid_email_client(b: Seq<u8>) -> bool {
    match first_of(b, 64u8) {
        None => false,
        Some(at) => {
            let domain = b.subrange(at + 1, b.len() as int);
            &&& at != 0
            &&& match last_of(domain, 46u8) {
                Some(dot) => dot != 0 && dot != domain.len() - 1 && domain.len() - dot >= 3,
                None => false,
            }
        },
    }
}

/// Whether an address passes the web client's check.
pub fn is_valid_email_client(email: &str) -> (r: bool)
    ensures
        r == valid_email_client(vstd::utf8::encode_utf8(email@)),
{
    let b = email.as_bytes();
    let n = b.len();
    assert(b@.subrange(0, n as int) == b@);
    let at = match find_byte(b, 0, 64u8) {
        Some(i) => i,
        None => return false,
    };
    if at == 0 {
        return false;
    }
    let dot = match rfind_byte(b, at + 1, 46u8) {
        Some(d) => d - (at + 1),
        None => return false,
    };
    let dlen = n - (at + 1);
    dot != 0 && dot != dlen - 1 && dlen - dot >= 3
}

/// The form an address is stored and compared in: trimmed and lower-cased.
pub fn normalize_email(raw: &str) -> (r: String)
    ensures
        r@ == lowercase(trim_seq(raw@)),
{
    let cs = chars_of(raw);
    let t = trim_chars(cs.as_slice());
    let ts = string_of(t.as_slice());
    to_lowercase(ts.as_str())
}

/// Whether `email`, taken as it is, is on the admin list.
pub fn on_admin_list(admin_emails: &Vec<String>, email: &str) -> (r: bool)
    ensures
        r == exists|i: int| 0 <= i < admin_emails@.len() && admin_emails@[i]@ == email@,
{
    let mut i: usize = 0;
    while i < admin_emails.len()
        invariant
            i <= admin_emails@.len(),
            forall|k: int| 0 <= k < i ==> admin_emails@[k]@ != email@,
        decreases admin_emails.len() - i,
    {
        if str_eq(admin_emails[i].as_str(), email) {
            return true;
        }
        i = i + 1;
    }
    false
}

/// Whether the address (lower-cased) is on the admin list.
pub fn is_admin_email(admin_emails: &Vec<String>, email: &str) -> (r: bool)
    ensures
        r == exists|i: int| 0 <= i < admin_emails@.len() && admin_emails@[i]@ == lowercase(email@),
{
    let low = to_lowercase(email);
    on_admin_list(admin_emails, low.as_str())
}

// ─────────────────────────── sign-in attempts ───────────────────────────

/// Sign-in attempts allowed per key (address, token or name) in a window.
pub const AUTH_ATTEMPT_MAX: usize = 5;

/// Length of the sign-in attempt window, in milliseconds (ten minutes).
pub const AUTH_ATTEMPT_WINDOW_MS: u64 = 600000;

/// Why the use of a sign-in token is refused before it reaches the
/// database.
#[derive(Clone, Copy, Debug, PartialEq, Eq, Structural)]
pub enum SignInRefusal {
    /// No token was given (400).
    MissingToken,
    /// Too many attempts for the key in the window (429).
    RateLimited,
}

/// An admitted request for a sign-in link.
pub struct LinkRequest {
    /// The normalized address.
    pub email: String,
    /// The id a new user with this address gets (an existing user keeps theirs).
    pub user_id: String,
    /// The one-time sign-in token to mail.
    pub token: String,
}

/// Admits a request for a sign-in link: the address is normalized and
/// checked (a bad one leaves the limiter untouched), then counted against
/// the limiter under the normalized address. When both pass, the
/// normalized address is returned with a fresh user id and token; else
/// nothing is to be sent (`None`). The request is answered the same way in
/// every case, so the answer never tells whether an address is known,
/// valid or throttled. `now` is milliseconds on a monotonic clock.
pub fn admit_link_request(limiter: &mut RateLimiter, raw_email: &str, now: u64) -> (r: Option<
    LinkRequest,
>)
    requires
        old(limiter).wf(),
    ensures
        final(limiter).wf(),
        ({
            let e = lowercase(trim_seq(raw_email@));
            let m = AUTH_ATTEMPT_MAX as nat;
            if !valid_email(vstd::utf8::encode_utf8(e)) {
                &&& r is None
                &&& forall|k: Seq<char>| final(limiter).log_of(k) == old(limiter).log_of(k)
            } else {
                &&& (r is None <==> refused(old(limiter).log_of(e), now, m, AUTH_ATTEMPT_WINDOW_MS))
                &&& (r matches Some(q) ==> q.email@ == e && hyphenated_v4(q.user_id@) && hyphenated_v4(
                    q.token@,
                ))
                &&& final(limiter).log_of(e) == next_log(
                    old(limiter).log_of(e),
                    now,
                    m,
                    AUTH_ATTEMPT_WINDOW_MS,
                )
                &&& forall|k: Seq<char>| k != e ==> final(limiter).log_of(k) == old(limiter).log_of(k)
            }
        }),
{
    let email = normalize_email(raw_email);
    if !is_valid_email(email.as_str()) {
        return None;
    }
    if limiter.over_limit(email.as_str(), now, AUTH_ATTEMPT_MAX, AUTH_ATTEMPT_WINDOW_MS) {
        return None;
    }
    let user_id = random_uuid();
    let token = random_uuid();
    Some(LinkRequest { email, user_id, token })
}

/// Admits the use of a sign-in token: an empty token is refused (the
/// limiter untouched), otherwise the attempt is counted under the token.
pub fn admit_token_use(limiter: &mut RateLimiter, token: &str, now: u64) -> (r: Result<
    (),
    SignInRefusal,
>)
    requires
        old(limiter).wf(),
    ensures
        final(limiter).wf(),
        token@.len() == 0 ==> r == Err::<(), SignInRefusal>(SignInRefusal::MissingToken) && forall|
            k: Seq<char>,
        | final(limiter).log_of(k) == old(limiter).log_of(k),
        token@.len() > 0 ==> {
            &&& (r is Err <==> refused(
                old(limiter).log_of(token@),
                now,
                AUTH_ATTEMPT_MAX as nat,
                AUTH_ATTEMPT_WINDOW_MS,
            ))
            &&& (r is Err ==> r == Err::<(), SignInRefusal>(SignInRefusal::RateLimited))
            &&& final(limiter).log_of(token@) == next_log(
                old(limiter).log_of(token@),
                now,
                AUTH_ATTEMPT_MAX as nat,
                AUTH_ATTEMPT_WINDOW_MS,
            )
            &&& forall|k: Seq<char>| k != token@ ==> final(limiter).log_of(k) == old(limiter).log_of(k)
        },
{
    if token.unicode_len() == 0 {
        return Err(SignInRefusal::MissingToken);
    }
    if limiter.over_limit(token, now, AUTH_ATTEMPT_MAX, AUTH_ATTEMPT_WINDOW_MS) {
        return Err(SignInRefusal::RateLimited);
    }
    Ok(())
}

/// Counts an attempt on a key (a user name being checked or set, an
/// address changing its name) and tells whether it is allowed.
pub fn admit_attempt(limiter: &mut RateLimiter, key: &str, now: u64) -> (r: bool)
    requires
        old(limiter).wf(),
    ensures
        final(limiter).wf(),
        r == !refused(old(limiter).log_of(key@), now, AUTH_ATTEMPT_MAX as nat, AUTH_ATTEMPT_WINDOW_MS),
        final(limiter).log_of(key@) == next_log(
            old(limiter).log_of(key@),
            now,
            AUTH_ATTEMPT_MAX as nat,
            AUTH_ATTEMPT_WINDOW_MS,
        ),
        forall|k: Seq<char>| k != key@ ==> final(limiter).log_of(k) == old(limiter).log_of(k),
{
    !limiter.over_limit(key, now, AUTH_ATTEMPT_MAX, AUTH_ATTEMPT_WINDOW_MS)
}

// ─────────────────────────── bearer tokens ───────────────────────────

/// Why a request was refused as unauthenticated (answered with 401).
#[derive(Clone, Copy, Debug, PartialEq, Eq, Structural)]
pub enum AuthRejection {
    /// No `Authorization` header.
    MissingHeader,
    /// The header is not `Bearer <token>`.
    NotBearer,
    /// The token did not verify or has expired.
    InvalidToken,
}

/// The token of an `Authorization` header value, if it is `Bearer <token>`.
pub open spec fn bearer_token_of(header: Seq<char>) -> Option<Seq<char>> {
    if has_prefix(header, "Bearer "@) {
        Some(header.subrange(7, header.len() as int))
    } else {
        None
    }
}

/// The token carried by an `Authorization` header.
pub fn bearer_token(header: Option<&str>) -> (r: Result<String, AuthRejection>)
    ensures
        match header {
            None => r == Err::<String, AuthRejection>(AuthRejection::MissingHeader),
            Some(h) => match bearer_token_of(h@) {
                Some(t) => r matches Ok(s) && s@ == t,
                None => r == Err::<String, AuthRejection>(AuthRejection::NotBearer),
            },
        },
{
    match header {
        None => Err(AuthRejection::MissingHeader),
        Some(h) => {
            let cs = chars_of(h);
            let p = chars_of("Bearer ");
            proof {
                reveal_strlit("Bearer ");
            }
            assert(p@.len() == 7);
            if starts_with(cs.as_slice(), p.as_slice()) {
                let mut out = String::new();
                let rest = crate::text::slice_chars(cs.as_slice(), 7, cs.len());
                push_chars(&mut out, rest.as_slice());
                assert(out@ =~= h@.subrange(7, h@.len() as int));
                Ok(out)
            } else {
                Err(AuthRejection::NotBearer)
            }
        },
    }
}

/// Why an admin request was refused.
#[derive(Clone, Copy, Debug, PartialEq, Eq, Structural)]
pub enum AdminAuthError {
    /// No usable bearer token, or a static token that does not match (401).
    Unauthorized,
    /// A valid session token of a user who is not an admin (403).
    Forbidden,
    /// No valid session token and no static admin token configured (500).
    NotConfigured,
}

/// The bearer of an admin request: the token after `Bearer `, or empty.
pub open spec fn admin_bearer(header: Option<Seq<char>>) -> Seq<char> {
    match header {
        Some(h) => match bearer_token_of(h) {
            Some(t) => t,
            None => Seq::empty(),
        },
        None => Seq::empty(),
    }
}

/// The admin gate. `session_admin` is the outcome of verifying the bearer
/// as a session token: `Some(is_admin)` when it verified, `None` otherwise.
/// A verified admin session passes; a verified non-admin session is
/// forbidden; otherwise the bearer must equal the configured static token.
pub open spec fn admin_verdict(
    header: Option<Seq<char>>,
    session_admin: Option<bool>,
    admin_token: Seq<char>,
) -> Result<(), AdminAuthError> {
    let bearer = admin_bearer(header);
    if bearer.len() == 0 {
        Err(AdminAuthError::Unauthorized)
    } else if session_admin == Some(true) {
        Ok(())
    } else if session_admin == Some(false) {
        Err(AdminAuthError::Forbidden)
    } else if admin_token.len() == 0 {
        Err(AdminAuthError::NotConfigured)
    } else if bearer != admin_token {
        Err(AdminAuthError::Unauthorized)
    } else {
        Ok(())
    }
}

/// The bearer an admin request carries (empty when there is none).
pub fn admin_bearer_exec(header: Option<&str>) -> (r: String)
    ensures
        r@ == admin_bearer(
            match header {
                Some(h) => Some(h@),
                None => None,
            },
        ),
{
    match bearer_token(header) {
        Ok(t) => t,
        Err(_) => String::new(),
    }
}

/// Decides an admin request from its `Authorization` header, the outcome of
/// verifying the bearer as a session token, and the configured static token.
pub fn check_admin_token(header: Option<&str>, session_admin: Option<bool>, admin_token: &str) -> (r:
    Result<(), AdminAuthError>)
    ensures
        r == admin_verdict(
            match header {
                Some(h) => Some(h@),
                None => None,
            },
            session_admin,
            admin_token@,
        ),
{
    let bearer = admin_bearer_exec(header);
    if bearer.as_str().unicode_len() == 0 {
        return Err(AdminAuthError::Unauthorized);
    }
    match session_admin {
        Some(true) => return Ok(()),
        Some(false) => return Err(AdminAuthError::Forbidden),
        None => {},
    }
    if admin_token.unicode_len() == 0 {
        return Err(AdminAuthError::NotConfigured);
    }
    if !str_eq(bearer.as_str(), admin_token) {
        return Err(AdminAuthError::Unauthorized);
    }
    Ok(())
}

// ─────────────────────────── sessions ───────────────────────────

/// How long a session token stays valid: 30 days, in seconds.
pub const JWT_EXPIRY_SECS: u64 = 2592000;

/// The claims carried by a session token.
#[derive(Clone, Debug)]
pub struct Claims {
    /// The user's id.
    pub sub: String,
    pub email: String,
    pub username: Option<String>,
    /// Whether the user was on the admin list when the token was issued.
    pub is_admin: bool,
    /// Expiry, Unix seconds.
    pub exp: usize,
    /// Issue time, Unix seconds.
    pub iat: usize,
}

/// The authenticated user of a request.
#[derive(Clone, Debug)]
pub struct AuthUser(pub Claims);

impl Claims {
    /// Claims for a session issued at `now` (Unix seconds) that expires
    /// thirty days later.
    pub fn for_session(
        user_id: &str,
        email: &str,
        username: Option<&str>,
        is_admin: bool,
        now: usize,
    ) -> (c: Claims)
        requires
            now + JWT_EXPIRY_SECS <= usize::MAX,
        ensures
            c.sub@ == user_id@,
            c.email@ == email@,
            match username {
                Some(u) => c.username matches Some(s) && s@ == u@,
                None => c.username is None,
            },
            c.is_admin == is_admin,
            c.iat == now,
            c.exp == now + JWT_EXPIRY_SECS,
    {
        Claims {
            sub: user_id.to_owned(),
            email: email.to_owned(),
            username: match username {
                Some(u) => Some(u.to_owned()),
                None => None,
            },
            is_admin,
            exp: now + JWT_EXPIRY_SECS as usize,
            iat: now,
        }
    }
}

// ─────────────────────────── magic links ───────────────────────────

/// An origin with surrounding whitespace and trailing `/`s removed.
pub open spec fn clean_origin(s: Seq<char>) -> Seq<char> {
    trim_end_char_seq(trim_seq(s), '/')
}

/// The non-empty cleaned entries of a comma-separated origin list.
pub open spec fn allowed_origins(pieces: Seq<Seq<char>>) -> Seq<Seq<char>>
    decreases pieces.len(),
{
    if pieces.len() == 0 {
        Seq::empty()
    } else {
        let prev = allowed_origins(pieces.drop_last());
        let c = clean_origin(pieces.last());
        if c.len() > 0 {
            prev.push(c)
        } else {
            prev
        }
    }
}

/// Which request `Origin` may be used to build a sign-in link. With an
/// allow-list configured, only a listed origin is used; without one, any
/// `http://` or `https://` origin is.
pub open spec fn usable_origin(origin: Seq<char>, configured: Seq<char>) -> Option<Seq<char>> {
    let o = clean_origin(origin);
    let allowed = allowed_origins(split_seq(configured, ','));
    if o.len() == 0 {
        None
    } else if allowed.len() == 0 {
        if has_prefix(o, "http://"@) || has_prefix(o, "https://"@) {
            Some(o)
        } else {
            None
        }
    } else if allowed.contains(o) {
        Some(o)
    } else {
        None
    }
}

fn clean_origin_exec(s: &[char]) -> (r: Vec<char>)
    ensures
        r@ == clean_origin(s@),
{
    let t = trim_chars(s);
    trim_end_char(t.as_slice(), '/')
}

/// Checks a request `Origin` against the comma-separated allow-list
/// (`CORS_ORIGINS`) before it is trusted in a sign-in link.
pub fn validate_request_origin(origin: &str, configured: &str) -> (r: Option<String>)
    ensures
        match r {
            Some(s) => usable_origin(origin@, configured@) == Some(s@),
            None => usable_origin(origin@, configured@) is None,
        },
{
    let oc = chars_of(origin);
    let o = clean_origin_exec(oc.as_slice());
    if o.len() == 0 {
        return None;
    }
    let cc = chars_of(configured);
    let pieces = split_chars(cc.as_slice(), ',');
    let ghost ps = split_seq(configured@, ',');
    let mut allowed: Vec<Vec<char>> = Vec::new();
    let mut i: usize = 0;
    while i < pieces.len()
        invariant
            views(pieces@) == ps,
            i <= pieces@.len(),
            views(allowed@) == allowed_origins(ps.subrange(0, i as int)),
        decreases pieces.len() - i,
    {
        assert(pieces@[i as int]@ == ps[i as int]);
        let ghost next = ps.subrange(0, i + 1);
        assert(next.drop_last() == ps.subrange(0, i as int));
        let c = clean_origin_exec(pieces[i].as_slice());
        if c.len() > 0 {
            allowed.push(c);
            assert(views(allowed@) =~= allowed_origins(next));
        }
        i = i + 1;
    }
    assert(ps.subrange(0, pieces@.len() as int) == ps);
    let ghost al = views(allowed@);
    if allowed.len() == 0 {
        let h1 = chars_of("http://");
        let h2 = chars_of("https://");
        if starts_with(o.as_slice(), h1.as_slice()) || starts_with(o.as_slice(), h2.as_slice()) {
            return Some(string_of(o.as_slice()));
        }
        return None;
    }
    let mut j: usize = 0;
    while j < allowed.len()
        invariant
            al == views(allowed@),
            al == allowed_origins(split_seq(configured@, ',')),
            al.len() > 0,
            o@ == clean_origin(origin@),
            o@.len() > 0,
            j <= allowed@.len(),
            forall|k: int| 0 <= k < j ==> al[k] != o@,
        decreases allowed.len() - j,
    {
        assert(al[j as int] == allowed@[j as int]@);
        if chars_eq(allowed[j].as_slice(), o.as_slice()) {
            assert(al.contains(o@));
            return Some(string_of(o.as_slice()));
        }
        j = j + 1;
    }
    None
}

/// Base URL of sign-in links: a usable request origin, else the configured
/// application URL (when non-empty), else the local development address.
pub open spec fn link_base(origin: Option<Seq<char>>, app_url: Option<Seq<char>>) -> Seq<char> {
    match origin {
        Some(o) => o,
        None => match app_url {
            Some(u) => if u.len() > 0 {
                u
            } else {
                "http://localhost:8080"@
            },
            None => "http://localhost:8080"@,
        },
    }
}

/// The sign-in link sent by e-mail: the base without trailing `/`s, the
/// verification path with the token, and the `next` page when non-empty.
pub open spec fn magic_link(base: Seq<char>, token: Seq<char>, next: Option<Seq<char>>) -> Seq<char> {
    let head = trim_end_char_seq(base, '/') + "/auth/verify?token="@ + token;
    match next {
        Some(n) => if n.len() > 0 {
            head + "&next="@ + n
        } else {
            head
        },
        None => head,
    }
}

/// Builds the sign-in link for a token.
pub fn magic_link_url(
    origin: Option<String>,
    app_url: Option<String>,
    token: &str,
    next: Option<&str>,
) -> (r: String)
    ensures
        r@ == magic_link(
            link_base(
                match origin {
                    Some(o) => Some(o@),
                    None => None,
                },
                match app_url {
                    Some(u) => Some(u@),
                    None => None,
                },
            ),
            token@,
            match next {
                Some(n) => Some(n@),
                None => None,
            },
        ),
{
    let base: String = match origin {
        Some(o) => o,
        None => match app_url {
            Some(u) => if u.as_str().unicode_len() > 0 {
                u
            } else {
                "http://localhost:8080".to_owned()
            },
            None => "http://localhost:8080".to_owned(),
        },
    };
    let bc = chars_of(base.as_str());
    let trimmed = trim_end_char(bc.as_slice(), '/');
    let mut url = String::new();
    push_chars(&mut url, trimmed.as_slice());
    push_str(&mut url, "/auth/verify?token=");
    push_str(&mut url, token);
    match next {
        Some(n) => {
            if n.unicode_len() > 0 {
                push_str(&mut url, "&next=");
                push_str(&mut url, n);
            }
        },
        None => {},
    }
    assert(url@ =~= magic_link(
        base@,
        token@,
        match next {
            Some(n) => Some(n@),
            None => None,
        },
    ));
    url
}

/// The subject of the sign-in e-mail.
pub open spec fn link_mail_subject_spec() -> Seq<char> {
    "Your Gem Finder sign-in link"@
}

/// The subject of the sign-in e-mail.
pub fn link_mail_subject() -> (r: &'static str)
    ensures
        r@ == link_mail_subject_spec(),
{
    "Your Gem Finder sign-in link"
}

/// The plain-text body of the sign-in e-mail around the link.
pub open spec fn link_mail_body_spec(url: Seq<char>) -> Seq<char> {
    "Click the link below to sign in to Gem Finder.\nThe link expires in 15 minutes.\n\n"@ + url
        + "\n\nIf you didn't request this, you can ignore this email.\n"@
}

/// The plain-text body of the sign-in e-mail.
pub fn link_mail_body(url: &str) -> (r: String)
    ensures
        r@ == link_mail_body_spec(url@),
{
    let mut b = String::new();
    push_str(&mut b, "Click the link below to sign in to Gem Finder.\nThe link expires in 15 minutes.\n\n");
    push_str(&mut b, url);
    push_str(&mut b, "\n\nIf you didn't request this, you can ignore this email.\n");
    b
}

/// The mail server port: the configured one when it reads as a port
/// number, 587 when none is configured, and nothing when it does not read.
pub open spec fn smtp_port_spec(configured: Option<Seq<char>>) -> Option<int> {
    match configured {
        None => Some(587),
        Some(p) => match crate::text::parse_u32_spec(p) {
            Some(v) => if v <= 65535 {
                Some(v)
            } else {
                None
            },
            None => None,
        },
    }
}

/// The mail server port to use (`SMTP_PORT`, default 587).
pub fn smtp_port(configured: Option<&str>) -> (r: Option<u16>)
    ensures
        match r {
            Some(p) => smtp_port_spec(
                match configured {
                    Some(c) => Some(c@),
                    None => None,
                },
            ) == Some(p as int),
            None => smtp_port_spec(
                match configured {
                    Some(c) => Some(c@),
                    None => None,
                },
            ) is None,
        },
{
    match configured {
        None => Some(587),
        Some(c) => {
            let cs = chars_of(c);
            match crate::text::parse_u32(cs.as_slice()) {
                Some(v) => if v <= 65535 {
                    Some(v as u16)
                } else {
                    None
                },
                None => None,
            }
        },
    }
}

/// Whether the mail server is reached over implicit TLS (port 465) rather
/// than upgraded with STARTTLS.
pub fn smtp_implicit_tls(port: u16) -> (r: bool)
    ensures
        r == (port == 465),
{
    port == 465
}

} // verus!
