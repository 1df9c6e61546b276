//! Anonymous engagement events: which payloads are accepted, and the
//! daily-rotating session hash (SHA-256 of client address, user agent and
//! day, hex-encoded) that stands in for a visitor.

use vstd::prelude::*;
use sha2::{Digest, Sha256};
use crate::ids::{decode_movie_id, movie_id_value};
use crate::ratelimit::{RateLimiter, next_log, refused};
use crate::text::{chars_of, push_str, split_chars, split_seq, str_eq, string_of, trim_chars, trim_seq};

verus! {

/// Eras accepted in events (decade starts offered by the era filter).
pub const VALID_ERAS: [i32; 7] = [1960, 1970, 1980, 1990, 2000, 2010, 2020];

/// Most bytes a genre name in an event may have.
pub const MAX_EVENT_GENRE_BYTES: usize = 50;

/// Accepted events per session hash within one window.
pub const EVENT_RATE_LIMIT_MAX: usize = 60;

/// Length of the event rate-limit window, in seconds.
pub const EVENT_RATE_LIMIT_WINDOW_SECS: u64 = 60;

/// An engagement event as posted by the web client.
#[derive(Clone, Debug)]
pub struct TrackEventRequest {
    pub event_type: String,
    /// Public movie identifier (`mv…`); required for `movie_view`.
    pub movie_id: Option<String>,
    pub genre: Option<String>,
    pub era: Option<i32>,
    /// One of `gems`, `acclaimed`, `wildcards`.
    pub section: Option<String>,
    pub page_num: Option<i32>,
}

/// The payload the web client sends for an event; absent fields are left out.
#[derive(Clone, Debug)]
pub struct TrackEventPayload {
    pub event_type: &'static str,
    pub movie_id: Option<String>,
    pub genre: Option<String>,
    pub era: Option<i32>,
    pub section: Option<&'static str>,
    pub page_num: Option<i32>,
}

/// Why an event was refused (every reason is answered with 400).
#[derive(Clone, Copy, Debug, PartialEq, Eq, Structural)]
pub enum EventRejected {
    UnknownType,
    BadMovieId,
    GenreTooLong,
    BadEra,
    BadSection,
    BadPage,
}

/// The event types the service records.
pub open spec fn known_event_type(t: Seq<char>) -> bool {
    t == "movie_view"@ || t == "search_used"@ || t == "filter_genre"@ || t == "filter_era"@ || t
        == "pagination"@ || t == "section_view"@
}

/// The list sections an event may name.
pub open spec fn known_section(s: Seq<char>) -> bool {
    s == "gems"@ || s == "acclaimed"@ || s == "wildcards"@
}

/// Whether `era` is one of the accepted decade starts.
pub open spec fn valid_era(era: i32) -> bool {
    era == 1960 || era == 1970 || era == 1980 || era == 1990 || era == 2000 || era == 2010 || era
        == 2020
}

/// The verdict on an event: the checks in order (type, movie id, genre
/// length in bytes, era, section, page number), and on success the decoded
/// movie row id, if one was given.
pub open spec fn event_verdict(req: TrackEventRequest) -> Result<Option<int>, EventRejected> {
    if !known_event_type(req.event_type@) {
        Err(EventRejected::UnknownType)
    } else if req.event_type@ == "movie_view"@ && req.movie_id is None {
        Err(EventRejected::BadMovieId)
    } else if req.movie_id matches Some(m) && movie_id_value(m@) is None {
        Err(EventRejected::BadMovieId)
    } else if req.genre matches Some(g) && vstd::utf8::encode_utf8(g@).len() > 50 {
        Err(EventRejected::GenreTooLong)
    } else if req.era matches Some(e) && !valid_era(e) {
        Err(EventRejected::BadEra)
    } else if req.section matches Some(s) && !known_section(s@) {
        Err(EventRejected::BadSection)
    } else if req.page_num matches Some(p) && !(1 <= p <= 1000) {
        Err(EventRejected::BadPage)
    } else {
        Ok(
            match req.movie_id {
                Some(m) => movie_id_value(m@),
                None => None,
            },
        )
    }
}

/// Whether `era` is one of `VALID_ERAS`.
pub fn is_valid_era(era: i32) -> (r: bool)
    ensures
        r == valid_era(era),
{
    let mut i: usize = 0;
    while i < 7
        invariant
            i <= 7,
            forall|k: int| 0 <= k < i ==> VALID_ERAS@[k] != era,
        decreases 7 - i,
    {
        if VALID_ERAS[i] == era {
            return true;
        }
        i = i + 1;
    }
    assert(VALID_ERAS@[0] != era && VALID_ERAS@[1] != era && VALID_ERAS@[2] != era
        && VALID_ERAS@[3] != era && VALID_ERAS@[4] != era && VALID_ERAS@[5] != era
        && VALID_ERAS@[6] != era);
    false
}

/// Checks an event payload; on success returns the decoded movie row id.
pub fn validate_event(req: &TrackEventRequest) -> (r: Result<Option<i64>, EventRejected>)
    ensures
        match r {
            Ok(Some(id)) => event_verdict(*req) == Ok::<Option<int>, EventRejected>(Some(id as int)),
            Ok(None) => event_verdict(*req) == Ok::<Option<int>, EventRejected>(None),
            Err(e) => event_verdict(*req) == Err::<Option<int>, EventRejected>(e),
        },
{
    let t = req.event_type.as_str();
    let is_view = str_eq(t, "movie_view");
    let known = is_view || str_eq(t, "search_used") || str_eq(t, "filter_genre") || str_eq(
        t,
        "filter_era",
    ) || str_eq(t, "pagination") || str_eq(t, "section_view");
    if !known {
        return Err(EventRejected::UnknownType);
    }
    let decoded: Option<i64> = match &req.movie_id {
        Some(enc) => match decode_movie_id(enc.as_str()) {
            Some(id) => Some(id),
            None => return Err(EventRejected::BadMovieId),
        },
        None => {
            if is_view {
                return Err(EventRejected::BadMovieId);
            }
            None
        },
    };
    match &req.genre {
        Some(g) => {
            if g.as_str().as_bytes().len() > MAX_EVENT_GENRE_BYTES {
                return Err(EventRejected::GenreTooLong);
            }
        },
        None => {},
    }
    match req.era {
        Some(e) => {
            let ok = is_valid_era(e);
            if !ok {
                return Err(EventRejected::BadEra);
            }
        },
        None => {},
    }
    match &req.section {
        Some(s) => {
            let ss = s.as_str();
            if !(str_eq(ss, "gems") || str_eq(ss, "acclaimed") || str_eq(ss, "wildcards")) {
                return Err(EventRejected::BadSection);
            }
        },
        None => {},
    }
    match req.page_num {
        Some(p) => {
            if !(1 <= p && p <= 1000) {
                return Err(EventRejected::BadPage);
            }
        },
        None => {},
    }
    Ok(decoded)
}

// ─────────────────────────── session identity ───────────────────────────

/// Name for what SHA-256 returns on the given bytes.
pub uninterp spec fn sha256_of(data: Seq<u8>) -> Seq<u8>;

/// SHA-256 of `data` (`sha2::Sha256`). The digest is the named function of
/// the input and is 32 bytes long; its bits are not spelled out.
#[verifier::external_body]
fn sha256_digest(data: &[u8]) -> (r: Vec<u8>)
    ensures
        r@ == sha256_of(data@),
        r@.len() == 32,
{
    let mut hasher = Sha256::new();
    hasher.update(data);
    hasher.finalize().to_vec()
}

/// The lower-case hex digit of a value below 16.
pub open spec fn hex_digit(v: int) -> char {
    if v < 10 {
        (v + 48) as char
    } else {
        (v + 87) as char
    }
}

/// Lower-case hex text of bytes: two digits per byte, high nibble first.
pub open spec fn hex_lower(data: Seq<u8>) -> Seq<char> {
    Seq::new(
        2 * data.len(),
        |i: int|
            if i % 2 == 0 {
                hex_digit((data[i / 2] / 16) as int)
            } else {
                hex_digit((data[i / 2] % 16) as int)
            },
    )
}

/// Lower-case hex encoding of bytes (`hex::encode`): each byte becomes two
/// characters from `0123456789abcdef`, high nibble first.
#[verifier::external_body]
fn hex_encode(data: &[u8]) -> (r: String)
    ensures
        r@ == hex_lower(data@),
{
    hex::encode(data)
}

/// The client address an event is attributed to: the first entry of
/// `X-Forwarded-For`, trimmed, or `unknown` without that header.
pub open spec fn client_ip(forwarded_for: Option<Seq<char>>) -> Seq<char> {
    match forwarded_for {
        Some(f) => trim_seq(split_seq(f, ',')[0]),
        None => "unknown"@,
    }
}

/// The client address an event is attributed to.
pub fn client_ip_exec(forwarded_for: Option<&str>) -> (r: String)
    ensures
        r@ == client_ip(
            match forwarded_for {
                Some(f) => Some(f@),
                None => None,
            },
        ),
{
    match forwarded_for {
        Some(f) => {
            let cs = chars_of(f);
            let pieces = split_chars(cs.as_slice(), ',');
            assert(pieces@[0]@ == split_seq(f@, ',')[0]);
            let t = trim_chars(pieces[0].as_slice());
            string_of(t.as_slice())
        },
        None => "unknown".to_owned(),
    }
}

/// The text hashed into the session identity: `ip|user-agent|day`, the
/// agent reading `unknown` when absent.
pub open spec fn session_material(ip: Seq<char>, agent: Option<Seq<char>>, day: Seq<char>) -> Seq<
    char,
> {
    ip + "|"@ + (match agent {
        Some(a) => a,
        None => "unknown"@,
    }) + "|"@ + day
}

/// The daily-rotating session hash of a visitor: hex SHA-256 of the UTF-8
/// bytes of `ip|user-agent|day`.
pub fn session_hash(ip: &str, user_agent: Option<&str>, day: &str) -> (r: String)
    ensures
        r@ == hex_lower(
            sha256_of(
                vstd::utf8::encode_utf8(
                    session_material(
                        ip@,
                        match user_agent {
                            Some(a) => Some(a@),
                            None => None,
                        },
                        day@,
                    ),
                ),
            ),
        ),
{
    let mut raw = String::new();
    push_str(&mut raw, ip);
    push_str(&mut raw, "|");
    match user_agent {
        Some(a) => push_str(&mut raw, a),
        None => push_str(&mut raw, "unknown"),
    }
    push_str(&mut raw, "|");
    push_str(&mut raw, day);
    let ghost material = session_material(
        ip@,
        match user_agent {
            Some(a) => Some(a@),
            None => None,
        },
        day@,
    );
    assert(raw@ =~= material);
    let bytes = raw.as_str().as_bytes();
    let digest = sha256_digest(bytes);
    hex_encode(digest.as_slice())
}

/// The session hash of a visitor, from its `X-Forwarded-For` header, user
/// agent and the day.
pub open spec fn visitor_hash(
    forwarded_for: Option<Seq<char>>,
    agent: Option<Seq<char>>,
    day: Seq<char>,
) -> Seq<char> {
    hex_lower(sha256_of(vstd::utf8::encode_utf8(session_material(client_ip(forwarded_for), agent, day))))
}

/// Why an event is not recorded.
#[derive(Clone, Copy, Debug, PartialEq, Eq, Structural)]
pub enum EventRefusal {
    /// The payload is invalid (400).
    Invalid(EventRejected),
    /// The visitor sent too many events in the window (429).
    RateLimited,
}

/// An event that may be recorded: the decoded movie row id and the
/// visitor's session hash.
pub struct AdmittedEvent {
    pub movie_id: Option<i64>,
    pub session_hash: String,
}

/// The view of an optional text.
pub open spec fn opt_chars(v: Option<&str>) -> Option<Seq<char>> {
    match v {
        Some(s) => Some(s@),
        None => None,
    }
}

/// Decides whether an event is recorded: the payload is checked first (a
/// refused payload leaves the limiter untouched); then the visitor's
/// session hash is computed and counted against the limiter, `now` being
/// milliseconds on a monotonic clock.
pub fn admit_event(
    limiter: &mut RateLimiter,
    req: &TrackEventRequest,
    forwarded_for: Option<&str>,
    user_agent: Option<&str>,
    day: &str,
    now: u64,
) -> (r: Result<AdmittedEvent, EventRefusal>)
    requires
        old(limiter).wf(),
    ensures
        final(limiter).wf(),
        match event_verdict(*req) {
            Err(e) => r == Err::<AdmittedEvent, EventRefusal>(EventRefusal::Invalid(e)) && forall|
                k: Seq<char>,
            | final(limiter).log_of(k) == old(limiter).log_of(k),
            Ok(id) => {
                let h = visitor_hash(opt_chars(forwarded_for), opt_chars(user_agent), day@);
                let w = (EVENT_RATE_LIMIT_WINDOW_SECS * 1000) as u64;
                let m = EVENT_RATE_LIMIT_MAX as nat;
                &&& (r is Err <==> refused(old(limiter).log_of(h), now, m, w))
                &&& (r is Err ==> r == Err::<AdmittedEvent, EventRefusal>(EventRefusal::RateLimited))
                &&& (r matches Ok(a) ==> a.session_hash@ == h && match a.movie_id {
                    Some(v) => id == Some(v as int),
                    None => id is None,
                })
                &&& final(limiter).log_of(h) == next_log(old(limiter).log_of(h), now, m, w)
                &&& forall|k: Seq<char>| k != h ==> final(limiter).log_of(k) == old(limiter).log_of(k)
            },
        },
{
    let movie_id = match validate_event(req) {
        Ok(m) => m,
        Err(e) => return Err(EventRefusal::Invalid(e)),
    };
    let ip = client_ip_exec(forwarded_for);
    let hash = session_hash(ip.as_str(), user_agent, day);
    let limited = limiter.over_limit(
        hash.as_str(),
        now,
        EVENT_RATE_LIMIT_MAX,
        EVENT_RATE_LIMIT_WINDOW_SECS * 1000,
    );
    if limited {
        Err(EventRefusal::RateLimited)
    } else {
        Ok(AdmittedEvent { movie_id, session_hash: hash })
    }
}

} // verus!
