//! Friend recommendations: the canonical order of a friendship pair, what
//! claiming a recommendation link does, and the per-user limits on
//! sending, viewing, claiming and revoking.

use vstd::prelude::*;
use crate::format::{trimmed_note, trimmed_note_spec};
use crate::ratelimit::{RateLimiter, next_log, refused};
use crate::text::{chars_of, push_str, str_eq};
use crate::tokens::{random_uuid_simple, simple_v4};

verus! {

/// Lexicographic order of texts by code point, which is the byte order of
/// their UTF-8 encodings (`str`'s `<`).
pub open spec fn text_lt(a: Seq<char>, b: Seq<char>) -> bool
    decreases a.len(),
{
    if a.len() == 0 {
        b.len() > 0
    } else if b.len() == 0 {
        false
    } else if a[0] != b[0] {
        (a[0] as int) < (b[0] as int)
    } else {
        text_lt(a.drop_first(), b.drop_first())
    }
}

/// Whether `a` sorts strictly before `b`.
pub fn str_lt(a: &str, b: &str) -> (r: bool)
    ensures
        r == text_lt(a@, b@),
{
    let av = chars_of(a);
    let bv = chars_of(b);
    let mut i: usize = 0;
    assert(av@.skip(0) == av@);
    assert(bv@.skip(0) == bv@);
    while i < av.len() && i < bv.len() && av[i] == bv[i]
        invariant
            i <= av@.len(),
            i <= bv@.len(),
            text_lt(a@, b@) == text_lt(av@.skip(i as int), bv@.skip(i as int)),
            av@ == a@,
            bv@ == b@,
        decreases av.len() - i,
    {
        assert(av@.skip(i as int).drop_first() == av@.skip(i + 1));
        assert(bv@.skip(i as int).drop_first() == bv@.skip(i + 1));
        i = i + 1;
    }
    if i == av.len() {
        i < bv.len()
    } else if i == bv.len() {
        false
    } else {
        av[i] < bv[i]
    }
}

proof fn lemma_text_lt_irreflexive(a: Seq<char>)
    ensures
        !text_lt(a, a),
    decreases a.len(),
{
    if a.len() > 0 {
        lemma_text_lt_irreflexive(a.drop_first());
    }
}

proof fn lemma_text_lt_total(a: Seq<char>, b: Seq<char>)
    requires
        a != b,
    ensures
        text_lt(a, b) != text_lt(b, a),
    decreases a.len(),
{
    if a.len() > 0 && b.len() > 0 && a[0] == b[0] {
        if a.drop_first() == b.drop_first() {
            assert(a =~= seq![a[0]] + a.drop_first());
            assert(b =~= seq![b[0]] + b.drop_first());
        }
        lemma_text_lt_total(a.drop_first(), b.drop_first());
    } else if a.len() == 0 && b.len() == 0 {
        assert(a =~= b);
    } else if a.len() > 0 && b.len() > 0 {
        assert((a[0] as int) != (b[0] as int));
    }
}

/// The two users of a friendship in canonical order: the smaller first.
pub open spec fn canonical(u1: Seq<char>, u2: Seq<char>) -> (Seq<char>, Seq<char>) {
    if text_lt(u1, u2) {
        (u1, u2)
    } else {
        (u2, u1)
    }
}

/// Canonical friendship pair, smaller id first, so one stored row covers
/// both directions.
pub fn canonical_pair<'a>(u1: &'a str, u2: &'a str) -> (r: (&'a str, &'a str))
    ensures
        (r.0@, r.1@) == canonical(u1@, u2@),
{
    if str_lt(u1, u2) {
        (u1, u2)
    } else {
        (u2, u1)
    }
}

/// The pair does not depend on the order the two users are given in, and
/// its first member never sorts after its second.
pub proof fn lemma_canonical_symmetric(u1: Seq<char>, u2: Seq<char>)
    ensures
        canonical(u1, u2) == canonical(u2, u1),
        !text_lt(canonical(u1, u2).1, canonical(u1, u2).0),
        ({
            let (a, b) = canonical(u1, u2);
            (a == u1 && b == u2) || (a == u2 && b == u1)
        }),
{
    if u1 == u2 {
        lemma_text_lt_irreflexive(u1);
    } else {
        lemma_text_lt_total(u1, u2);
    }
}

/// What claiming a recommendation link does.
#[derive(Clone, Debug)]
pub enum ClaimAction {
    /// Unknown token: answered with the uniform not-found reply.
    NotFound,
    /// The sender claimed their own link: success with nothing recorded.
    NoOp,
    /// Record a receipt for the claimer and the friendship of the
    /// canonical pair (`friend_a` sorts first).
    Record { friend_a: String, friend_b: String },
}

/// Decides a claim from the sender found for the token (if any) and the
/// claiming user.
pub fn claim_decision(sender: Option<&str>, recipient: &str) -> (r: ClaimAction)
    ensures
        match sender {
            None => r is NotFound,
            Some(s) => if s@ == recipient@ {
                r is NoOp
            } else {
                r matches ClaimAction::Record { friend_a, friend_b } && (friend_a@, friend_b@)
                    == canonical(s@, recipient@)
            },
        },
{
    match sender {
        None => ClaimAction::NotFound,
        Some(s) => {
            if str_eq(s, recipient) {
                ClaimAction::NoOp
            } else {
                let (a, b) = canonical_pair(s, recipient);
                ClaimAction::Record { friend_a: a.to_owned(), friend_b: b.to_owned() }
            }
        },
    }
}

/// Whether a claim is answered as a success (a known token).
pub fn claim_succeeds(action: &ClaimAction) -> (r: bool)
    ensures
        r == !(action is NotFound),
{
    match action {
        ClaimAction::NotFound => false,
        _ => true,
    }
}

// ─────────────────────────── limits ───────────────────────────

/// A rate-limited action on recommendations.
#[derive(Clone, Copy, Debug, PartialEq, Eq, Structural)]
pub enum RecAction {
    /// Sending a recommendation (limited per sender).
    Send,
    /// Opening a shared link (limited per token).
    View,
    /// Claiming a link (limited per claimer).
    Claim,
    /// Revoking a link (limited per sender).
    Revoke,
}

/// The limiter key prefix of an action.
pub open spec fn rec_key_prefix(a: RecAction) -> Seq<char> {
    match a {
        RecAction::Send => "rec_send:"@,
        RecAction::View => "rec_view:"@,
        RecAction::Claim => "rec_claim:"@,
        RecAction::Revoke => "rec_revoke:"@,
    }
}

/// How many actions of a kind are allowed per window.
pub open spec fn rec_limit_max(a: RecAction) -> usize {
    match a {
        RecAction::Send => 20,
        RecAction::View => 30,
        RecAction::Claim => 30,
        RecAction::Revoke => 30,
    }
}

/// The window of an action's limit, in milliseconds: ten minutes for
/// viewing, an hour otherwise.
pub open spec fn rec_limit_window(a: RecAction) -> u64 {
    match a {
        RecAction::View => 600000,
        _ => 3600000,
    }
}

/// The limiter key of an action by (or on) `subject`: a user id, or the
/// token for viewing.
pub fn rec_limit_key(a: RecAction, subject: &str) -> (r: String)
    ensures
        r@ == rec_key_prefix(a) + subject@,
{
    let mut k = String::new();
    match a {
        RecAction::Send => push_str(&mut k, "rec_send:"),
        RecAction::View => push_str(&mut k, "rec_view:"),
        RecAction::Claim => push_str(&mut k, "rec_claim:"),
        RecAction::Revoke => push_str(&mut k, "rec_revoke:"),
    }
    push_str(&mut k, subject);
    k
}

/// Counts an action and tells whether it is allowed; `now` is milliseconds
/// on a monotonic clock.
pub fn admit_rec_action(limiter: &mut RateLimiter, a: RecAction, subject: &str, now: u64) -> (r: bool)
    requires
        old(limiter).wf(),
    ensures
        final(limiter).wf(),
        ({
            let key = rec_key_prefix(a) + subject@;
            &&& r == !refused(
                old(limiter).log_of(key),
                now,
                rec_limit_max(a) as nat,
                rec_limit_window(a),
            )
            &&& final(limiter).log_of(key) == next_log(
                old(limiter).log_of(key),
                now,
                rec_limit_max(a) as nat,
                rec_limit_window(a),
            )
            &&& forall|k: Seq<char>| k != key ==> final(limiter).log_of(k) == old(limiter).log_of(k)
        }),
{
    let key = rec_limit_key(a, subject);
    let (max, window): (usize, u64) = match a {
        RecAction::Send => (20, 3600000),
        RecAction::View => (30, 600000),
        RecAction::Claim => (30, 3600000),
        RecAction::Revoke => (30, 3600000),
    };
    !limiter.over_limit(key.as_str(), now, max, window)
}

/// Most characters a recommendation note may have (the schema holds notes
/// to this length).
pub const NOTE_MAX_CHARS: usize = 140;

/// Why a new recommendation is refused before the database is consulted.
#[derive(Clone, Copy, Debug, PartialEq, Eq, Structural)]
pub enum RecRefusal {
    /// The sender sent too many recommendations this hour (429).
    RateLimited,
    /// The trimmed note is longer than `NOTE_MAX_CHARS` (422).
    NoteTooLong,
}

/// A recommendation about to be stored: its trimmed note and a fresh share
/// token.
pub struct RecDraft {
    pub note: Option<String>,
    pub token: String,
}

/// Prepares a new recommendation by `sender`: counts it against the
/// sender's hourly limit, trims the note (an empty note becomes none),
/// refuses a note that is still too long, and mints a share token.
pub fn draft_rec(limiter: &mut RateLimiter, sender: &str, note: Option<&str>, now: u64) -> (r: Result<
    RecDraft,
    RecRefusal,
>)
    requires
        old(limiter).wf(),
    ensures
        final(limiter).wf(),
        ({
            let key = rec_key_prefix(RecAction::Send) + sender@;
            let raw = match note {
                Some(n) => Some(n@),
                None => None,
            };
            &&& (refused(old(limiter).log_of(key), now, 20, 3600000) ==> r == Err::<
                RecDraft,
                RecRefusal,
            >(RecRefusal::RateLimited))
            &&& (!refused(old(limiter).log_of(key), now, 20, 3600000) ==> match trimmed_note_spec(
                raw,
            ) {
                Some(t) => if t.len() > NOTE_MAX_CHARS {
                    r == Err::<RecDraft, RecRefusal>(RecRefusal::NoteTooLong)
                } else {
                    (r matches Ok(d) && simple_v4(d.token@) && (d.note matches Some(n) && n@ == t))
                },
                None => (r matches Ok(d) && simple_v4(d.token@) && d.note is None),
            })
            &&& final(limiter).log_of(key) == next_log(old(limiter).log_of(key), now, 20, 3600000)
            &&& forall|k: Seq<char>| k != key ==> final(limiter).log_of(k) == old(limiter).log_of(k)
        }),
{
    if !admit_rec_action(limiter, RecAction::Send, sender, now) {
        return Err(RecRefusal::RateLimited);
    }
    let cleaned = trimmed_note(note);
    match &cleaned {
        Some(t) => {
            if t.as_str().unicode_len() > NOTE_MAX_CHARS {
                return Err(RecRefusal::NoteTooLong);
            }
        },
        None => {},
    }
    let token = random_uuid_simple();
    Ok(RecDraft { note: cleaned, token })
}

// ─────────────────────────── the recommend dialog ───────────────────────────

/// Where the recommend dialog of a film stands.
#[derive(Clone, Debug, PartialEq, Eq)]
pub enum RecFlow {
    /// No dialog.
    Closed,
    /// Writing the note and choosing how to share.
    Compose,
    /// The sender must first choose a user name.
    NeedsUsername,
    /// A share link was made: the link to copy or pass on.
    LinkReady(String),
    /// The recommendation was sent to a friend.
    Sent,
}

/// What happens to the recommend dialog.
#[derive(Clone, Debug)]
pub enum RecFlowEvent {
    /// The recommend button was pressed.
    Open,
    /// The dialog was dismissed.
    Close,
    /// A share link was made with this token.
    LinkCreated { token: String },
    /// The recommendation reached the chosen friend.
    SentToFriend,
    /// Making the recommendation failed with this error text.
    Refused { error: String },
    /// The sender chose a user name.
    UsernameChosen,
}

/// The share link of a recommendation token on the site at `origin`.
pub open spec fn share_link_spec(origin: Seq<char>, token: Seq<char>) -> Seq<char> {
    origin + "/r/"@ + token
}

/// The share link of a recommendation token on the site at `origin`.
pub fn share_link(origin: &str, token: &str) -> (r: String)
    ensures
        r@ == share_link_spec(origin@, token@),
{
    let mut out = String::new();
    push_str(&mut out, origin);
    push_str(&mut out, "/r/");
    push_str(&mut out, token);
    assert(out@ =~= share_link_spec(origin@, token@));
    out
}

/// Moves the recommend dialog on after an event (the site at `origin`):
/// opening and choosing a user name lead to composing, closing closes, a
/// made link is shown as its share link, a send to a friend is confirmed; a
/// refusal for want of a user name asks for one, and any other refusal
/// leaves the dialog as it was (the error is shown in it).
pub fn rec_flow_step(flow: RecFlow, event: RecFlowEvent, origin: &str) -> (r: RecFlow)
    ensures
        match event {
            RecFlowEvent::Open => r == RecFlow::Compose,
            RecFlowEvent::Close => r == RecFlow::Closed,
            RecFlowEvent::UsernameChosen => r == RecFlow::Compose,
            RecFlowEvent::SentToFriend => r == RecFlow::Sent,
            RecFlowEvent::LinkCreated { token } => r matches RecFlow::LinkReady(u) && u@
                == share_link_spec(origin@, token@),
            RecFlowEvent::Refused { error } => if error@ == "username_required"@ {
                r == RecFlow::NeedsUsername
            } else {
                r == flow
            },
        },
{
    match event {
        RecFlowEvent::Open => RecFlow::Compose,
        RecFlowEvent::Close => RecFlow::Closed,
        RecFlowEvent::UsernameChosen => RecFlow::Compose,
        RecFlowEvent::SentToFriend => RecFlow::Sent,
        RecFlowEvent::LinkCreated { token } => RecFlow::LinkReady(share_link(origin, token.as_str())),
        RecFlowEvent::Refused { error } => {
            if str_eq(error.as_str(), "username_required") {
                RecFlow::NeedsUsername
            } else {
                flow
            }
        },
    }
}

/// Whether a recommendation to a friend can be sent: a friend is chosen.
pub fn friend_chosen(selected: &str) -> (r: bool)
    ensures
        r == (selected@.len() > 0),
{
    selected.unicode_len() > 0
}

} // verus!
