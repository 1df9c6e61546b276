//! The web client's view of a signed-in session: what is restored from the
//! browser's storage, and whether the session token claims admin rights.

use vstd::prelude::*;

verus! {

/// Name for what `serde_json` reads as the boolean member `field` of the
/// JSON object in `text`: absent when the text is not JSON, not an object,
/// has no such member, or the member is not a boolean.
pub uninterp spec fn json_bool_member(text: Seq<char>, field: Seq<char>) -> Option<bool>;

/// The boolean member `field` of the JSON object in `text`
/// (`serde_json::from_str::<Value>` then `get(field)` and `as_bool`). The
/// parse is named, not spelled out.
#[verifier::external_body]
fn json_bool_field(text: &str, field: &str) -> (r: Option<bool>)
    ensures
        r == json_bool_member(text@, field@),
{
    serde_json::from_str::<serde_json::Value>(text).ok().and_then(|v| v.get(field).and_then(|b| b.as_bool()))
}

/// Whether the `is_admin` member read from a token payload grants admin
/// rights: only a boolean `true` does.
pub fn admin_from_member(member: Option<bool>) -> (r: bool)
    ensures
        r == (member == Some(true)),
{
    match member {
        Some(b) => b,
        None => false,
    }
}

/// Whether a decoded token payload claims admin rights: its `is_admin`
/// member is `true`; anything else (no such member, not JSON) says no.
pub fn admin_claim(payload_json: &str) -> (r: bool)
    ensures
        r == (json_bool_member(payload_json@, "is_admin"@) == Some(true)),
{
    admin_from_member(json_bool_field(payload_json, "is_admin"))
}

/// A signed-in session as the web client keeps it.
#[derive(Clone, Debug)]
pub struct AuthState {
    pub token: String,
    pub user_id: String,
    pub email: String,
    pub username: Option<String>,
    pub is_admin: bool,
}

/// Restores a session from stored values: token, user id and address must
/// all be stored and the token non-empty; the name is optional.
pub fn auth_from_stored(
    token: Option<String>,
    user_id: Option<String>,
    email: Option<String>,
    username: Option<String>,
    is_admin: bool,
) -> (r: Option<AuthState>)
    ensures
        match (token, user_id, email) {
            (Some(t), Some(u), Some(e)) => if t@.len() == 0 {
                r is None
            } else {
                r matches Some(a) && a.token@ == t@ && a.user_id@ == u@ && a.email@ == e@
                    && a.username == username && a.is_admin == is_admin
            },
            _ => r is None,
        },
{
    match (token, user_id, email) {
        (Some(t), Some(u), Some(e)) => {
            if t.as_str().unicode_len() == 0 {
                None
            } else {
                Some(AuthState { token: t, user_id: u, email: e, username, is_admin })
            }
        },
        _ => None,
    }
}

} // verus!
