//! What the Twitch and Kick sign-in flows store once the backend and the platform have
//! answered, and how they word a failed request.
use crate::protocol::types::{opt_seq, Platform};
use crate::text::{owned, push_str, trim};
use vstd::prelude::*;

verus! {

/// An account as the sign-in flows store it.
#[derive(Debug, Clone, PartialEq, Eq)]
pub struct AccountRecord {
    pub id: String,
    pub platform: Platform,
    pub platform_user_id: String,
    pub username: String,
    pub display_name: String,
    pub avatar_url: Option<String>,
    pub access_token: String,
    pub refresh_token: Option<String>,
    pub expires_at: Option<u64>,
    pub scopes: Vec<String>,
}

/// When a token that lasts `expires_in` seconds expires, in seconds since the epoch, counted
/// from `now_ms` (milliseconds) and capped at `u64::MAX`.
pub open spec fn expiry(expires_in: Option<u64>, now_ms: u64) -> Option<u64> {
    match expires_in {
        Some(e) => Some(
            if now_ms / 1000 + e > u64::MAX {
                u64::MAX
            } else {
                (now_ms / 1000 + e) as u64
            },
        ),
        None => None,
    }
}

/// When a token that lasts `expires_in` seconds expires ([`expiry`]).
pub fn token_expiry(expires_in: Option<u64>, now_ms: u64) -> (r: Option<u64>)
    ensures
        r == expiry(expires_in, now_ms),
{
    match expires_in {
        Some(e) => Some((now_ms / 1000).saturating_add(e)),
        None => None,
    }
}

/// The name a Twitch account shows: the user's display name when it is not blank, else the
/// login.
pub open spec fn twitch_display_name(user_display_name: Option<Seq<char>>, login: Seq<char>) -> Seq<char> {
    match user_display_name {
        Some(d) => if trim(d).len() > 0 {
            d
        } else {
            login
        },
        None => login,
    }
}

/// The Twitch account to store: id `twitch:` and the user id, the validated login as username,
/// the user's display name when not blank (else the login) and avatar, the tokens and their
/// expiry, and the validated scopes.
pub fn twitch_account_record(
    access_token: &str,
    refresh_token: Option<&str>,
    expires_in: Option<u64>,
    user_id: &str,
    login: &str,
    scopes: Vec<String>,
    user_display_name: Option<&str>,
    user_avatar_url: Option<&str>,
    now_ms: u64,
) -> (r: AccountRecord)
    ensures
        r.id@ == "twitch:"@ + user_id@,
        r.platform == Platform::Twitch,
        r.platform_user_id@ == user_id@,
        r.username@ == login@,
        r.display_name@ == twitch_display_name(
            match user_display_name {
                Some(d) => Some(d@),
                None => None,
            },
            login@,
        ),
        opt_seq(r.avatar_url) == match user_avatar_url {
            Some(a) => Some(a@),
            None => None,
        },
        r.access_token@ == access_token@,
        opt_seq(r.refresh_token) == match refresh_token {
            Some(t) => Some(t@),
            None => None,
        },
        r.expires_at == expiry(expires_in, now_ms),
        r.scopes@ == scopes@,
{
    let mut id = owned("twitch:");
    push_str(&mut id, user_id);
    let display_name = match user_display_name {
        Some(d) => {
            let t = crate::text::trimmed(d);
            if t.as_str().is_empty() {
                owned(login)
            } else {
                owned(d)
            }
        },
        None => owned(login),
    };
    AccountRecord {
        id,
        platform: Platform::Twitch,
        platform_user_id: owned(user_id),
        username: owned(login),
        display_name,
        avatar_url: match user_avatar_url {
            Some(a) => Some(owned(a)),
            None => None,
        },
        access_token: owned(access_token),
        refresh_token: match refresh_token {
            Some(t) => Some(owned(t)),
            None => None,
        },
        expires_at: token_expiry(expires_in, now_ms),
        scopes,
    }
}

/// The Kick account to store: id `kick:` and the user id, the user's name as username and
/// display name, the profile picture, the tokens and their expiry, and the granted scopes
/// (none when the answer lists none).
pub fn kick_account_record(
    access_token: &str,
    refresh_token: Option<&str>,
    expires_in: Option<u64>,
    scope: Option<Vec<String>>,
    user_id: &str,
    name: &str,
    profile_picture: Option<&str>,
    now_ms: u64,
) -> (r: AccountRecord)
    ensures
        r.id@ == "kick:"@ + user_id@,
        r.platform == Platform::Kick,
        r.platform_user_id@ == user_id@,
        r.username@ == name@,
        r.display_name@ == name@,
        opt_seq(r.avatar_url) == match profile_picture {
            Some(a) => Some(a@),
            None => None,
        },
        r.access_token@ == access_token@,
        opt_seq(r.refresh_token) == match refresh_token {
            Some(t) => Some(t@),
            None => None,
        },
        r.expires_at == expiry(expires_in, now_ms),
        r.scopes@ == match scope {
            Some(s) => s@,
            None => Seq::<String>::empty(),
        },
{
    let mut id = owned("kick:");
    push_str(&mut id, user_id);
    AccountRecord {
        id,
        platform: Platform::Kick,
        platform_user_id: owned(user_id),
        username: owned(name),
        display_name: owned(name),
        avatar_url: match profile_picture {
            Some(a) => Some(owned(a)),
            None => None,
        },
        access_token: owned(access_token),
        refresh_token: match refresh_token {
            Some(t) => Some(owned(t)),
            None => None,
        },
        expires_at: token_expiry(expires_in, now_ms),
        scopes: match scope {
            Some(s) => s,
            None => Vec::new(),
        },
    }
}

/// The error of a request the backend or the platform refused: what was asked, `failed with`,
/// the HTTP status as written (`404 Not Found`), and a short excerpt of the answer's body.
pub fn request_failure_message(request: &str, status: &str, body: &str) -> (r: String)
    ensures
        r@ == request@ + " failed with "@ + status@ + ": "@ + crate::platforms::twitch::client::snippet(body@),
{
    let mut s = owned(request);
    push_str(&mut s, " failed with ");
    push_str(&mut s, status);
    push_str(&mut s, ": ");
    let excerpt = crate::platforms::twitch::client::body_snippet(body);
    push_str(&mut s, excerpt.as_str());
    s
}

} // verus!
