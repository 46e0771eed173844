//! Kick chat types and the adapter that drives a Kick chat client.
use crate::platforms::PlatformError;
use crate::protocol::types::{ChatReply, ChatReplyView, Platform, PlatformStatusMode, ReplyAuthor, StreamStatus};
use crate::text::{
    chars_of, decimal, find_char, find_seq_from, first_index, first_occurrence, lemma_first_occurrence, occurs_at,
    owned, push_str, string_from_range, to_lowercase, trim, trim_start_char, trim_then_strip,
    trimmed, unicode_lowercase, u64_to_string, parse_u64, parse_u64_spec,
};
use crate::auth::{AuthError, AuthProvider, AuthenticatedAccount};
use vstd::prelude::*;

verus! {

/// Seconds before expiry at which a Kick token is refreshed before sending.
pub const KICK_TOKEN_REFRESH_WINDOW_SECONDS: u64 = 300;

/// Whether the adapter may act as a Kick user.
#[derive(Debug, Clone, PartialEq, Eq)]
pub enum KickAuthState {
    Anonymous,
    Authenticated {
        account_id: String,
        platform_user_id: String,
        username: String,
        display_name: String,
        avatar_url: Option<String>,
        access_token: String,
        refresh_token: Option<String>,
        expires_at: Option<u64>,
    },
    ReauthRequired { account_id: String, reason: String },
}

impl KickAuthState {
    pub fn mode(&self) -> (r: PlatformStatusMode)
        ensures
            r == (if self is Authenticated {
                PlatformStatusMode::Authenticated
            } else {
                PlatformStatusMode::Anonymous
            }),
    {
        match self {
            KickAuthState::Authenticated { .. } => PlatformStatusMode::Authenticated,
            _ => PlatformStatusMode::Anonymous,
        }
    }

    pub fn is_authenticated(&self) -> (r: bool)
        ensures
            r == self is Authenticated,
    {
        match self {
            KickAuthState::Authenticated { .. } => true,
            _ => false,
        }
    }
}

#[derive(Debug, Clone, Copy, PartialEq, Eq, Structural)]
pub enum KickAdapterErrorKind {
    MissingChatroom,
    MissingBroadcaster,
    AuthRequired,
    Transport,
    Storage,
}

/// A typed Kick adapter failure.
#[derive(Debug, Clone, PartialEq, Eq)]
pub struct KickAdapterError {
    pub kind: KickAdapterErrorKind,
    pub channel_slug: Option<String>,
    pub message: String,
    pub recoverable: bool,
}

impl KickAdapterError {
    pub fn new(
        kind: KickAdapterErrorKind,
        channel_slug: Option<String>,
        message: String,
        recoverable: bool,
    ) -> (r: Self)
        ensures
            r.kind == kind,
            r.channel_slug == channel_slug,
            r.message == message,
            r.recoverable == recoverable,
    {
        KickAdapterError { kind, channel_slug, message, recoverable }
    }

    /// The platform error reported for this failure.
    pub fn platform_error(&self) -> (r: PlatformError)
        ensures
            r.platform == Platform::Kick,
            r.message@ == self.message@,
    {
        PlatformError::new(Platform::Kick, self.message.clone())
    }
}

#[derive(Debug, Clone, PartialEq, Eq)]
pub struct KickChatroom {
    pub channel_slug: String,
    pub chatroom_id: u64,
    pub broadcaster_user_id: u64,
}

#[derive(Debug, Clone, PartialEq, Eq)]
pub struct KickBadge {
    pub badge_type: String,
    pub text: String,
    pub count: Option<u64>,
}

#[derive(Debug, Clone, PartialEq, Eq)]
pub struct KickEmote {
    pub id: String,
    pub name: String,
    pub start: u32,
    pub end: u32,
}

#[derive(Debug, Clone, PartialEq, Eq)]
pub struct KickMessageSender {
    pub id: u64,
    pub username: String,
    pub slug: String,
    pub identity: KickSenderIdentity,
    pub profile_picture: Option<String>,
}

#[derive(Debug, Clone, PartialEq, Eq)]
pub struct KickSenderIdentity {
    pub color: Option<String>,
    pub badges: Vec<KickBadge>,
}

#[derive(Debug, Clone, PartialEq, Eq)]
pub struct KickOriginalSender {
    pub id: String,
    pub username: String,
}

#[derive(Debug, Clone, PartialEq, Eq)]
pub struct KickOriginalMessage {
    pub id: String,
    pub content: String,
}

#[derive(Debug, Clone, PartialEq, Eq)]
pub struct KickReplyMetadata {
    pub original_sender: Option<KickOriginalSender>,
    pub original_message: Option<KickOriginalMessage>,
}

#[derive(Debug, Clone, Copy, PartialEq, Eq, Structural)]
pub enum KickChatMessageKind {
    Message,
    Reply,
}

#[derive(Debug, Clone, PartialEq, Eq)]
pub struct KickChatMessage {
    pub id: String,
    pub chatroom_id: u64,
    pub content: String,
    pub message_type: KickChatMessageKind,
    pub created_at: String,
    pub sender: KickMessageSender,
    pub metadata: Option<KickReplyMetadata>,
}

#[derive(Debug, Clone, PartialEq, Eq)]
pub struct KickFollowEvent {
    pub channel_id: u64,
    pub user_id: u64,
    pub username: String,
    pub display_name: String,
    pub avatar_url: Option<String>,
    pub followed_at: String,
}

#[derive(Debug, Clone, PartialEq, Eq)]
pub struct KickSubscriptionEvent {
    pub channel_id: u64,
    pub user_id: u64,
    pub username: String,
    pub display_name: String,
    pub avatar_url: Option<String>,
    pub gifted_by: Option<String>,
    pub duration: Option<u64>,
    pub created_at: String,
}

#[derive(Debug, Clone, PartialEq, Eq)]
pub struct KickUserBannedEvent {
    pub chatroom_id: Option<u64>,
    pub user_id: Option<u64>,
    pub user: KickBannedUser,
    pub banned_by: Option<KickBannedBy>,
    pub duration: Option<u32>,
    pub permanent: bool,
    pub created_at: Option<String>,
    pub expires_at: Option<String>,
}

#[derive(Debug, Clone, PartialEq, Eq)]
pub struct KickBannedUser {
    pub id: u64,
    pub username: String,
    pub slug: String,
}

#[derive(Debug, Clone, PartialEq, Eq)]
pub struct KickBannedBy {
    pub id: u64,
    pub username: String,
    pub slug: String,
}

#[derive(Debug, Clone, PartialEq, Eq)]
pub struct KickUserUnbannedEvent {
    pub chatroom_id: Option<u64>,
    pub user_id: Option<u64>,
    pub user: KickBannedUser,
    pub unbanned_by: Option<KickBannedBy>,
    pub permanent: bool,
    pub created_at: Option<String>,
}

/// The identity a Kick transport connects with.
#[derive(Debug, Clone, PartialEq, Eq)]
pub enum KickTransportAuth {
    Anonymous,
    Authenticated {
        account_id: String,
        platform_user_id: String,
        username: String,
        display_name: String,
        access_token: String,
    },
    ReauthRequired { account_id: String, reason: String },
}

#[derive(Debug, Clone, PartialEq, Eq)]
pub struct KickSendMessageRequest {
    pub broadcaster_user_id: u64,
    pub content: String,
    pub reply_to_message_id: Option<String>,
}

#[derive(Debug, Clone, PartialEq, Eq)]
pub struct KickStreamStatusRequest {
    pub channel_slug: String,
    pub broadcaster_user_id: Option<u64>,
}

#[derive(Debug, Clone, Copy, PartialEq, Eq, Structural)]
pub enum KickAvatarLookupSource {
    Slug,
    Username,
}

#[derive(Debug, Clone, PartialEq, Eq)]
pub struct KickAvatarLookupRequest {
    pub author_id: String,
    pub lookup_source: KickAvatarLookupSource,
    pub slug_or_username: String,
}

/// The reply a Kick message refers to, for a reply message with both parts of its metadata.
pub open spec fn kick_reply_spec(kind: KickChatMessageKind, metadata: Option<KickReplyMetadata>) -> Option<
    ChatReplyView,
> {
    if kind != KickChatMessageKind::Reply {
        None
    } else {
        match metadata {
            Some(m) => match (m.original_sender, m.original_message) {
                (Some(s), Some(o)) => Some((o.id@, o.content@, s.id@, s.username@, s.username@)),
                _ => None,
            },
            None => None,
        }
    }
}

/// The reply a Kick message refers to.
pub fn normalize_reply(message_type: KickChatMessageKind, metadata: Option<KickReplyMetadata>) -> (r:
    Option<ChatReply>)
    ensures
        match r {
            Some(reply) => kick_reply_spec(message_type, metadata) == Some(reply@),
            None => kick_reply_spec(message_type, metadata) is None,
        },
{
    if message_type != KickChatMessageKind::Reply {
        return None;
    }
    let metadata = match metadata {
        Some(m) => m,
        None => return None,
    };
    let original_sender = match metadata.original_sender {
        Some(s) => s,
        None => return None,
    };
    let original_message = match metadata.original_message {
        Some(o) => o,
        None => return None,
    };
    Some(
        ChatReply {
            parent_message_id: original_message.id,
            parent_message_text: original_message.content,
            parent_author: ReplyAuthor {
                id: original_sender.id,
                username: original_sender.username.clone(),
                display_name: original_sender.username,
            },
        },
    )
}

/// Whether a Kick token expiring at `expires_at` must be refreshed at time `now` (seconds).
pub open spec fn kick_token_expiring(expires_at: Option<u64>, now: u64) -> bool {
    match expires_at {
        Some(t) => t <= (if now + KICK_TOKEN_REFRESH_WINDOW_SECONDS > u64::MAX {
            u64::MAX as int
        } else {
            now + KICK_TOKEN_REFRESH_WINDOW_SECONDS
        }),
        None => false,
    }
}

/// Whether a Kick token must be refreshed before sending, at time `now` (seconds).
pub fn token_needs_refresh(expires_at: Option<u64>, now: u64) -> (r: bool)
    ensures
        r == kick_token_expiring(expires_at, now),
{
    match expires_at {
        Some(t) => t <= now.saturating_add(KICK_TOKEN_REFRESH_WINDOW_SECONDS),
        None => false,
    }
}

/// The reason reauthentication is required, if it is.
pub fn reauth_reason(auth_state: &KickAuthState) -> (r: Option<String>)
    ensures
        match auth_state {
            KickAuthState::ReauthRequired { reason, .. } => r is Some && r->0@ == reason@,
            _ => r is None,
        },
{
    match auth_state {
        KickAuthState::ReauthRequired { reason, .. } => Some(reason.clone()),
        _ => None,
    }
}

/// A Kick channel slug trimmed, without leading `@`, lowercased.
pub open spec fn normalized_slug(channel: Seq<char>) -> Seq<char> {
    unicode_lowercase(trim_start_char(trim(channel), '@'))
}

/// A Kick channel slug trimmed, without leading `@`, lowercased.
pub fn normalize_channel_slug(channel: &str) -> (r: String)
    ensures
        r@ == normalized_slug(channel@),
{
    let s = trim_then_strip(channel, '@');
    to_lowercase(s.as_str())
}

/// The trimmed value, or nothing when it is absent or blank.
pub open spec fn non_blank(value: Option<Seq<char>>) -> Option<Seq<char>> {
    match value {
        Some(v) => if trim(v).len() > 0 {
            Some(trim(v))
        } else {
            None
        },
        None => None,
    }
}

/// The trimmed value, or nothing when it is absent or blank.
pub fn normalize_non_empty_string(value: Option<&str>) -> (r: Option<String>)
    ensures
        match r {
            Some(s) => non_blank(
                match value {
                    Some(v) => Some(v@),
                    None => None,
                },
            ) == Some(s@),
            None => non_blank(
                match value {
                    Some(v) => Some(v@),
                    None => None,
                },
            ) is None,
        },
{
    match value {
        Some(v) => {
            let t = trimmed(v);
            if t.as_str().is_empty() {
                None
            } else {
                Some(t)
            }
        },
        None => None,
    }
}

/// A trimmed avatar address, or nothing when it is blank.
pub fn normalize_avatar_url(value: Option<&str>) -> (r: Option<String>)
    ensures
        match r {
            Some(s) => non_blank(
                match value {
                    Some(v) => Some(v@),
                    None => None,
                },
            ) == Some(s@),
            None => non_blank(
                match value {
                    Some(v) => Some(v@),
                    None => None,
                },
            ) is None,
        },
{
    normalize_non_empty_string(value)
}

/// How an author's avatar is looked up: by slug when it is set, else by username.
pub open spec fn avatar_lookup_spec(sender: KickMessageSender) -> Option<(KickAvatarLookupSource, Seq<char>)> {
    match non_blank(Some(sender.slug@)) {
        Some(s) => Some((KickAvatarLookupSource::Slug, s)),
        None => match non_blank(Some(sender.username@)) {
            Some(u) => Some((KickAvatarLookupSource::Username, u)),
            None => None,
        },
    }
}

/// How an author's avatar is looked up.
pub fn avatar_lookup_parts(sender: &KickMessageSender) -> (r: Option<(KickAvatarLookupSource, String)>)
    ensures
        match r {
            Some(p) => avatar_lookup_spec(*sender) == Some((p.0, p.1@)),
            None => avatar_lookup_spec(*sender) is None,
        },
{
    match normalize_non_empty_string(Some(sender.slug.as_str())) {
        Some(s) => Some((KickAvatarLookupSource::Slug, s)),
        None => match normalize_non_empty_string(Some(sender.username.as_str())) {
            Some(u) => Some((KickAvatarLookupSource::Username, u)),
            None => None,
        },
    }
}

/// The avatar cache key of a Kick author.
pub fn kick_avatar_cache_key(author_id: u64) -> (r: String)
    ensures
        r@ == "kick:"@ + decimal(author_id as nat),
{
    let mut r = owned("kick:");
    let d = u64_to_string(author_id);
    push_str(&mut r, d.as_str());
    r
}

/// The display name, or the username when the display name is empty.
pub fn non_empty_display_name(display_name: &str, username: &str) -> (r: String)
    ensures
        r@ == (if display_name@.len() == 0 {
            username@
        } else {
            display_name@
        }),
{
    if display_name.is_empty() {
        owned(username)
    } else {
        owned(display_name)
    }
}

/// `str::parse::<u64>`.
pub fn kick_parse_u64(value: &str) -> (r: Option<u64>)
    ensures
        r == parse_u64_spec(value@),
{
    parse_u64(value)
}

/// `value` as a `u32`, or `u32::MAX` when it does not fit.
pub open spec fn u32_or_max(value: int) -> u32 {
    if value <= u32::MAX {
        value as u32
    } else {
        u32::MAX
    }
}

/// `value` as a `u32`, or `u32::MAX` when it does not fit.
pub fn to_u32_or_max(value: usize) -> (r: u32)
    ensures
        r == u32_or_max(value as int),
{
    if value <= 0xffff_ffff {
        value as u32
    } else {
        0xffff_ffff
    }
}

/// The reconnect delay, in seconds, after `attempt` failed attempts: 1, 2, 4, 8, 16, then 30.
pub open spec fn reconnect_delay_secs(attempt: u32) -> u64 {
    if attempt == 0 {
        1
    } else if attempt == 1 {
        2
    } else if attempt == 2 {
        4
    } else if attempt == 3 {
        8
    } else if attempt == 4 {
        16
    } else {
        30
    }
}

/// The reconnect delay, in seconds, after `attempt` failed attempts (doubling from one
/// second, at most thirty).
pub fn reconnect_delay_for_attempt(attempt: u32) -> (r: u64)
    ensures
        r == reconnect_delay_secs(attempt),
{
    let shift = if attempt < 5 {
        attempt
    } else {
        5
    };
    let multiplier: u64 = 1u64 << (shift as u64);
    proof {
        assert(shift == 0 ==> multiplier == 1) by (bit_vector)
            requires
                multiplier == 1u64 << (shift as u64),
        ;
        assert(shift == 1 ==> multiplier == 2) by (bit_vector)
            requires
                multiplier == 1u64 << (shift as u64),
        ;
        assert(shift == 2 ==> multiplier == 4) by (bit_vector)
            requires
                multiplier == 1u64 << (shift as u64),
        ;
        assert(shift == 3 ==> multiplier == 8) by (bit_vector)
            requires
                multiplier == 1u64 << (shift as u64),
        ;
        assert(shift == 4 ==> multiplier == 16) by (bit_vector)
            requires
                multiplier == 1u64 << (shift as u64),
        ;
        assert(shift == 5 ==> multiplier == 32) by (bit_vector)
            requires
                multiplier == 1u64 << (shift as u64),
        ;
    }
    let seconds = multiplier;
    if seconds < 30 {
        seconds
    } else {
        30
    }
}

/// Law: the reconnect delay never shrinks as attempts grow, and stays within one to thirty
/// seconds.
pub proof fn reconnect_delay_is_bounded_and_monotone(a: u32, b: u32)
    requires
        a <= b,
    ensures
        1 <= reconnect_delay_secs(a) <= reconnect_delay_secs(b) <= 30,
{
}

} // verus!

verus! {

/// An emote found in Kick message content: id, name, image address and the inclusive
/// character span of its name in the cleaned text.
#[derive(Debug, Clone, PartialEq, Eq)]
pub struct KickParsedEmote {
    pub id: String,
    pub name: String,
    pub image_url: String,
    pub start: u32,
    pub end: u32,
}

/// A parsed emote as `(id, name, image_url, start, end)`.
pub type KickParsedEmoteView = (Seq<char>, Seq<char>, Seq<char>, u32, u32);

impl View for KickParsedEmote {
    type V = KickParsedEmoteView;

    open spec fn view(&self) -> KickParsedEmoteView {
        (self.id@, self.name@, self.image_url@, self.start, self.end)
    }
}

/// The opening of an inline Kick emote tag.
pub open spec fn emote_open() -> Seq<char> {
    seq!['[', 'e', 'm', 'o', 't', 'e', ':']
}

/// The image address of a Kick emote.
pub open spec fn kick_emote_url(id: Seq<char>) -> Seq<char> {
    "https://files.kick.com/emotes/"@ + id + "/fullsize"@
}

/// Cleans `rest` of inline `[emote:id:name]` tags, given the already cleaned text `clean`:
/// each well-formed tag becomes its name and an emote; a tag with an empty id or name stays
/// as written; an unclosed tag ends the scan.
pub open spec fn kick_emotes_spec(rest: Seq<char>, clean: Seq<char>) -> (Seq<char>, Seq<KickParsedEmoteView>)
    decreases rest.len(),
{
    match first_occurrence(rest, emote_open()) {
        None => (clean + rest, Seq::empty()),
        Some(start) => {
            let clean1 = clean + rest.take(start);
            let tag_rest = rest.skip(start);
            match first_index(tag_rest, ']') {
                None => (clean1 + tag_rest, Seq::empty()),
                Some(end) => if !(0 <= start && 7 <= end < tag_rest.len() && tag_rest.len() <= rest.len()) {
                    // never taken: a match lies inside `rest`, and its `]` follows the opening
                    (clean1 + tag_rest, Seq::empty())
                } else {
                    let tag = tag_rest.take(end + 1);
                    let inner = tag.subrange(7, end);
                    let next = tag_rest.skip(end + 1);
                    match first_index(inner, ':') {
                        Some(colon) => if colon == 0 || colon + 1 == inner.len() {
                            kick_emotes_spec(next, clean1 + tag)
                        } else {
                            let id = inner.take(colon);
                            let name = inner.skip(colon + 1);
                            let s = u32_or_max(clean1.len() as int);
                            let e = u32_or_max(
                                s + (if u32_or_max(name.len() as int) == 0 {
                                    0
                                } else {
                                    u32_or_max(name.len() as int) - 1
                                }),
                            );
                            let more = kick_emotes_spec(next, clean1 + name);
                            (more.0, seq![(id, name, kick_emote_url(id), s, e)] + more.1)
                        },
                        None => kick_emotes_spec(next, clean1 + tag),
                    }
                },
            }
        },
    }
}

} // verus!

verus! {

/// The view of a list of parsed emotes.
pub open spec fn parsed_emotes_view(v: Seq<KickParsedEmote>) -> Seq<KickParsedEmoteView> {
    Seq::new(v.len(), |i: int| v[i]@)
}

fn extend_chars(out: &mut Vec<char>, v: &Vec<char>, lo: usize, hi: usize)
    requires
        lo <= hi <= v@.len(),
    ensures
        final(out)@ == old(out)@ + v@.subrange(lo as int, hi as int),
{
    let mut i = lo;
    while i < hi
        invariant
            lo <= i <= hi <= v@.len(),
            out@ == old(out)@ + v@.subrange(lo as int, i as int),
        decreases hi - i,
    {
        out.push(v[i]);
        i = i + 1;
        assert(out@ =~= old(out)@ + v@.subrange(lo as int, i as int));
    }
}

fn kick_emote_url_exec(v: &Vec<char>, lo: usize, hi: usize) -> (r: String)
    requires
        lo <= hi <= v@.len(),
    ensures
        r@ == kick_emote_url(v@.subrange(lo as int, hi as int)),
{
    let mut r = owned("https://files.kick.com/emotes/");
    let id = string_from_range(v, lo, hi);
    push_str(&mut r, id.as_str());
    push_str(&mut r, "/fullsize");
    r
}

/// Replaces inline `[emote:id:name]` tags of Kick message content by their names, and lists
/// the emotes with their positions in the cleaned text.
pub fn parse_kick_emotes(content: &str) -> (r: (String, Vec<KickParsedEmote>))
    ensures
        (r.0@, parsed_emotes_view(r.1@)) == kick_emotes_spec(content@, Seq::empty()),
{
    let v = chars_of(content);
    let n = v.len();
    let pat: Vec<char> = vec!['[', 'e', 'm', 'o', 't', 'e', ':'];
    assert(pat@ =~= emote_open());
    let mut clean: Vec<char> = Vec::new();
    let mut emotes: Vec<KickParsedEmote> = Vec::new();
    let mut i: usize = 0;
    proof {
        assert(v@.skip(0) =~= v@);
        assert(parsed_emotes_view(emotes@) =~= Seq::<KickParsedEmoteView>::empty());
    }
    loop
        invariant
            i <= n == v@.len(),
            v@ == content@,
            pat@ == emote_open(),
            kick_emotes_spec(content@, Seq::empty()) == (
                kick_emotes_spec(v@.skip(i as int), clean@).0,
                parsed_emotes_view(emotes@) + kick_emotes_spec(v@.skip(i as int), clean@).1,
            ),
        decreases n - i,
    {
        let ghost rest = v@.skip(i as int);
        let ghost old_clean = clean@;
        let ghost old_emotes = parsed_emotes_view(emotes@);
        let found = find_seq_from(&v, &pat, i);
        match found {
            None => {
                proof {
                    assert forall|k: int| 0 <= k implies !occurs_at(rest, emote_open(), k) by {
                        if occurs_at(rest, emote_open(), k) {
                            assert(v@.subrange(k + i, k + i + 7) =~= rest.subrange(k, k + 7));
                            assert(occurs_at(v@, pat@, k + i));
                        }
                    }
                    crate::text::lemma_no_occurrence(rest, emote_open());
                }
                extend_chars(&mut clean, &v, i, n);
                let s = string_from_chars_vec(&clean);
                proof {
                    assert(rest =~= v@.subrange(i as int, n as int));
                    assert(parsed_emotes_view(emotes@) + Seq::<KickParsedEmoteView>::empty() =~= parsed_emotes_view(emotes@));
                }
                return (s, emotes);
            },
            Some(at) => {
                proof {
                    assert(occurs_at(rest, emote_open(), at - i)) by {
                        assert(v@.subrange(at as int, at + 7) =~= rest.subrange(at - i, at - i + 7));
                    }
                    assert forall|k: int| 0 <= k < at - i implies !occurs_at(rest, emote_open(), k) by {
                        if occurs_at(rest, emote_open(), k) {
                            assert(v@.subrange(k + i, k + i + 7) =~= rest.subrange(k, k + 7));
                            assert(occurs_at(v@, pat@, k + i));
                        }
                    }
                    lemma_first_occurrence(rest, emote_open(), at - i);
                }
                extend_chars(&mut clean, &v, i, at);
                let ghost clean1 = clean@;
                let ghost tag_rest = rest.skip(at - i);
                proof {
                    assert(rest.take(at - i) =~= v@.subrange(i as int, at as int));
                    assert(tag_rest =~= v@.subrange(at as int, n as int));
                }
                match find_char(&v, at, n, ']') {
                    None => {
                        extend_chars(&mut clean, &v, at, n);
                        let s = string_from_chars_vec(&clean);
                        proof {
                            assert(parsed_emotes_view(emotes@) + Seq::<KickParsedEmoteView>::empty() =~= parsed_emotes_view(emotes@));
                        }
                        return (s, emotes);
                    },
                    Some(e) => {
                        proof {
                            if e < at + 7 {
                                assert(v@[e as int] == v@.subrange(at as int, at + 7)[e - at]);
                                assert(false);
                            }
                            assert(tag_rest.take(e - at + 1) =~= v@.subrange(at as int, e + 1));
                            assert(tag_rest.skip(e - at + 1) =~= v@.skip(e + 1));
                            assert(v@.subrange(at as int, e + 1).subrange(7, e - at) =~= v@.subrange(at + 7, e as int));
                        }
                        let ghost inner = v@.subrange(at + 7, e as int);
                        match find_char(&v, at + 7, e, ':') {
                            Some(c) if c > at + 7 && c + 1 < e => {
                                let start = to_u32_or_max(clean.len());
                                let name_len = to_u32_or_max(e - (c + 1));
                                let end = start.saturating_add(name_len.saturating_sub(1));
                                let em = KickParsedEmote {
                                    id: string_from_range(&v, at + 7, c),
                                    name: string_from_range(&v, c + 1, e),
                                    image_url: kick_emote_url_exec(&v, at + 7, c),
                                    start,
                                    end,
                                };
                                extend_chars(&mut clean, &v, c + 1, e);
                                emotes.push(em);
                                proof {
                                    assert(inner.take(c - (at + 7)) =~= v@.subrange(at + 7, c as int));
                                    assert(inner.skip(c - (at + 7) + 1) =~= v@.subrange(c + 1, e as int));
                                    let more = kick_emotes_spec(v@.skip(e + 1), clean@);
                                    assert(parsed_emotes_view(emotes@) =~= old_emotes.push(em@));
                                    assert(old_emotes + (seq![em@] + more.1) =~= parsed_emotes_view(emotes@) + more.1);
                                }
                                i = e + 1;
                            },
                            _ => {
                                extend_chars(&mut clean, &v, at, e + 1);
                                i = e + 1;
                            },
                        }
                    },
                }
            },
        }
    }
}

/// A string holding the characters of `v`.
fn string_from_chars_vec(v: &Vec<char>) -> (r: String)
    ensures
        r@ == v@,
{
    crate::text::string_from_chars(v)
}

} // verus!

verus! {

/// The Kick chat transport the adapter drives.
pub trait KickChatClient: Sized {
    /// `r` is an answer the client may give when asked for the chatroom of `channel_slug`,
    /// and `next` what it may then be.
    spec fn gives_chatroom(&self, channel_slug: Seq<char>, r: Result<KickChatroom, PlatformError>, next: Self) -> bool;

    fn resolve_chatroom(&mut self, channel_slug: &str) -> (r: Result<KickChatroom, PlatformError>)
        ensures
            old(self).gives_chatroom(channel_slug@, r, *final(self)),
    ;

    /// `r` is an answer the client may give when asked to subscribe to `chatroom` as `auth`,
    /// and `next` what it may then be.
    spec fn subscribes(
        &self,
        chatroom: KickChatroom,
        auth: KickTransportAuth,
        r: Result<(), PlatformError>,
        next: Self,
    ) -> bool;

    fn subscribe_chatroom(&mut self, chatroom: &KickChatroom, auth: &KickTransportAuth) -> (r: Result<
        (),
        PlatformError,
    >)
        ensures
            old(self).subscribes(*chatroom, *auth, r, *final(self)),
    ;

    /// `r` is an answer the client may give when asked to leave the chat, and `next` what it
    /// may then be.
    spec fn gives_disconnect(&self, r: Result<(), PlatformError>, next: Self) -> bool;

    fn disconnect(&mut self) -> (r: Result<(), PlatformError>)
        ensures
            old(self).gives_disconnect(r, *final(self)),
    ;

    /// `r` is an answer the client may give when asked for the avatar `request` looks up, and
    /// `next` what it may then be.
    spec fn gives_avatar(
        &self,
        request: KickAvatarLookupRequest,
        r: Result<Option<String>, PlatformError>,
        next: Self,
    ) -> bool;

    fn resolve_avatar_url(&mut self, request: KickAvatarLookupRequest) -> (r: Result<Option<String>, PlatformError>)
        ensures
            old(self).gives_avatar(request, r, *final(self)),
    ;

    /// `r` is an answer the client may give when asked for the chat messages it has received, and
    /// `next` what it may then be.
    spec fn drains_messages(&self, r: Result<Vec<KickChatMessage>, PlatformError>, next: Self) -> bool;

    fn drain_messages(&mut self) -> (r: Result<Vec<KickChatMessage>, PlatformError>)
        ensures
            old(self).drains_messages(r, *final(self)),
    ;

    /// `r` is an answer the client may give when asked for the follows it has received, and
    /// `next` what it may then be.
    spec fn drains_follows(&self, r: Result<Vec<KickFollowEvent>, PlatformError>, next: Self) -> bool;

    fn drain_follow_events(&mut self) -> (r: Result<Vec<KickFollowEvent>, PlatformError>)
        ensures
            old(self).drains_follows(r, *final(self)),
    ;

    /// `r` is an answer the client may give when asked for the subscriptions it has received, and
    /// `next` what it may then be.
    spec fn drains_subscriptions(&self, r: Result<Vec<KickSubscriptionEvent>, PlatformError>, next: Self) -> bool;

    fn drain_subscription_events(&mut self) -> (r: Result<Vec<KickSubscriptionEvent>, PlatformError>)
        ensures
            old(self).drains_subscriptions(r, *final(self)),
    ;

    /// `r` is an answer the client may give when asked for the bans it has received, and
    /// `next` what it may then be.
    spec fn drains_bans(&self, r: Result<Vec<KickUserBannedEvent>, PlatformError>, next: Self) -> bool;

    fn drain_ban_events(&mut self) -> (r: Result<Vec<KickUserBannedEvent>, PlatformError>)
        ensures
            old(self).drains_bans(r, *final(self)),
    ;

    /// `r` is an answer the client may give when asked for the unbans it has received, and
    /// `next` what it may then be.
    spec fn drains_unbans(&self, r: Result<Vec<KickUserUnbannedEvent>, PlatformError>, next: Self) -> bool;

    fn drain_unban_events(&mut self) -> (r: Result<Vec<KickUserUnbannedEvent>, PlatformError>)
        ensures
            old(self).drains_unbans(r, *final(self)),
    ;

    fn send_message(&mut self, request: KickSendMessageRequest, auth: &KickTransportAuth) -> Result<
        String,
        PlatformError,
    >;

    fn refresh_access_token(&mut self, account_id: &str, refresh_token: &str) -> Result<
        crate::platforms::TokenPair,
        PlatformError,
    >;

    /// `r` is an answer the client may give when asked for the stream status of the channel
    /// `channel_slug`, with the broadcaster id when it is known.
    spec fn gives_stream_status(&self, channel_slug: Seq<char>, broadcaster_user_id: Option<u64>, r: Result<
        StreamStatus,
        PlatformError,
    >) -> bool;

    fn stream_status(&mut self, request: KickStreamStatusRequest) -> (r: Result<StreamStatus, PlatformError>)
        ensures
            old(self).gives_stream_status(request.channel_slug@, request.broadcaster_user_id, r),
    ;
}

/// The message for a chatroom lookup that found no chatroom id.
pub open spec fn missing_chatroom_message(slug: Seq<char>) -> Seq<char> {
    "Kick chatroom ID not found for channel \""@ + slug + "\""@
}

/// The message for a chatroom lookup that found no broadcaster id.
pub open spec fn missing_broadcaster_message(slug: Seq<char>) -> Seq<char> {
    "Kick broadcaster user ID not found for channel \""@ + slug + "\""@
}

/// Checks a resolved chatroom: both its chatroom id and broadcaster id must be set.
pub fn check_resolved_chatroom(channel_slug: &str, chatroom: &KickChatroom) -> (r: Result<(), KickAdapterError>)
    ensures
        chatroom.chatroom_id == 0 ==> r is Err && r->Err_0.kind == KickAdapterErrorKind::MissingChatroom
            && r->Err_0.message@ == missing_chatroom_message(channel_slug@),
        chatroom.chatroom_id != 0 && chatroom.broadcaster_user_id == 0 ==> r is Err && r->Err_0.kind
            == KickAdapterErrorKind::MissingBroadcaster && r->Err_0.message@
            == missing_broadcaster_message(channel_slug@),
        chatroom.chatroom_id != 0 && chatroom.broadcaster_user_id != 0 ==> r is Ok,
        r is Err ==> r->Err_0.recoverable && r->Err_0.channel_slug is Some
            && r->Err_0.channel_slug->0@ == channel_slug@,
{
    if chatroom.chatroom_id == 0 {
        let mut m = owned("Kick chatroom ID not found for channel \"");
        push_str(&mut m, channel_slug);
        push_str(&mut m, "\"");
        return Err(
            KickAdapterError::new(KickAdapterErrorKind::MissingChatroom, Some(owned(channel_slug)), m, true),
        );
    }
    if chatroom.broadcaster_user_id == 0 {
        let mut m = owned("Kick broadcaster user ID not found for channel \"");
        push_str(&mut m, channel_slug);
        push_str(&mut m, "\"");
        return Err(
            KickAdapterError::new(KickAdapterErrorKind::MissingBroadcaster, Some(owned(channel_slug)), m, true),
        );
    }
    Ok(())
}

/// The identity a transport connects with, for an auth state.
pub open spec fn transport_auth_spec(auth: KickAuthState) -> KickTransportAuth {
    match auth {
        KickAuthState::Anonymous => KickTransportAuth::Anonymous,
        KickAuthState::Authenticated {
            account_id,
            platform_user_id,
            username,
            display_name,
            access_token,
            ..
        } => KickTransportAuth::Authenticated {
            account_id,
            platform_user_id,
            username,
            display_name,
            access_token,
        },
        KickAuthState::ReauthRequired { account_id, reason } => KickTransportAuth::ReauthRequired {
            account_id,
            reason,
        },
    }
}

/// The error for an action that needs an authenticated Kick account, if it is refused.
pub open spec fn kick_auth_refusal(auth_state: KickAuthState, action: Seq<char>) -> Option<Seq<char>> {
    match auth_state {
        KickAuthState::Authenticated { .. } => None,
        KickAuthState::ReauthRequired { reason, .. } => Some(
            "Cannot "@ + action + "; Kick account requires reauth: "@ + reason@,
        ),
        KickAuthState::Anonymous => Some("Cannot "@ + action + " in anonymous Kick mode"@),
    }
}

/// `a` after a chatroom lookup for `slug` failed with `message`: the chatroom is dropped, the
/// adapter counts as disconnected, and the failure is recorded as a missing chatroom.
pub open spec fn lookup_failed<C>(a: KickAdapter<C>, b: KickAdapter<C>, slug: Seq<char>, message: Seq<char>) -> bool {
    &&& b == (KickAdapter { chatroom: None, is_connected: false, last_error: b.last_error, ..a })
    &&& b.last_error is Some
    &&& b.last_error->0.kind == KickAdapterErrorKind::MissingChatroom
    &&& b.last_error->0.message@ == message
    &&& b.last_error->0.recoverable
    &&& b.last_error->0.channel_slug is Some && b.last_error->0.channel_slug->0@ == slug
}

/// What one connection attempt does from `a` to `b`, answering `r`: without a slug it is
/// refused; else the client resolves the slug's chatroom; a failed lookup, or a chatroom
/// without its id, is recorded as a missing chatroom ([`lookup_failed`]); one without a
/// broadcaster id is recorded as such; else the client, in the state the lookup left it,
/// subscribes to the chatroom as the adapter's transport identity, and on success the adapter
/// is connected to it with its backoff forgotten.
pub open spec fn kick_connect_outcome<C: KickChatClient>(a: KickAdapter<C>, b: KickAdapter<C>, r: Result<(), PlatformError>) -> bool {
    match a.channel_slug {
        None => b == a && r is Err && r->Err_0.platform == Platform::Kick && r->Err_0.message@
            == "Kick channel slug was not set"@,
        Some(slug) => exists|resolved: Result<KickChatroom, PlatformError>, c1: C|
            #[trigger] a.client.gives_chatroom(slug@, resolved, c1) && match resolved {
                Err(e) => r is Err && r->Err_0.platform == Platform::Kick && r->Err_0.message@ == e.message@
                    && lookup_failed(KickAdapter { client: c1, ..a }, b, slug@, e.message@),
                Ok(c) => if c.chatroom_id == 0 {
                    r is Err && r->Err_0.platform == Platform::Kick && r->Err_0.message@ == missing_chatroom_message(slug@)
                        && lookup_failed(KickAdapter { client: c1, ..a }, b, slug@, missing_chatroom_message(slug@))
                } else if c.broadcaster_user_id == 0 {
                    &&& r is Err
                    &&& r->Err_0.platform == Platform::Kick
                    &&& r->Err_0.message@ == missing_broadcaster_message(slug@)
                    &&& b == (KickAdapter { client: c1, last_error: b.last_error, ..a })
                    &&& b.last_error is Some
                    &&& b.last_error->0.kind == KickAdapterErrorKind::MissingBroadcaster
                    &&& b.last_error->0.message@ == missing_broadcaster_message(slug@)
                } else {
                    exists|sub: Result<(), PlatformError>|
                        #[trigger] c1.subscribes(c, transport_auth_spec(a.auth_state), sub, b.client) && match sub {
                            Err(e) => r == Err::<(), PlatformError>(e) && b == (KickAdapter { client: b.client, ..a }),
                            Ok(()) => r is Ok && b == (KickAdapter {
                                client: b.client,
                                chatroom: Some(c),
                                is_connected: true,
                                last_error: None,
                                reconnect_attempt: 0,
                                reconnect_due_at_ms: None,
                                ..a
                            }),
                        }
                },
            },
    }
}

/// `a` after a failed attempt at `now_ms`: the next one is due after the backoff delay of
/// its attempt count (saturating), and that count goes up by one (saturating).
pub open spec fn backed_off<C>(a: KickAdapter<C>, now_ms: u64) -> KickAdapter<C> {
    let due = now_ms + reconnect_delay_secs(a.reconnect_attempt) * 1000;
    KickAdapter {
        reconnect_due_at_ms: Some((if due > u64::MAX { u64::MAX as int } else { due }) as u64),
        reconnect_attempt: (if a.reconnect_attempt == u32::MAX {
            u32::MAX as int
        } else {
            a.reconnect_attempt + 1
        }) as u32,
        ..a
    }
}

/// Connection state of the Kick adapter around a chat client; times are milliseconds on a
/// monotonic clock.
pub struct KickAdapter<C> {
    pub client: C,
    pub channel_slug: Option<String>,
    pub chatroom: Option<KickChatroom>,
    pub is_connected: bool,
    pub should_reconnect: bool,
    pub reconnect_attempt: u32,
    pub reconnect_due_at_ms: Option<u64>,
    pub auth_state: KickAuthState,
    pub last_error: Option<KickAdapterError>,
    /// Avatar addresses already found, by `kick:<author id>`.
    pub avatar_cache: Vec<(String, String)>,
}

impl<C> KickAdapter<C> {
    /// A disconnected, anonymous adapter that will reconnect when a channel is set.
    pub fn new(client: C) -> (r: Self)
        ensures
            r.client == client,
            r.channel_slug is None,
            r.chatroom is None,
            !r.is_connected,
            r.should_reconnect,
            r.reconnect_attempt == 0,
            r.reconnect_due_at_ms is None,
            r.auth_state is Anonymous,
            r.last_error is None,
            r.avatar_cache@.len() == 0,
    {
        KickAdapter {
            client,
            channel_slug: None,
            chatroom: None,
            is_connected: false,
            should_reconnect: true,
            reconnect_attempt: 0,
            reconnect_due_at_ms: None,
            auth_state: KickAuthState::Anonymous,
            last_error: None,
            avatar_cache: Vec::new(),
        }
    }

    pub fn auth_state(&self) -> (r: &KickAuthState)
        ensures
            *r == self.auth_state,
    {
        &self.auth_state
    }

    pub fn chatroom(&self) -> (r: Option<&KickChatroom>)
        ensures
            match self.chatroom {
                Some(c) => r == Some(&c),
                None => r is None,
            },
    {
        match &self.chatroom {
            Some(c) => Some(c),
            None => None,
        }
    }

    pub fn last_error(&self) -> (r: Option<&KickAdapterError>)
        ensures
            match self.last_error {
                Some(e) => r == Some(&e),
                None => r is None,
            },
    {
        match &self.last_error {
            Some(e) => Some(e),
            None => None,
        }
    }

    pub fn client(&self) -> (r: &C)
        ensures
            *r == self.client,
    {
        &self.client
    }

    pub fn client_mut(&mut self) -> (r: &mut C)
        ensures
            *r == old(self).client,
            final(self).client == *final(r),
            final(self).channel_slug == old(self).channel_slug,
            final(self).chatroom == old(self).chatroom,
            final(self).is_connected == old(self).is_connected,
            final(self).should_reconnect == old(self).should_reconnect,
            final(self).reconnect_attempt == old(self).reconnect_attempt,
            final(self).reconnect_due_at_ms == old(self).reconnect_due_at_ms,
            final(self).auth_state == old(self).auth_state,
            final(self).last_error == old(self).last_error,
    {
        &mut self.client
    }

    /// Schedules the next connection attempt: at once (and forgetting earlier failures) when
    /// `immediate`, else after the backoff delay of the current attempt count.
    pub fn schedule_reconnect(&mut self, immediate: bool, now_ms: u64)
        ensures
            immediate ==> final(self).reconnect_due_at_ms == Some(now_ms) && final(self).reconnect_attempt
                == 0,
            !immediate ==> final(self).reconnect_due_at_ms == Some(
                (if now_ms + reconnect_delay_secs(old(self).reconnect_attempt) * 1000 > u64::MAX {
                    u64::MAX as int
                } else {
                    now_ms + reconnect_delay_secs(old(self).reconnect_attempt) * 1000
                }) as u64,
            ) && final(self).reconnect_attempt == (if old(self).reconnect_attempt == u32::MAX {
                u32::MAX as int
            } else {
                old(self).reconnect_attempt + 1
            }),
            final(self).is_connected == old(self).is_connected,
            final(self).channel_slug == old(self).channel_slug,
            final(self).should_reconnect == old(self).should_reconnect,
            final(self).auth_state == old(self).auth_state,
            final(self).chatroom == old(self).chatroom,
            final(self).last_error == old(self).last_error,
            final(self).avatar_cache == old(self).avatar_cache,
            final(self).client == old(self).client,
            !immediate ==> *final(self) == backed_off(*old(self), now_ms),
    {
        if immediate {
            self.reconnect_due_at_ms = Some(now_ms);
            self.reconnect_attempt = 0;
            return;
        }
        let delay = reconnect_delay_for_attempt(self.reconnect_attempt);
        self.reconnect_due_at_ms = Some(now_ms.saturating_add(delay * 1000));
        self.reconnect_attempt = self.reconnect_attempt.saturating_add(1);
    }

    /// Whether a reconnect may be attempted at `now_ms`.
    pub fn is_reconnect_due(&self, now_ms: u64) -> (r: bool)
        ensures
            r == match self.reconnect_due_at_ms {
                Some(due) => now_ms >= due,
                None => true,
            },
    {
        match self.reconnect_due_at_ms {
            Some(due) => now_ms >= due,
            None => true,
        }
    }

    /// Forgets failed attempts and any scheduled reconnect.
    pub fn reset_reconnect_state(&mut self)
        ensures
            final(self).reconnect_attempt == 0,
            final(self).reconnect_due_at_ms is None,
            final(self).is_connected == old(self).is_connected,
            final(self).chatroom == old(self).chatroom,
            *final(self) == (KickAdapter { reconnect_attempt: 0, reconnect_due_at_ms: None, ..*old(self) }),
    {
        self.reconnect_attempt = 0;
        self.reconnect_due_at_ms = None;
    }

    /// Records a failed chatroom lookup: drops the chatroom and marks the adapter disconnected.
    pub fn record_lookup_error(&mut self, channel_slug: &str, message: String) -> (r: KickAdapterError)
        ensures
            r.kind == KickAdapterErrorKind::MissingChatroom,
            r.channel_slug is Some && r.channel_slug->0@ == channel_slug@,
            r.message == message,
            r.recoverable,
            final(self).chatroom is None,
            !final(self).is_connected,
            final(self).last_error == Some(r),
            *final(self) == (KickAdapter { chatroom: None, is_connected: false, last_error: Some(r), ..*old(self) }),
    {
        let error = KickAdapterError::new(
            KickAdapterErrorKind::MissingChatroom,
            Some(owned(channel_slug)),
            message,
            true,
        );
        self.chatroom = None;
        self.is_connected = false;
        let copy = KickAdapterError {
            kind: error.kind,
            channel_slug: match &error.channel_slug {
                Some(s) => Some(s.clone()),
                None => None,
            },
            message: error.message.clone(),
            recoverable: error.recoverable,
        };
        self.last_error = Some(copy);
        error
    }

    /// The identity the transport connects with.
    pub fn transport_auth(&self) -> (r: KickTransportAuth)
        ensures
            r == transport_auth_spec(self.auth_state),
    {
        match &self.auth_state {
            KickAuthState::Anonymous => KickTransportAuth::Anonymous,
            KickAuthState::Authenticated {
                account_id,
                platform_user_id,
                username,
                display_name,
                access_token,
                ..
            } => KickTransportAuth::Authenticated {
                account_id: account_id.clone(),
                platform_user_id: platform_user_id.clone(),
                username: username.clone(),
                display_name: display_name.clone(),
                access_token: access_token.clone(),
            },
            KickAuthState::ReauthRequired { account_id, reason } => KickTransportAuth::ReauthRequired {
                account_id: account_id.clone(),
                reason: reason.clone(),
            },
        }
    }

    /// Refuses `action` unless the adapter is authenticated.
    pub fn require_authenticated(&self, action: &str) -> (r: Result<(), PlatformError>)
        ensures
            match kick_auth_refusal(self.auth_state, action@) {
                None => r is Ok,
                Some(m) => r is Err && r->Err_0.platform == Platform::Kick && r->Err_0.message@ == m,
            },
    {
        match &self.auth_state {
            KickAuthState::Authenticated { .. } => Ok(()),
            KickAuthState::ReauthRequired { reason, .. } => {
                let mut m = owned("Cannot ");
                push_str(&mut m, action);
                push_str(&mut m, "; Kick account requires reauth: ");
                push_str(&mut m, reason.as_str());
                Err(PlatformError::new(Platform::Kick, m))
            },
            KickAuthState::Anonymous => {
                let mut m = owned("Cannot ");
                push_str(&mut m, action);
                push_str(&mut m, " in anonymous Kick mode");
                Err(PlatformError::new(Platform::Kick, m))
            },
        }
    }
}

impl<C> KickAdapter<C> {
    /// The stream status request for a channel: its slug normalized, and the broadcaster id of
    /// the resolved chatroom, if any.
    pub fn stream_status_request(&self, channel_slug: &str) -> (r: KickStreamStatusRequest)
        ensures
            r.channel_slug@ == normalized_slug(channel_slug@),
            r.broadcaster_user_id == match self.chatroom {
                Some(c) => Some(c.broadcaster_user_id),
                None => None,
            },
    {
        KickStreamStatusRequest {
            channel_slug: normalize_channel_slug(channel_slug),
            broadcaster_user_id: match &self.chatroom {
                Some(c) => Some(c.broadcaster_user_id),
                None => None,
            },
        }
    }
}

impl<C: KickChatClient> KickAdapter<C> {
    /// Asks the client for the stream status of a channel, with the request that
    /// [`KickAdapter::stream_status_request`] builds (the normalized slug and the known
    /// broadcaster id); the client's answer is handed back as it is, and the adapter's own
    /// state stays as it was.
    pub fn stream_status(&mut self, channel_slug: &str) -> (r: Result<StreamStatus, PlatformError>)
        ensures
            final(self).channel_slug == old(self).channel_slug,
            final(self).chatroom == old(self).chatroom,
            final(self).is_connected == old(self).is_connected,
            final(self).should_reconnect == old(self).should_reconnect,
            final(self).reconnect_attempt == old(self).reconnect_attempt,
            final(self).reconnect_due_at_ms == old(self).reconnect_due_at_ms,
            final(self).auth_state == old(self).auth_state,
            final(self).last_error == old(self).last_error,
            old(self).client.gives_stream_status(
                normalized_slug(channel_slug@),
                match old(self).chatroom {
                    Some(c) => Some(c.broadcaster_user_id),
                    None => None,
                },
                r,
            ),
    {
        let request = self.stream_status_request(channel_slug);
        self.client.stream_status(request)
    }

    /// Leaves the chat for good: no more reconnects; unless the client refuses to disconnect,
    /// the chatroom is dropped, the adapter counts as disconnected and the backoff is
    /// forgotten.
    pub fn disconnect(&mut self) -> (r: Result<(), PlatformError>)
        ensures
            !final(self).should_reconnect,
            final(self).channel_slug == old(self).channel_slug,
            final(self).auth_state == old(self).auth_state,
            exists|answer: Result<(), PlatformError>|
                #[trigger] old(self).client.gives_disconnect(answer, final(self).client) && match answer {
                    Ok(()) => r is Ok && !final(self).is_connected && final(self).chatroom is None
                        && final(self).reconnect_attempt == 0 && final(self).reconnect_due_at_ms is None,
                    Err(e) => r == Err::<(), PlatformError>(e) && final(self).is_connected == old(self).is_connected
                        && final(self).chatroom == old(self).chatroom,
                },
    {
        self.should_reconnect = false;
        let answer = self.client.disconnect();
        let ghost a = answer;
        assert(old(self).client.gives_disconnect(a, self.client));
        match answer {
            Ok(()) => {},
            Err(e) => return Err(e),
        }
        self.chatroom = None;
        self.is_connected = false;
        self.reset_reconnect_state();
        assert(old(self).client.gives_disconnect(a, self.client));
        Ok(())
    }

    /// One connection attempt to the configured channel: resolve its chatroom, check it, and
    /// subscribe.
    pub fn connect_once(&mut self) -> (r: Result<(), PlatformError>)
        ensures
            old(self).channel_slug is None ==> r is Err && r->Err_0.message@
                == "Kick channel slug was not set"@,
            r is Ok ==> final(self).is_connected && final(self).chatroom is Some && final(self).last_error is None
                && final(self).reconnect_attempt == 0 && final(self).reconnect_due_at_ms is None,
            r is Ok ==> final(self).chatroom->0.chatroom_id != 0 && final(self).chatroom->0.broadcaster_user_id
                != 0,
            r is Err ==> r->Err_0.platform == Platform::Kick || final(self).last_error == old(self).last_error,
            final(self).channel_slug == old(self).channel_slug,
            final(self).auth_state == old(self).auth_state,
            final(self).should_reconnect == old(self).should_reconnect,
            final(self).avatar_cache == old(self).avatar_cache,
            r is Err ==> (final(self).is_connected ==> old(self).is_connected),
            kick_connect_outcome(*old(self), *final(self), r),
    {
        let channel_slug = match &self.channel_slug {
            Some(s) => s.clone(),
            None => {
                return Err(PlatformError::new(Platform::Kick, owned("Kick channel slug was not set")));
            },
        };
        let resolved = self.client.resolve_chatroom(channel_slug.as_str());
        let ghost answer = resolved;
        let ghost c1 = self.client;
        assert(old(self).client.gives_chatroom(old(self).channel_slug->0@, answer, c1));
        let chatroom = match resolved {
            Ok(c) => c,
            Err(error) => {
                let e = self.record_lookup_error(channel_slug.as_str(), error.message);
                return Err(e.platform_error());
            },
        };
        match check_resolved_chatroom(channel_slug.as_str(), &chatroom) {
            Ok(()) => {},
            Err(e) => {
                if e.kind == KickAdapterErrorKind::MissingChatroom {
                    let recorded = self.record_lookup_error(channel_slug.as_str(), e.message);
                    return Err(recorded.platform_error());
                } else {
                    let err = e.platform_error();
                    self.last_error = Some(e);
                    return Err(err);
                }
            },
        }
        let auth = self.transport_auth();
        let sub = self.client.subscribe_chatroom(&chatroom, &auth);
        let ghost sub_answer = sub;
        let ghost c2 = self.client;
        assert(c1.subscribes(chatroom, transport_auth_spec(old(self).auth_state), sub_answer, c2));
        match sub {
            Ok(()) => {},
            Err(e) => return Err(e),
        }
        self.chatroom = Some(chatroom);
        self.is_connected = true;
        self.last_error = None;
        self.reset_reconnect_state();
        Ok(())
    }
}


/// The Kick OAuth provider, sending the user back to `redirect_uri`.
#[derive(Debug, Clone, PartialEq, Eq)]
pub struct KickAuthProvider {
    pub redirect_uri: String,
}

impl KickAuthProvider {
    /// The provider that redirects to `redirect_uri`.
    pub fn new(redirect_uri: String) -> (r: Self)
        ensures
            r.redirect_uri == redirect_uri,
    {
        KickAuthProvider { redirect_uri }
    }
}

/// The Kick authorization URL for a PKCE challenge and state.
pub open spec fn kickauthprovider_url(redirect_uri: Seq<char>, code_challenge: Seq<char>, state: Seq<char>) -> Seq<char> {
    "https://id.kick.com/oauth/authorize?response_type=code&client_id=twirchat-desktop&redirect_uri="@ + redirect_uri + "&scope=chat%3Awrite+user%3Aread&code_challenge="@ + code_challenge
        + "&code_challenge_method=S256&state="@ + state
}

impl AuthProvider for KickAuthProvider {
    open spec fn provider_platform(&self) -> Platform {
        Platform::Kick
    }

    open spec fn gives_authorization_url(&self, code_challenge: Seq<char>, state: Seq<char>, r: Result<Seq<char>, AuthError>) -> bool {
        r == Ok::<Seq<char>, AuthError>(kickauthprovider_url(self.redirect_uri@, code_challenge, state))
    }

    open spec fn gives_exchange(&self, code: Seq<char>, code_verifier: Seq<char>, r: Result<AuthenticatedAccount, AuthError>) -> bool {
        r matches Err(AuthError::Provider { platform, message }) && platform == Platform::Kick && message@ == "native Kick adapter does not perform network OAuth exchange"@
    }

    fn platform(&self) -> (r: Platform)
        ensures
            r == Platform::Kick,
    {
        Platform::Kick
    }

    fn display_name(&self) -> (r: &'static str)
        ensures
            r@ == "Kick"@,
    {
        "Kick"
    }

    fn redirect_uri(&self) -> (r: &str)
        ensures
            r@ == self.redirect_uri@,
    {
        self.redirect_uri.as_str()
    }

    fn build_authorization_url(&self, code_challenge: &str, state: &str) -> (r: Result<String, AuthError>)
        ensures
            r matches Ok(u) && u@ == kickauthprovider_url(self.redirect_uri@, code_challenge@, state@),
    {
        let mut u = owned("https://id.kick.com/oauth/authorize?response_type=code&client_id=twirchat-desktop&redirect_uri=");
        push_str(&mut u, self.redirect_uri.as_str());
        push_str(&mut u, "&scope=chat%3Awrite+user%3Aread&code_challenge=");
        push_str(&mut u, code_challenge);
        push_str(&mut u, "&code_challenge_method=S256&state=");
        push_str(&mut u, state);
        Ok(u)
    }

    fn exchange_callback(&self, code: &str, code_verifier: &str) -> (r: Result<AuthenticatedAccount, AuthError>)
        ensures
            r matches Err(AuthError::Provider { platform, message }) && platform == Platform::Kick
                && message@ == "native Kick adapter does not perform network OAuth exchange"@,
    {
        Err(AuthError::Provider { platform: Platform::Kick, message: owned("native Kick adapter does not perform network OAuth exchange") })
    }
}

} // verus!
