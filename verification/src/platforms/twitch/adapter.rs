//! Twitch chat types, auth state, and the adapter that drives a Twitch chat client.
use crate::platforms::PlatformError;
use crate::protocol::types::{
    insert_json_number, insert_json_text, json_fields, new_json_object, ChatReply, ChatReplyView, EventUser, JsonField,
    NormalizedEvent, NormalizedEventType, Platform, PlatformStatusMode, StreamStatus,
};
use crate::text::{owned, push_str, to_lowercase, trim_start_char, trim_start_matches, unicode_lowercase};
use std::collections::BTreeMap;
use crate::auth::{AuthError, AuthProvider, AuthenticatedAccount};
use vstd::prelude::*;

verus! {

/// Seconds before expiry at which a Twitch token is treated as expired.
pub const TWITCH_TOKEN_REFRESH_WINDOW_SECONDS: u64 = 300;

/// Whether the adapter may act as a Twitch user.
#[derive(Debug, Clone, PartialEq, Eq)]
pub enum TwitchAuthState {
    Anonymous,
    Authenticated {
        account_id: String,
        platform_user_id: String,
        login: String,
        display_name: String,
        avatar_url: Option<String>,
        access_token: String,
    },
    ReauthRequired { account_id: String, reason: String },
}

impl TwitchAuthState {
    pub fn mode(&self) -> (r: PlatformStatusMode)
        ensures
            r == (if self is Authenticated {
                PlatformStatusMode::Authenticated
            } else {
                PlatformStatusMode::Anonymous
            }),
    {
        match self {
            TwitchAuthState::Authenticated { .. } => PlatformStatusMode::Authenticated,
            _ => PlatformStatusMode::Anonymous,
        }
    }

    pub fn is_authenticated(&self) -> (r: bool)
        ensures
            r == self is Authenticated,
    {
        match self {
            TwitchAuthState::Authenticated { .. } => true,
            _ => false,
        }
    }
}

/// An emote occurrence in a chat message, with inclusive character offsets.
#[derive(Debug, Clone, PartialEq, Eq)]
pub struct TwitchEmoteSpan {
    pub id: String,
    pub name: String,
    pub start: u32,
    pub end: u32,
}

/// A chat message read from Twitch IRC.
#[derive(Debug, Clone, PartialEq)]
pub struct TwitchChatMessage {
    pub id: String,
    pub channel: String,
    pub user_id: String,
    pub username: String,
    pub display_name: String,
    pub color: Option<String>,
    pub avatar_url: Option<String>,
    pub text: String,
    pub timestamp: String,
    pub badges: Vec<(String, String)>,
    pub emotes: Vec<TwitchEmoteSpan>,
    pub is_action: bool,
    pub reply: Option<ChatReply>,
    pub bits: Option<u64>,
}

/// An emote span as `(id, name, start, end)`.
pub type EmoteSpanView = (Seq<char>, Seq<char>, u32, u32);

impl View for TwitchEmoteSpan {
    type V = EmoteSpanView;

    open spec fn view(&self) -> EmoteSpanView {
        (self.id@, self.name@, self.start, self.end)
    }
}

/// The content of a [`TwitchChatMessage`].
pub struct TwitchChatMessageView {
    pub id: Seq<char>,
    pub channel: Seq<char>,
    pub user_id: Seq<char>,
    pub username: Seq<char>,
    pub display_name: Seq<char>,
    pub color: Option<Seq<char>>,
    pub avatar_url: Option<Seq<char>>,
    pub text: Seq<char>,
    pub timestamp: Seq<char>,
    pub badges: Seq<(Seq<char>, Seq<char>)>,
    pub emotes: Seq<EmoteSpanView>,
    pub is_action: bool,
    pub reply: Option<ChatReplyView>,
    pub bits: Option<u64>,
}

impl View for TwitchChatMessage {
    type V = TwitchChatMessageView;

    open spec fn view(&self) -> TwitchChatMessageView {
        TwitchChatMessageView {
            id: self.id@,
            channel: self.channel@,
            user_id: self.user_id@,
            username: self.username@,
            display_name: self.display_name@,
            color: match self.color {
                Some(c) => Some(c@),
                None => None,
            },
            avatar_url: match self.avatar_url {
                Some(c) => Some(c@),
                None => None,
            },
            text: self.text@,
            timestamp: self.timestamp@,
            badges: Seq::new(self.badges@.len(), |i: int| (self.badges@[i].0@, self.badges@[i].1@)),
            emotes: Seq::new(self.emotes@.len(), |i: int| self.emotes@[i]@),
            is_action: self.is_action,
            reply: match self.reply {
                Some(r) => Some(r@),
                None => None,
            },
            bits: self.bits,
        }
    }
}

/// A subscription or raid notice read from Twitch IRC.
#[derive(Debug, Clone, PartialEq, Eq)]
pub enum TwitchChatEvent {
    Sub {
        id: String,
        channel_id: String,
        user_id: String,
        display_name: String,
        months: u64,
        system_message: Option<String>,
    },
    Resub {
        id: String,
        channel_id: String,
        user_id: String,
        display_name: String,
        months: u64,
        system_message: Option<String>,
    },
    GiftSub {
        id: String,
        channel_id: String,
        user_id: String,
        display_name: String,
        recipient_display_name: String,
        months: u64,
        system_message: Option<String>,
    },
    Raid {
        id: String,
        channel_id: String,
        user_id: String,
        display_name: String,
        viewer_count: u64,
        system_message: Option<String>,
    },
}

/// The content of a [`TwitchChatEvent`]: each variant keeps its fields as text.
pub enum TwitchChatEventView {
    Sub {
        id: Seq<char>,
        channel_id: Seq<char>,
        user_id: Seq<char>,
        display_name: Seq<char>,
        months: u64,
        system_message: Option<Seq<char>>,
    },
    Resub {
        id: Seq<char>,
        channel_id: Seq<char>,
        user_id: Seq<char>,
        display_name: Seq<char>,
        months: u64,
        system_message: Option<Seq<char>>,
    },
    GiftSub {
        id: Seq<char>,
        channel_id: Seq<char>,
        user_id: Seq<char>,
        display_name: Seq<char>,
        recipient_display_name: Seq<char>,
        months: u64,
        system_message: Option<Seq<char>>,
    },
    Raid {
        id: Seq<char>,
        channel_id: Seq<char>,
        user_id: Seq<char>,
        display_name: Seq<char>,
        viewer_count: u64,
        system_message: Option<Seq<char>>,
    },
}

/// The view of an optional string.
pub open spec fn opt_str(o: Option<String>) -> Option<Seq<char>> {
    match o {
        Some(s) => Some(s@),
        None => None,
    }
}

impl View for TwitchChatEvent {
    type V = TwitchChatEventView;

    open spec fn view(&self) -> TwitchChatEventView {
        match self {
            TwitchChatEvent::Sub { id, channel_id, user_id, display_name, months, system_message } =>
                TwitchChatEventView::Sub {
                id: id@,
                channel_id: channel_id@,
                user_id: user_id@,
                display_name: display_name@,
                months: *months,
                system_message: opt_str(*system_message),
            },
            TwitchChatEvent::Resub { id, channel_id, user_id, display_name, months, system_message } =>
                TwitchChatEventView::Resub {
                id: id@,
                channel_id: channel_id@,
                user_id: user_id@,
                display_name: display_name@,
                months: *months,
                system_message: opt_str(*system_message),
            },
            TwitchChatEvent::GiftSub {
                id,
                channel_id,
                user_id,
                display_name,
                recipient_display_name,
                months,
                system_message,
            } => TwitchChatEventView::GiftSub {
                id: id@,
                channel_id: channel_id@,
                user_id: user_id@,
                display_name: display_name@,
                recipient_display_name: recipient_display_name@,
                months: *months,
                system_message: opt_str(*system_message),
            },
            TwitchChatEvent::Raid {
                id,
                channel_id,
                user_id,
                display_name,
                viewer_count,
                system_message,
            } => TwitchChatEventView::Raid {
                id: id@,
                channel_id: channel_id@,
                user_id: user_id@,
                display_name: display_name@,
                viewer_count: *viewer_count,
                system_message: opt_str(*system_message),
            },
        }
    }
}

#[derive(Debug, Clone, PartialEq, Eq)]
pub struct TwitchCategory {
    pub id: String,
    pub name: String,
}

#[derive(Debug, Clone, PartialEq, Eq)]
pub struct StreamUpdate {
    pub channel_id: String,
    pub title: Option<String>,
    pub category_id: Option<String>,
}

#[derive(Debug, Clone, PartialEq, Eq)]
pub struct StreamUpdateOutcome {
    pub channel_id: String,
    pub updated_title: Option<String>,
    pub updated_category_id: Option<String>,
}

/// A token expiring at `expires_at` (seconds) must be renewed at time `now`.
pub open spec fn token_expiring(expires_at: Option<u64>, now: u64, window: u64) -> bool {
    match expires_at {
        Some(t) => t <= (if now + window > u64::MAX { u64::MAX as int } else { now + window }),
        None => false,
    }
}

/// Whether a Twitch token with the given expiry needs reauthentication at time `now`.
pub fn token_requires_reauth(expires_at: Option<u64>, now: u64) -> (r: bool)
    ensures
        r == token_expiring(expires_at, now, TWITCH_TOKEN_REFRESH_WINDOW_SECONDS),
{
    match expires_at {
        Some(t) => t <= now.saturating_add(TWITCH_TOKEN_REFRESH_WINDOW_SECONDS),
        None => false,
    }
}

/// The reason reauthentication is required, if it is.
pub fn reauth_reason(auth_state: &TwitchAuthState) -> (r: Option<String>)
    ensures
        match auth_state {
            TwitchAuthState::ReauthRequired { reason, .. } => r is Some && r->0@ == reason@,
            _ => r is None,
        },
{
    match auth_state {
        TwitchAuthState::ReauthRequired { reason, .. } => Some(reason.clone()),
        _ => None,
    }
}

/// A channel name without leading `#`, lowercased.
pub fn normalize_channel(channel: &str) -> (r: String)
    ensures
        r@ == unicode_lowercase(trim_start_char(channel@, '#')),
{
    let s = trim_start_matches(channel, '#');
    to_lowercase(s.as_str())
}

/// The CDN address of a Twitch emote image.
pub fn twitch_emote_url(id: &str) -> (r: String)
    ensures
        r@ == "https://static-cdn.jtvnw.net/emoticons/v2/"@ + id@ + "/default/dark/1.0"@,
{
    let mut r = owned("https://static-cdn.jtvnw.net/emoticons/v2/");
    push_str(&mut r, id);
    push_str(&mut r, "/default/dark/1.0");
    r
}

/// The error for an action that needs an authenticated Twitch account, if it is refused.
pub open spec fn auth_refusal(auth_state: TwitchAuthState, action: Seq<char>) -> Option<Seq<char>> {
    match auth_state {
        TwitchAuthState::Authenticated { .. } => None,
        TwitchAuthState::ReauthRequired { reason, .. } => Some(
            "Cannot "@ + action + "; Twitch account requires reauth: "@ + reason@,
        ),
        TwitchAuthState::Anonymous => Some("Cannot "@ + action + " in anonymous Twitch mode"@),
    }
}

/// Refuses `action` unless the auth state is authenticated.
pub fn require_authenticated(auth_state: &TwitchAuthState, action: &str) -> (r: Result<(), PlatformError>)
    ensures
        match auth_refusal(*auth_state, action@) {
            None => r is Ok,
            Some(m) => r is Err && r->Err_0.platform == Platform::Twitch && r->Err_0.message@ == m,
        },
{
    match auth_state {
        TwitchAuthState::Authenticated { .. } => Ok(()),
        TwitchAuthState::ReauthRequired { reason, .. } => {
            let mut m = owned("Cannot ");
            push_str(&mut m, action);
            push_str(&mut m, "; Twitch account requires reauth: ");
            push_str(&mut m, reason.as_str());
            Err(PlatformError::new(Platform::Twitch, m))
        },
        TwitchAuthState::Anonymous => {
            let mut m = owned("Cannot ");
            push_str(&mut m, action);
            push_str(&mut m, " in anonymous Twitch mode");
            Err(PlatformError::new(Platform::Twitch, m))
        },
    }
}


/// The Twitch OAuth provider, sending the user back to `redirect_uri`.
#[derive(Debug, Clone, PartialEq, Eq)]
pub struct TwitchAuthProvider {
    pub redirect_uri: String,
}

impl TwitchAuthProvider {
    /// The provider that redirects to `redirect_uri`.
    pub fn new(redirect_uri: String) -> (r: Self)
        ensures
            r.redirect_uri == redirect_uri,
    {
        TwitchAuthProvider { redirect_uri }
    }
}

/// The Twitch authorization URL for a PKCE challenge and state.
pub open spec fn twitchauthprovider_url(redirect_uri: Seq<char>, code_challenge: Seq<char>, state: Seq<char>) -> Seq<char> {
    "https://id.twitch.tv/oauth2/authorize?response_type=code&client_id=twirchat-desktop&redirect_uri="@ + redirect_uri + "&scope=chat%3Aread+chat%3Aedit&code_challenge="@ + code_challenge
        + "&code_challenge_method=S256&state="@ + state
}

impl AuthProvider for TwitchAuthProvider {
    open spec fn provider_platform(&self) -> Platform {
        Platform::Twitch
    }

    open spec fn gives_authorization_url(&self, code_challenge: Seq<char>, state: Seq<char>, r: Result<Seq<char>, AuthError>) -> bool {
        r == Ok::<Seq<char>, AuthError>(twitchauthprovider_url(self.redirect_uri@, code_challenge, state))
    }

    open spec fn gives_exchange(&self, code: Seq<char>, code_verifier: Seq<char>, r: Result<AuthenticatedAccount, AuthError>) -> bool {
        r matches Err(AuthError::Provider { platform, message }) && platform == Platform::Twitch && message@ == "native Twitch adapter does not perform network OAuth exchange"@
    }

    fn platform(&self) -> (r: Platform)
        ensures
            r == Platform::Twitch,
    {
        Platform::Twitch
    }

    fn display_name(&self) -> (r: &'static str)
        ensures
            r@ == "Twitch"@,
    {
        "Twitch"
    }

    fn redirect_uri(&self) -> (r: &str)
        ensures
            r@ == self.redirect_uri@,
    {
        self.redirect_uri.as_str()
    }

    fn build_authorization_url(&self, code_challenge: &str, state: &str) -> (r: Result<String, AuthError>)
        ensures
            r matches Ok(u) && u@ == twitchauthprovider_url(self.redirect_uri@, code_challenge@, state@),
    {
        let mut u = owned("https://id.twitch.tv/oauth2/authorize?response_type=code&client_id=twirchat-desktop&redirect_uri=");
        push_str(&mut u, self.redirect_uri.as_str());
        push_str(&mut u, "&scope=chat%3Aread+chat%3Aedit&code_challenge=");
        push_str(&mut u, code_challenge);
        push_str(&mut u, "&code_challenge_method=S256&state=");
        push_str(&mut u, state);
        Ok(u)
    }

    fn exchange_callback(&self, code: &str, code_verifier: &str) -> (r: Result<AuthenticatedAccount, AuthError>)
        ensures
            r matches Err(AuthError::Provider { platform, message }) && platform == Platform::Twitch
                && message@ == "native Twitch adapter does not perform network OAuth exchange"@,
    {
        Err(AuthError::Provider { platform: Platform::Twitch, message: owned("native Twitch adapter does not perform network OAuth exchange") })
    }
}


/// A Twitch chat connection and the Twitch API calls the adapter needs.
pub trait TwitchChatClient: Sized {
    fn connect(&mut self, channel: &str, auth: &TwitchAuthState) -> Result<(), PlatformError>;

    /// `r` is an answer the client may give when asked to leave the chat, and `next` what
    /// it may then be.
    spec fn gives_disconnect(&self, r: Result<(), PlatformError>, next: Self) -> bool;

    fn disconnect(&mut self) -> (r: Result<(), PlatformError>)
        ensures
            old(self).gives_disconnect(r, *final(self)),
    ;

    fn send_message(&mut self, channel_id: &str, text: &str, reply_to_message_id: Option<&str>) -> Result<
        String,
        PlatformError,
    >;

    /// `r` is an answer the client may give when asked for the badge images of `channel`.
    spec fn gives_badges(&self, channel: Seq<char>, r: Result<Vec<(String, String)>, PlatformError>) -> bool;

    /// Badge image addresses by `set/version`.
    fn fetch_badges(&mut self, channel: &str) -> (r: Result<Vec<(String, String)>, PlatformError>)
        ensures
            old(self).gives_badges(channel@, r),
    ;

    /// `r` is an answer the client may give when asked for the chat messages it has received, and `next`
    /// what it may then be.
    spec fn drains_messages(&self, r: Result<Vec<TwitchChatMessage>, PlatformError>, next: Self) -> bool;

    fn drain_messages(&mut self) -> (r: Result<Vec<TwitchChatMessage>, PlatformError>)
        ensures
            old(self).drains_messages(r, *final(self)),
    ;

    /// `r` is an answer the client may give when asked for the events it has received, and `next`
    /// what it may then be.
    spec fn drains_events(&self, r: Result<Vec<TwitchChatEvent>, PlatformError>, next: Self) -> bool;

    fn drain_events(&mut self) -> (r: Result<Vec<TwitchChatEvent>, PlatformError>)
        ensures
            old(self).drains_events(r, *final(self)),
    ;

    /// `r` is an answer the client may give when asked for the categories matching `query`.
    spec fn gives_categories(&self, query: Seq<char>, r: Result<Vec<TwitchCategory>, PlatformError>) -> bool;

    fn search_categories(&mut self, query: &str) -> (r: Result<Vec<TwitchCategory>, PlatformError>)
        ensures
            old(self).gives_categories(query@, r),
    ;

    /// `r` is an answer the client may give when asked to apply `update` to the stream.
    spec fn gives_stream_update(&self, update: StreamUpdate, r: Result<StreamUpdateOutcome, PlatformError>) -> bool;

    fn update_stream(&mut self, update: &StreamUpdate) -> (r: Result<StreamUpdateOutcome, PlatformError>)
        ensures
            old(self).gives_stream_update(*update, r),
    ;

    /// `r` is an answer the client may give when asked for the live status of `channel_id`.
    spec fn gives_twitch_stream_status(&self, channel_id: Seq<char>, r: Result<StreamStatus, PlatformError>) -> bool;

    fn stream_status(&mut self, channel_id: &str) -> (r: Result<StreamStatus, PlatformError>)
        ensures
            old(self).gives_twitch_stream_status(channel_id@, r),
    ;
}

/// `fields` with `key` set to the string `value` when there is one.
pub open spec fn with_text(fields: Map<Seq<char>, JsonField>, key: Seq<char>, value: Option<Seq<char>>) -> Map<
    Seq<char>,
    JsonField,
> {
    match value {
        Some(v) => fields.insert(key, JsonField::Text(v)),
        None => fields,
    }
}

/// The JSON data of a Twitch subscription event: the channel, the months, and the system
/// message and gift recipient when there are any.
pub open spec fn twitch_sub_fields(
    channel_id: Seq<char>,
    months: u64,
    system_message: Option<Seq<char>>,
    recipient_display_name: Option<Seq<char>>,
) -> Map<Seq<char>, JsonField> {
    with_text(
        with_text(
            Map::empty().insert("channelId"@, JsonField::Text(channel_id)).insert("months"@, JsonField::Number(months)),
            "systemMsg"@,
            system_message,
        ),
        "recipientDisplayName"@,
        recipient_display_name,
    )
}

/// The JSON data of a Twitch raid: the channel, the viewer count and the system message when
/// there is one.
pub open spec fn twitch_raid_fields(channel_id: Seq<char>, viewer_count: u64, system_message: Option<Seq<char>>) -> Map<
    Seq<char>,
    JsonField,
> {
    with_text(
        Map::empty().insert("channelId"@, JsonField::Text(channel_id)).insert(
            "viewerCount"@,
            JsonField::Number(viewer_count),
        ),
        "systemMsg"@,
        system_message,
    )
}

/// The parts every normalized Twitch event shares: the platform, the time it is stamped
/// with, and no avatar for its user.
pub open spec fn twitch_event_frame(r: NormalizedEvent, timestamp: Seq<char>) -> bool {
    r.platform == Platform::Twitch && r.timestamp@ == timestamp && r.user.avatar_url is None
}

/// A Twitch event in the form shared by every platform, per variant of the event.
pub open spec fn twitch_event_normalized(event: TwitchChatEventView, r: NormalizedEvent) -> bool {
    match event {
        TwitchChatEventView::Sub { id, channel_id, user_id, display_name, months, system_message } => r.id@ == id
            && r.event_type == NormalizedEventType::Sub && r.user.id@ == user_id && r.user.display_name@
            == display_name && json_fields(r.data) == twitch_sub_fields(channel_id, months, system_message, None),
        TwitchChatEventView::Resub { id, channel_id, user_id, display_name, months, system_message } => r.id@ == id
            && r.event_type == NormalizedEventType::Resub && r.user.id@ == user_id && r.user.display_name@
            == display_name && json_fields(r.data) == twitch_sub_fields(channel_id, months, system_message, None),
        TwitchChatEventView::GiftSub {
            id,
            channel_id,
            user_id,
            display_name,
            recipient_display_name,
            months,
            system_message,
        } => r.id@ == id && r.event_type == NormalizedEventType::GiftSub && r.user.id@ == user_id
            && r.user.display_name@ == display_name && json_fields(r.data) == twitch_sub_fields(
            channel_id,
            months,
            system_message,
            Some(recipient_display_name),
        ),
        TwitchChatEventView::Raid { id, channel_id, user_id, display_name, viewer_count, system_message } => r.id@
            == id && r.event_type == NormalizedEventType::Raid && r.user.id@ == user_id && r.user.display_name@
            == display_name && json_fields(r.data) == twitch_raid_fields(channel_id, viewer_count, system_message),
    }
}

/// Sets `key` of a JSON object to `value` when there is one.
fn insert_optional_text(
    object: &mut serde_json::Map<String, serde_json::Value>,
    key: &str,
    value: Option<String>,
)
    ensures
        json_fields(*final(object)) == with_text(json_fields(*old(object)), key@, opt_str(value)),
{
    match value {
        Some(v) => insert_json_text(object, key, v),
        None => {},
    }
}

/// A Twitch subscription, resubscription or gift in the form shared by every platform.
fn subscription_event(
    id: String,
    event_type: NormalizedEventType,
    channel_id: String,
    user_id: String,
    display_name: String,
    months: u64,
    system_message: Option<String>,
    recipient_display_name: Option<String>,
    timestamp: String,
) -> (r: NormalizedEvent)
    ensures
        r.id == id,
        r.platform == Platform::Twitch,
        r.event_type == event_type,
        r.user.id == user_id,
        r.user.display_name == display_name,
        r.user.avatar_url is None,
        r.timestamp == timestamp,
        json_fields(r.data) == twitch_sub_fields(
            channel_id@,
            months,
            opt_str(system_message),
            opt_str(recipient_display_name),
        ),
{
    let ghost channel = channel_id@;
    let mut data = new_json_object();
    insert_json_text(&mut data, "channelId", channel_id);
    insert_json_number(&mut data, "months", months);
    insert_optional_text(&mut data, "systemMsg", system_message);
    insert_optional_text(&mut data, "recipientDisplayName", recipient_display_name);
    NormalizedEvent {
        id,
        platform: Platform::Twitch,
        event_type,
        user: EventUser { id: user_id, display_name, avatar_url: None },
        data,
        timestamp,
    }
}

/// A Twitch subscription, gift or raid in the form shared by every platform, stamped with
/// `timestamp`. Its data holds the channel, the months (or the raid's viewer count), and the
/// system message and gift recipient when there are any.
pub fn normalize_twitch_event(event: TwitchChatEvent, timestamp: String) -> (r: NormalizedEvent)
    ensures
        twitch_event_frame(r, timestamp@),
        twitch_event_normalized(event@, r),
{
    match event {
        TwitchChatEvent::Sub { id, channel_id, user_id, display_name, months, system_message } => subscription_event(
            id,
            NormalizedEventType::Sub,
            channel_id,
            user_id,
            display_name,
            months,
            system_message,
            None,
            timestamp,
        ),
        TwitchChatEvent::Resub { id, channel_id, user_id, display_name, months, system_message } =>
            subscription_event(
            id,
            NormalizedEventType::Resub,
            channel_id,
            user_id,
            display_name,
            months,
            system_message,
            None,
            timestamp,
        ),
        TwitchChatEvent::GiftSub {
            id,
            channel_id,
            user_id,
            display_name,
            recipient_display_name,
            months,
            system_message,
        } => subscription_event(
            id,
            NormalizedEventType::GiftSub,
            channel_id,
            user_id,
            display_name,
            months,
            system_message,
            Some(recipient_display_name),
            timestamp,
        ),
        TwitchChatEvent::Raid { id, channel_id, user_id, display_name, viewer_count, system_message } => {
            let mut data = new_json_object();
            insert_json_text(&mut data, "channelId", channel_id);
            insert_json_number(&mut data, "viewerCount", viewer_count);
            insert_optional_text(&mut data, "systemMsg", system_message);
            NormalizedEvent {
                id,
                platform: Platform::Twitch,
                event_type: NormalizedEventType::Raid,
                user: EventUser { id: user_id, display_name, avatar_url: None },
                data,
                timestamp,
            }
        },
    }
}

/// The name of the joined channel; empty when none is joined.
pub open spec fn joined_channel(channel_name: Option<String>) -> Seq<char> {
    match channel_name {
        Some(c) => c@,
        None => Seq::empty(),
    }
}

/// Drives a Twitch chat client: the joined channel, the auth state and the badge images.
pub struct TwitchAdapter<C> {
    pub client: C,
    pub auth_provider: Option<TwitchAuthProvider>,
    pub channel_name: Option<String>,
    pub is_connected: bool,
    pub auth_state: TwitchAuthState,
    pub badge_cache: Vec<(String, String)>,
}

impl<C> TwitchAdapter<C> {
    /// A disconnected, anonymous adapter with no badge images.
    pub fn new(client: C) -> (r: Self)
        ensures
            r.client == client,
            r.channel_name is None,
            !r.is_connected,
            r.auth_state is Anonymous,
            r.badge_cache@.len() == 0,
    {
        TwitchAdapter {
            client,
            auth_provider: None,
            channel_name: None,
            is_connected: false,
            auth_state: TwitchAuthState::Anonymous,
            badge_cache: Vec::new(),
        }
    }

    /// The current auth state.
    pub fn auth_state(&self) -> (r: &TwitchAuthState)
        ensures
            *r == self.auth_state,
    {
        &self.auth_state
    }

    /// Badge image addresses by `set/version`.
    pub fn badge_cache(&self) -> (r: &Vec<(String, String)>)
        ensures
            r@ == self.badge_cache@,
    {
        &self.badge_cache
    }

    /// The chat client.
    pub fn client(&self) -> (r: &C)
        ensures
            *r == self.client,
    {
        &self.client
    }

    /// The chat client, to drive it directly.
    pub fn client_mut(&mut self) -> (r: &mut C)
        ensures
            *r == old(self).client,
            final(self).client == *final(r),
            final(self).channel_name == old(self).channel_name,
            final(self).is_connected == old(self).is_connected,
            final(self).auth_state == old(self).auth_state,
            final(self).badge_cache@ == old(self).badge_cache@,
    {
        &mut self.client
    }
}

impl<C> TwitchAdapter<C> {
    /// Takes the client's answer to a badge fetch: the badge images it gave replace the cached
    /// ones; an error is handed on and the cache stays as it was.
    pub fn apply_fetched_badges(&mut self, fetched: Result<Vec<(String, String)>, PlatformError>) -> (r: Result<
        (),
        PlatformError,
    >)
        ensures
            final(self).client == old(self).client,
            final(self).channel_name == old(self).channel_name,
            final(self).is_connected == old(self).is_connected,
            final(self).auth_state == old(self).auth_state,
            match fetched {
                Ok(b) => r is Ok && final(self).badge_cache == b,
                Err(e) => r == Err::<(), PlatformError>(e) && final(self).badge_cache == old(self).badge_cache,
            },
    {
        match fetched {
            Ok(badges) => {
                self.badge_cache = badges;
                Ok(())
            },
            Err(e) => Err(e),
        }
    }
}

impl<C: TwitchChatClient> TwitchAdapter<C> {
    /// Replaces the badge images with those the client fetches for the joined channel (the
    /// empty name when none is joined); on failure they stay as they were
    /// ([`TwitchAdapter::apply_fetched_badges`]).
    pub fn refresh_badges(&mut self) -> (r: Result<(), PlatformError>)
        ensures
            final(self).channel_name == old(self).channel_name,
            final(self).is_connected == old(self).is_connected,
            final(self).auth_state == old(self).auth_state,
            r is Err ==> final(self).badge_cache@ == old(self).badge_cache@,
            exists|fetched: Result<Vec<(String, String)>, PlatformError>|
                #[trigger] old(self).client.gives_badges(joined_channel(old(self).channel_name), fetched) && match fetched {
                    Ok(b) => r is Ok && final(self).badge_cache == b,
                    Err(e) => r == Err::<(), PlatformError>(e) && final(self).badge_cache == old(self).badge_cache,
                },
    {
        let channel = match &self.channel_name {
            Some(c) => c.clone(),
            None => String::new(),
        };
        proof {
            assert(channel@ == joined_channel(old(self).channel_name)) by {
                if old(self).channel_name is None {
                    assert(channel@ =~= Seq::<char>::empty());
                }
            }
        }
        let fetched = self.client.fetch_badges(channel.as_str());
        let ghost answer = fetched;
        let r = self.apply_fetched_badges(fetched);
        proof {
            assert(old(self).client.gives_badges(joined_channel(old(self).channel_name), answer));
        }
        r
    }

    /// Leaves the chat: the client disconnects and, unless it refuses, the adapter counts as
    /// disconnected.
    pub fn disconnect(&mut self) -> (r: Result<(), PlatformError>)
        ensures
            final(self).channel_name == old(self).channel_name,
            final(self).auth_state == old(self).auth_state,
            final(self).badge_cache == old(self).badge_cache,
            exists|answer: Result<(), PlatformError>|
                #[trigger] old(self).client.gives_disconnect(answer, final(self).client) && match answer {
                    Ok(()) => r is Ok && !final(self).is_connected,
                    Err(e) => r == Err::<(), PlatformError>(e) && final(self).is_connected == old(self).is_connected,
                },
    {
        let answer = self.client.disconnect();
        let ghost a = answer;
        assert(old(self).client.gives_disconnect(a, self.client));
        match answer {
            Ok(()) => {},
            Err(e) => return Err(e),
        }
        self.is_connected = false;
        assert(old(self).client.gives_disconnect(a, self.client));
        Ok(())
    }

    /// Searches Twitch categories; refused unless the account is authenticated.
    pub fn search_categories(&mut self, query: &str) -> (r: Result<Vec<TwitchCategory>, PlatformError>)
        ensures
            final(self).auth_state == old(self).auth_state,
            final(self).badge_cache@ == old(self).badge_cache@,
            match auth_refusal(old(self).auth_state, "search Twitch categories"@) {
                Some(m) => r matches Err(e) && e.platform == Platform::Twitch && e.message@ == m
                    && final(self).client == old(self).client,
                None => old(self).client.gives_categories(query@, r),
            },
    {
        match require_authenticated(&self.auth_state, "search Twitch categories") {
            Ok(()) => {},
            Err(e) => return Err(e),
        }
        self.client.search_categories(query)
    }

    /// Updates the stream's title and category; refused unless the account is authenticated.
    pub fn update_stream(&mut self, update: &StreamUpdate) -> (r: Result<StreamUpdateOutcome, PlatformError>)
        ensures
            final(self).auth_state == old(self).auth_state,
            final(self).badge_cache@ == old(self).badge_cache@,
            match auth_refusal(old(self).auth_state, "update Twitch stream metadata"@) {
                Some(m) => r matches Err(e) && e.platform == Platform::Twitch && e.message@ == m
                    && final(self).client == old(self).client,
                None => old(self).client.gives_stream_update(*update, r),
            },
    {
        match require_authenticated(&self.auth_state, "update Twitch stream metadata") {
            Ok(()) => {},
            Err(e) => return Err(e),
        }
        self.client.update_stream(update)
    }

    /// The live status of a channel, as the client reports it.
    pub fn stream_status(&mut self, channel_id: &str) -> (r: Result<StreamStatus, PlatformError>)
        ensures
            final(self).auth_state == old(self).auth_state,
            final(self).badge_cache@ == old(self).badge_cache@,
            old(self).client.gives_twitch_stream_status(channel_id@, r),
    {
        self.client.stream_status(channel_id)
    }
}

} // verus!
