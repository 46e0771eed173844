//! Messages exchanged with the backend over its WebSocket, and backend HTTP payloads.
use crate::protocol::types::{NormalizedChatMessage, NormalizedEvent, Platform};
use vstd::prelude::*;

verus! {

#[derive(Debug, Clone, Copy, PartialEq, Eq, Structural)]
pub enum BackendPlatformStatus {
    Connected,
    Disconnected,
    Error,
}

#[derive(Debug, Clone, PartialEq)]
pub struct SevenTvSubscription {
    pub platform: Platform,
    pub channel_id: String,
    pub platform_user_id: Option<String>,
}

/// A message the backend sends to the desktop shell. The chat message and the event it
/// carries come decoded; one whose payload does not decode is not handed on.
#[derive(Debug)]
pub enum BackendToDesktopMessage {
    AuthUrl { platform: Platform, url: String },
    AuthSuccess { platform: Platform, username: String, display_name: String },
    AuthError { platform: Platform, error: String },
    Error { message: String },
    Pong,
    ChatMessage { data: NormalizedChatMessage },
    ChatEvent { data: NormalizedEvent },
    PlatformStatus { platform: Platform, status: BackendPlatformStatus, error: Option<String> },
    SeventvEmoteSet { platform: Platform, channel_id: String, emotes: Vec<SevenTvEmote> },
    SeventvEmoteAdded { platform: Platform, channel_id: String, emote: SevenTvEmote },
    SeventvEmoteRemoved { platform: Platform, channel_id: String, emote_id: String },
    SeventvEmoteUpdated { platform: Platform, channel_id: String, emote_id: String, alias: String },
    SeventvSystemMessage { platform: Platform, channel_id: String, message: SevenTvSystemMessage },
}

/// A message the desktop shell sends to the backend.
#[derive(Debug, Clone, PartialEq)]
pub enum DesktopToBackendMessage {
    Ping,
    AuthStart { platform: BackendAuthPlatform },
    AuthStartTwitch { code_challenge: String, state: String },
    AuthLogout { platform: Platform },
    SendMessage { platform: Platform, channel: String, message: String },
    ChannelJoin { platform: Platform, channel: String },
    ChannelLeave { platform: Platform, channel: String },
    SeventvSubscribe { platform: Platform, channel_id: String, platform_user_id: Option<String> },
    SeventvUnsubscribe { platform: Platform, channel_id: String },
    SeventvResubscribe { subscriptions: Vec<SevenTvSubscription> },
}

/// The `type` tags of the messages the desktop shell sends to the backend.
pub open spec fn desktop_to_backend_tags() -> Seq<Seq<char>> {
    seq![
        "ping"@,
        "auth_start"@,
        "auth_start_twitch"@,
        "auth_logout"@,
        "send_message"@,
        "channel_join"@,
        "channel_leave"@,
        "seventv_subscribe"@,
        "seventv_unsubscribe"@,
        "seventv_resubscribe"@,
    ]
}

/// Whether `tag` is the `type` of a message the desktop shell sends to the backend.
pub fn is_desktop_to_backend_tag(tag: &str) -> (r: bool)
    ensures
        r == desktop_to_backend_tags().contains(tag@),
{
    let tags: [&str; 10] = [
        "ping",
        "auth_start",
        "auth_start_twitch",
        "auth_logout",
        "send_message",
        "channel_join",
        "channel_leave",
        "seventv_subscribe",
        "seventv_unsubscribe",
        "seventv_resubscribe",
    ];
    let mut i: usize = 0;
    while i < 10
        invariant
            i <= 10,
            forall|j: int| 0 <= j < 10 ==> (#[trigger] tags@[j])@ == desktop_to_backend_tags()[j],
            forall|j: int| 0 <= j < i ==> desktop_to_backend_tags()[j] != tag@,
        decreases 10 - i,
    {
        if crate::text::str_eq(tags[i], tag) {
            assert(desktop_to_backend_tags()[i as int] == tag@);
            return true;
        }
        i = i + 1;
    }
    false
}

/// What a field of a text read as JSON holds.
#[derive(Debug)]
pub enum JsonTag {
    /// The text is not JSON.
    InvalidJson(serde_json::Error),
    /// The JSON has no such field.
    Missing,
    /// The field is not a string.
    NotAString,
    /// The field is this string.
    Text(String),
}

/// [`JsonTag`] with the string taken by its characters and the parse error left out.
pub enum JsonTagView {
    InvalidJson,
    Missing,
    NotAString,
    Text(Seq<char>),
}

impl View for JsonTag {
    type V = JsonTagView;

    open spec fn view(&self) -> JsonTagView {
        match self {
            JsonTag::InvalidJson(_) => JsonTagView::InvalidJson,
            JsonTag::Missing => JsonTagView::Missing,
            JsonTag::NotAString => JsonTagView::NotAString,
            JsonTag::Text(t) => JsonTagView::Text(t@),
        }
    }
}

/// What the field `key` of `text`, read as JSON, holds.
pub uninterp spec fn json_field_tag(text: Seq<char>, key: Seq<char>) -> JsonTagView;

/// Reads `text` as a `serde_json::Value` (`serde_json::from_str`) and looks up its field
/// `key` (`Value::get`, `Value::as_str`). The answer depends on the text and the key alone and
/// is named by [`json_field_tag`].
#[verifier::external_body]
fn read_field_tag(text: &str, key: &str) -> (r: JsonTag)
    ensures
        r@ == json_field_tag(text@, key@),
{
    let value: serde_json::Value = match serde_json::from_str(text) {
        Ok(value) => value,
        Err(error) => return JsonTag::InvalidJson(error),
    };
    match value.get(key) {
        None => JsonTag::Missing,
        Some(tag) => match tag.as_str() {
            Some(t) => JsonTag::Text(t.to_string()),
            None => JsonTag::NotAString,
        },
    }
}

/// Why a message from the desktop shell was refused before its payload was read.
#[derive(Debug)]
pub enum DesktopDecodeError {
    /// The text is not JSON.
    InvalidJson(serde_json::Error),
    /// The message has no `type` field.
    MissingDiscriminant,
    /// The `type` field is not a string.
    InvalidDiscriminantType,
    /// The `type` names no message the desktop shell sends.
    UnknownDiscriminant { value: String },
}

/// What a message from the desktop shell whose `type` field holds `tag` gives: its tag when
/// the tag names such a message, else the reason it is refused.
pub open spec fn desktop_tag_outcome(tag: JsonTagView, r: Result<String, DesktopDecodeError>) -> bool {
    match tag {
        JsonTagView::InvalidJson => r matches Err(DesktopDecodeError::InvalidJson(_)),
        JsonTagView::Missing => r matches Err(DesktopDecodeError::MissingDiscriminant),
        JsonTagView::NotAString => r matches Err(DesktopDecodeError::InvalidDiscriminantType),
        JsonTagView::Text(t) => if desktop_to_backend_tags().contains(t) {
            r matches Ok(s) && s@ == t
        } else {
            r matches Err(DesktopDecodeError::UnknownDiscriminant { value }) && value@ == t
        },
    }
}

/// Checks the `type` field of a message from the desktop shell: it must be a string naming
/// one of the messages the shell sends. A JSON error is handed on as it came.
pub fn classify_desktop_tag(tag: JsonTag) -> (r: Result<String, DesktopDecodeError>)
    ensures
        desktop_tag_outcome(tag@, r),
        match tag {
            JsonTag::InvalidJson(e) => r == Err::<String, DesktopDecodeError>(DesktopDecodeError::InvalidJson(e)),
            _ => true,
        },
{
    match tag {
        JsonTag::InvalidJson(error) => Err(DesktopDecodeError::InvalidJson(error)),
        JsonTag::Missing => Err(DesktopDecodeError::MissingDiscriminant),
        JsonTag::NotAString => Err(DesktopDecodeError::InvalidDiscriminantType),
        JsonTag::Text(t) => {
            if is_desktop_to_backend_tag(t.as_str()) {
                Ok(t)
            } else {
                Err(DesktopDecodeError::UnknownDiscriminant { value: t })
            }
        },
    }
}

/// Reads a message from the desktop shell as far as its `type`: the text must be JSON with a
/// string `type` that names one of the messages the shell sends. Returns that tag.
pub fn check_desktop_to_backend_message(text: &str) -> (r: Result<String, DesktopDecodeError>)
    ensures
        desktop_tag_outcome(json_field_tag(text@, "type"@), r),
{
    classify_desktop_tag(read_field_tag(text, "type"))
}

#[derive(Debug, Clone, Copy, PartialEq, Eq, Structural)]
pub enum BackendAuthPlatform {
    Youtube,
    Kick,
}

#[derive(Debug, Clone, PartialEq)]
pub struct AuthStartRequest {
    pub client_secret: String,
}

#[derive(Debug, Clone, PartialEq)]
pub struct AuthStartResponse {
    pub url: String,
}

#[derive(Debug, Clone, PartialEq)]
pub struct TwitchBuildUrlRequest {
    pub code_challenge: String,
    pub state: String,
    pub redirect_uri: String,
}

#[derive(Debug, Clone, PartialEq)]
pub struct OAuthExchangeRequest {
    pub code: String,
    pub code_verifier: String,
    pub redirect_uri: String,
}

#[derive(Debug, Clone, PartialEq)]
pub struct OAuthExchangeResponse {
    pub access_token: String,
    pub refresh_token: Option<String>,
    pub expires_in: Option<u64>,
    pub scope: Option<Vec<String>>,
}

#[derive(Debug, Clone, PartialEq)]
pub struct RefreshRequest {
    pub refresh_token: String,
}

#[derive(Debug, Clone, PartialEq)]
pub struct RefreshResponse {
    pub access_token: String,
    pub refresh_token: Option<String>,
    pub expires_in: Option<u64>,
}

#[derive(Debug, Clone, PartialEq)]
pub struct StreamStatusResponse {
    pub is_live: bool,
    pub title: String,
    pub category_id: Option<String>,
    pub category_name: Option<String>,
    pub viewer_count: Option<u64>,
}

/// Platforms whose live status the backend can report.
#[derive(Debug, Clone, Copy, PartialEq, Eq, Structural)]
pub enum LiveStatusPlatform {
    Twitch,
    Kick,
}

#[derive(Debug, Clone, PartialEq)]
pub struct ChannelStatusRequest {
    pub platform: LiveStatusPlatform,
    pub channel_login: String,
    pub channel_id: Option<String>,
    pub user_access_token: Option<String>,
}

#[derive(Debug, Clone, PartialEq)]
pub struct ChannelStatus {
    pub platform: LiveStatusPlatform,
    pub channel_login: String,
    pub is_live: bool,
    pub title: String,
    pub category_name: Option<String>,
    pub viewer_count: Option<u64>,
}

#[derive(Debug, Clone, PartialEq)]
pub struct ChannelsStatusResponse {
    pub channels: Vec<ChannelStatus>,
}

#[derive(Debug, Clone, PartialEq)]
pub struct UpdateStreamRequest {
    pub platform: LiveStatusPlatform,
    pub channel_id: String,
    pub user_access_token: String,
    pub title: Option<String>,
    pub category_id: Option<String>,
}

#[derive(Debug, Clone, PartialEq)]
pub struct UpdateStreamResponse {
    pub ok: bool,
}

#[derive(Debug, Clone, PartialEq)]
pub struct CategorySearchResult {
    pub id: String,
    pub name: String,
    pub thumbnail_url: Option<String>,
}

#[derive(Debug, Clone, PartialEq)]
pub struct SearchCategoriesResponse {
    pub categories: Vec<CategorySearchResult>,
}

#[derive(Debug, Clone, Copy, PartialEq, Eq, Structural)]
pub enum UserCardMetadataPlatform {
    Twitch,
    Kick,
}

#[derive(Debug, Clone, Copy, PartialEq, Eq, Structural)]
pub enum UserCardFieldStatus {
    Available,
    Unavailable,
    Unsupported,
    MissingPermission,
}

#[derive(Debug, Clone, PartialEq)]
pub struct UserCardMetadataRequest {
    pub platform: UserCardMetadataPlatform,
    pub platform_user_id: String,
    pub username: Option<String>,
    pub channel_id: Option<String>,
    pub channel_slug: Option<String>,
}

#[derive(Debug, Clone, PartialEq)]
pub struct TwitchUserCardAuth {
    pub access_token: String,
    pub platform_user_id: String,
    pub scopes: Vec<String>,
}

#[derive(Debug, Clone, PartialEq)]
pub struct UserCardMetadataBackendRequest {
    pub request: UserCardMetadataRequest,
    pub twitch_auth: Option<TwitchUserCardAuth>,
}

#[derive(Debug, Clone, PartialEq)]
pub struct UserCardAccountAgeField {
    pub status: UserCardFieldStatus,
    pub created_at: Option<String>,
    pub message: Option<String>,
}

#[derive(Debug, Clone, PartialEq)]
pub struct UserCardFollowAgeField {
    pub status: UserCardFieldStatus,
    pub followed_at: Option<String>,
    pub message: Option<String>,
}

#[derive(Debug, Clone, PartialEq)]
pub struct UserCardSubscriptionDurationField {
    pub status: UserCardFieldStatus,
    pub currently_subscribed: Option<bool>,
    pub tier: Option<String>,
    pub is_gift: Option<bool>,
    pub gifter_display_name: Option<String>,
    pub message: Option<String>,
}

#[derive(Debug, Clone, PartialEq)]
pub struct UserCardSubAgeField {
    pub status: UserCardFieldStatus,
    pub months: Option<u64>,
    pub message: Option<String>,
}

#[derive(Debug, Clone, PartialEq)]
pub struct UserCardMetadataResponse {
    pub platform: UserCardMetadataPlatform,
    pub platform_user_id: String,
    pub fetched_at: u64,
    pub account_age: UserCardAccountAgeField,
    pub follow_age: UserCardFollowAgeField,
    pub subscription_duration: UserCardSubscriptionDurationField,
    pub sub_age: UserCardSubAgeField,
}

#[derive(Debug, Clone, PartialEq)]
pub struct AccountsResponseAccount {
    pub platform: Platform,
    pub username: String,
    pub display_name: String,
    pub avatar_url: Option<String>,
    pub connected_at: u64,
}

#[derive(Debug, Clone, PartialEq)]
pub struct AccountsResponse {
    pub accounts: Vec<AccountsResponseAccount>,
}

/// A 7TV emote as the backend reports it. The aspect ratio is kept as the bit pattern of the
/// `f64` the backend sends (`f64::to_bits`).
#[derive(Debug, Clone, PartialEq)]
pub struct SevenTvEmote {
    pub id: String,
    pub alias: String,
    pub name: String,
    pub animated: bool,
    pub zero_width: bool,
    pub aspect_ratio_bits: u64,
    pub image_url: String,
}

/// A change to a channel's 7TV emotes that the backend announces.
#[derive(Debug, Clone, PartialEq)]
pub enum SevenTvSystemMessage {
    Added { emote: SevenTvEmote, old_alias: Option<String> },
    Removed { emote: SevenTvEmote, old_alias: Option<String> },
    Updated { emote: SevenTvEmote, old_alias: Option<String> },
    SetChanged { set_name: String },
    SetRenamed { old_name: String, new_name: String },
    SetDeleted { set_name: String },
}

} // verus!
