//! Core chat, settings and status types of the protocol.
use std::collections::BTreeMap;
use vstd::prelude::*;

verus! {

/// A streaming platform.
#[derive(Debug, Clone, Copy, PartialEq, Eq, PartialOrd, Ord, Hash, Structural)]
pub enum Platform {
    Twitch,
    Youtube,
    Kick,
}

#[derive(Debug, PartialEq)]
pub struct Badge {
    pub id: String,
    pub badge_type: String,
    pub text: String,
    pub image_url: Option<String>,
}

/// The characters of an optional string.
pub open spec fn opt_seq(o: Option<String>) -> Option<Seq<char>> {
    match o {
        Some(s) => Some(s@),
        None => None,
    }
}

fn clone_opt_string(o: &Option<String>) -> (r: Option<String>)
    ensures
        r == *o,
{
    match o {
        Some(s) => Some(s.clone()),
        None => None,
    }
}

/// A badge's id, type, text and image address.
pub type BadgeView = (Seq<char>, Seq<char>, Seq<char>, Option<Seq<char>>);

impl View for Badge {
    type V = BadgeView;

    open spec fn view(&self) -> BadgeView {
        (self.id@, self.badge_type@, self.text@, opt_seq(self.image_url))
    }
}

impl Clone for Badge {
    fn clone(&self) -> (r: Self)
        ensures
            r == *self,
    {
        Badge {
            id: self.id.clone(),
            badge_type: self.badge_type.clone(),
            text: self.text.clone(),
            image_url: clone_opt_string(&self.image_url),
        }
    }
}

/// An emote used in a message: where its image is and where it occurs in the text. The aspect
/// ratio is kept as the bit pattern of the `f64` the platform gives (`f64::to_bits`).
#[derive(Debug, PartialEq)]
pub struct Emote {
    pub id: String,
    pub name: String,
    pub image_url: String,
    pub positions: Vec<EmotePosition>,
    pub aspect_ratio_bits: Option<u64>,
}

/// An emote's id, name, image address, positions and aspect ratio bits.
pub type EmoteView = (Seq<char>, Seq<char>, Seq<char>, Seq<EmotePosition>, Option<u64>);

impl View for Emote {
    type V = EmoteView;

    open spec fn view(&self) -> EmoteView {
        (self.id@, self.name@, self.image_url@, self.positions@, self.aspect_ratio_bits)
    }
}

impl Clone for Emote {
    fn clone(&self) -> (r: Self)
        ensures
            r@ == self@,
    {
        Emote {
            id: self.id.clone(),
            name: self.name.clone(),
            image_url: self.image_url.clone(),
            positions: self.positions.clone(),
            aspect_ratio_bits: self.aspect_ratio_bits,
        }
    }
}

#[derive(Debug, Clone, Copy, PartialEq, Eq, Structural)]
pub struct EmotePosition {
    pub start: u32,
    pub end: u32,
}

#[derive(Debug, PartialEq)]
pub struct ChatAuthor {
    pub id: String,
    pub username: Option<String>,
    pub display_name: String,
    pub color: Option<String>,
    pub avatar_url: Option<String>,
    pub badges: Vec<Badge>,
}

/// The views of a list of badges.
pub open spec fn badges_view(b: Seq<Badge>) -> Seq<BadgeView> {
    Seq::new(b.len(), |i: int| b[i]@)
}

/// An author's id, username, display name, colour, avatar and badges.
pub type ChatAuthorView = (Seq<char>, Option<Seq<char>>, Seq<char>, Option<Seq<char>>, Option<Seq<char>>, Seq<BadgeView>);

impl View for ChatAuthor {
    type V = ChatAuthorView;

    open spec fn view(&self) -> ChatAuthorView {
        (
            self.id@,
            opt_seq(self.username),
            self.display_name@,
            opt_seq(self.color),
            opt_seq(self.avatar_url),
            badges_view(self.badges@),
        )
    }
}

impl Clone for ChatAuthor {
    fn clone(&self) -> (r: Self)
        ensures
            r@ == self@,
    {
        let badges = self.badges.clone();
        assert(badges_view(badges@) =~= badges_view(self.badges@));
        ChatAuthor {
            id: self.id.clone(),
            username: clone_opt_string(&self.username),
            display_name: self.display_name.clone(),
            color: clone_opt_string(&self.color),
            avatar_url: clone_opt_string(&self.avatar_url),
            badges,
        }
    }
}

#[derive(Debug, PartialEq)]
pub struct ReplyAuthor {
    pub id: String,
    pub username: String,
    pub display_name: String,
}

#[derive(Debug, PartialEq)]
pub struct ChatReply {
    pub parent_message_id: String,
    pub parent_message_text: String,
    pub parent_author: ReplyAuthor,
}

/// The text fields of a reply: parent message id and text, then the parent author's id,
/// username and display name.
pub type ChatReplyView = (Seq<char>, Seq<char>, Seq<char>, Seq<char>, Seq<char>);

impl Clone for ReplyAuthor {
    fn clone(&self) -> (r: Self)
        ensures
            r == *self,
    {
        ReplyAuthor { id: self.id.clone(), username: self.username.clone(), display_name: self.display_name.clone() }
    }
}

impl Clone for ChatReply {
    fn clone(&self) -> (r: Self)
        ensures
            r == *self,
    {
        ChatReply {
            parent_message_id: self.parent_message_id.clone(),
            parent_message_text: self.parent_message_text.clone(),
            parent_author: self.parent_author.clone(),
        }
    }
}

impl View for ChatReply {
    type V = ChatReplyView;

    open spec fn view(&self) -> ChatReplyView {
        (
            self.parent_message_id@,
            self.parent_message_text@,
            self.parent_author.id@,
            self.parent_author.username@,
            self.parent_author.display_name@,
        )
    }
}

#[derive(Debug, Clone, Copy, PartialEq, Eq, Structural)]
pub enum ChatMessageType {
    Message,
    Action,
    System,
}

/// A chat message in the form shared by every platform.
#[derive(Debug, PartialEq)]
pub struct NormalizedChatMessage {
    pub id: String,
    pub platform: Platform,
    pub channel_id: String,
    pub author: ChatAuthor,
    pub text: String,
    pub emotes: Vec<Emote>,
    pub timestamp: String,
    pub message_type: ChatMessageType,
    pub reply: Option<ChatReply>,
}

/// The views of a list of emotes.
pub open spec fn emotes_view(e: Seq<Emote>) -> Seq<EmoteView> {
    Seq::new(e.len(), |i: int| e[i]@)
}

/// Everything a message holds, as views: id, platform, channel, author, text, emotes,
/// timestamp, type and reply.
pub type MessageView = (
    Seq<char>,
    Platform,
    Seq<char>,
    ChatAuthorView,
    Seq<char>,
    Seq<EmoteView>,
    Seq<char>,
    ChatMessageType,
    Option<ChatReplyView>,
);

impl View for NormalizedChatMessage {
    type V = MessageView;

    open spec fn view(&self) -> MessageView {
        (
            self.id@,
            self.platform,
            self.channel_id@,
            self.author@,
            self.text@,
            emotes_view(self.emotes@),
            self.timestamp@,
            self.message_type,
            match self.reply {
                Some(r) => Some(r@),
                None => None,
            },
        )
    }
}

impl Clone for NormalizedChatMessage {
    fn clone(&self) -> (r: Self)
        ensures
            r@ == self@,
    {
        let emotes = self.emotes.clone();
        assert(emotes_view(emotes@) =~= emotes_view(self.emotes@));
        NormalizedChatMessage {
            id: self.id.clone(),
            platform: self.platform,
            channel_id: self.channel_id.clone(),
            author: self.author.clone(),
            text: self.text.clone(),
            emotes,
            timestamp: self.timestamp.clone(),
            message_type: self.message_type,
            reply: match &self.reply {
                Some(r) => Some(r.clone()),
                None => None,
            },
        }
    }
}

#[derive(Debug, Clone, Copy, PartialEq, Eq, Structural)]
pub enum NormalizedEventType {
    Follow,
    Sub,
    Resub,
    GiftSub,
    Raid,
    Host,
    Bits,
    Superchat,
    Membership,
}

#[derive(Debug, PartialEq)]
pub struct EventUser {
    pub id: String,
    pub display_name: String,
    pub avatar_url: Option<String>,
}

impl Clone for EventUser {
    fn clone(&self) -> (r: Self)
        ensures
            r == *self,
    {
        EventUser {
            id: self.id.clone(),
            display_name: self.display_name.clone(),
            avatar_url: clone_opt_string(&self.avatar_url),
        }
    }
}

/// The JSON object type of `serde_json`, carried through unread.
#[verifier::external_type_specification]
#[verifier::external_body]
#[verifier::reject_recursive_types(K)]
#[verifier::reject_recursive_types(V)]
pub struct ExJsonMap<K, V>(serde_json::Map<K, V>);

/// The JSON value type of `serde_json`, carried through unread.
#[verifier::external_type_specification]
#[verifier::external_body]
pub struct ExJsonValue(serde_json::Value);

/// The error `serde_json` gives for text that is not JSON, carried through unread.
#[verifier::external_type_specification]
#[verifier::external_body]
pub struct ExJsonError(serde_json::Error);

/// Copies the data of an event (`Clone` of `serde_json::Map<String, Value>`): the copy holds
/// the same keys and values as the original.
#[verifier::external_body]
fn clone_event_data(data: &serde_json::Map<String, serde_json::Value>) -> (r: serde_json::Map<String, serde_json::Value>)
    ensures
        r == *data,
{
    data.clone()
}

/// A value the library writes into the JSON data of an event: a string, an unsigned number
/// or a boolean.
pub enum JsonField {
    Text(Seq<char>),
    Number(u64),
    Flag(bool),
}

/// The fields of a JSON object, by key, as far as they hold strings, unsigned numbers and
/// booleans.
pub uninterp spec fn json_fields(object: serde_json::Map<String, serde_json::Value>) -> Map<Seq<char>, JsonField>;

/// The fields of an empty JSON object.
pub open spec fn no_json_fields() -> Map<Seq<char>, JsonField> {
    Map::empty()
}

/// An empty JSON object (`serde_json::Map::new`).
#[verifier::external_body]
pub fn new_json_object() -> (r: serde_json::Map<String, serde_json::Value>)
    ensures
        json_fields(r) == no_json_fields(),
{
    serde_json::Map::new()
}

/// Sets `key` of a JSON object to the string `value` (`serde_json::Map::insert` with
/// `Value::String`); a value the key held before is replaced.
#[verifier::external_body]
pub fn insert_json_text(object: &mut serde_json::Map<String, serde_json::Value>, key: &str, value: String)
    ensures
        json_fields(*final(object)) == json_fields(*old(object)).insert(key@, JsonField::Text(value@)),
{
    object.insert(key.to_string(), serde_json::Value::String(value));
}

/// Sets `key` of a JSON object to the number `value` (`serde_json::Map::insert` with
/// `Value::from(u64)`); a value the key held before is replaced.
#[verifier::external_body]
pub fn insert_json_number(object: &mut serde_json::Map<String, serde_json::Value>, key: &str, value: u64)
    ensures
        json_fields(*final(object)) == json_fields(*old(object)).insert(key@, JsonField::Number(value)),
{
    object.insert(key.to_string(), serde_json::Value::from(value));
}

/// Sets `key` of a JSON object to the boolean `value` (`serde_json::Map::insert` with
/// `Value::Bool`); a value the key held before is replaced.
#[verifier::external_body]
pub fn insert_json_bool(object: &mut serde_json::Map<String, serde_json::Value>, key: &str, value: bool)
    ensures
        json_fields(*final(object)) == json_fields(*old(object)).insert(key@, JsonField::Flag(value)),
{
    object.insert(key.to_string(), serde_json::Value::Bool(value));
}

/// An event of a channel (a follow, a subscription, a raid, ...) in the form shared by every
/// platform; `data` holds the platform's details as JSON.
#[derive(Debug, PartialEq)]
pub struct NormalizedEvent {
    pub id: String,
    pub platform: Platform,
    pub event_type: NormalizedEventType,
    pub user: EventUser,
    pub data: serde_json::Map<String, serde_json::Value>,
    pub timestamp: String,
}

impl Clone for NormalizedEvent {
    fn clone(&self) -> (r: Self)
        ensures
            r == *self,
    {
        NormalizedEvent {
            id: self.id.clone(),
            platform: self.platform,
            event_type: self.event_type,
            user: self.user.clone(),
            data: clone_event_data(&self.data),
            timestamp: self.timestamp.clone(),
        }
    }
}

#[derive(Debug, Clone, PartialEq)]
pub struct Account {
    pub id: String,
    pub platform: Platform,
    pub platform_user_id: String,
    pub username: String,
    pub display_name: String,
    pub avatar_url: Option<String>,
    pub scopes: Vec<String>,
    pub created_at: u64,
    pub updated_at: u64,
}

#[derive(Debug, Clone, Copy, PartialEq, Eq, Structural)]
pub enum SplitConfigType {
    Combined,
    Channel,
}

#[derive(Debug, Clone, Copy, PartialEq, Eq, Structural)]
pub enum ChatLayoutMode {
    Combined,
    Split,
}

#[derive(Debug, Clone, PartialEq)]
pub struct SelfPingConfig {
    pub enabled: bool,
    pub color: String,
}

/// Key combinations bound to the tab actions.
#[derive(Debug, Clone, PartialEq)]
pub struct HotkeySettings {
    pub new_tab: String,
    pub next_tab: String,
    pub prev_tab: String,
    pub tab_selector: String,
}

#[derive(Debug, Clone, Copy, PartialEq, Eq, Structural)]
pub enum AppTheme {
    Light,
    Dark,
}

#[derive(Debug, Clone, Copy, PartialEq, Eq, Structural)]
pub enum ChatTheme {
    Modern,
    Compact,
}

#[derive(Debug, Clone, Copy, PartialEq, Eq, Structural)]
pub enum FontFamilyChoice {
    Inter,
    Manrope,
    System,
}

#[derive(Debug, Clone, PartialEq)]
pub enum PlatformFilter {
    All(String),
    Platforms(Vec<Platform>),
}

#[derive(Debug, Clone, Copy, PartialEq, Eq, Structural)]
pub enum OverlayAnimation {
    Slide,
    Fade,
    /// No animation (the variant the protocol calls `none`).
    Still,
}

#[derive(Debug, Clone, Copy, PartialEq, Eq, Structural)]
pub enum OverlayPosition {
    Bottom,
    Top,
}

#[derive(Debug, Clone, PartialEq)]
pub struct StreamStatus {
    pub platform: Platform,
    pub channel_id: String,
    pub is_live: bool,
    pub title: String,
    pub category_id: Option<String>,
    pub category_name: Option<String>,
    pub viewer_count: Option<u64>,
}

#[derive(Debug, Clone, Copy, PartialEq, Eq, Structural)]
pub enum PlatformStatus {
    Connected,
    Disconnected,
    Connecting,
    Error,
}

#[derive(Debug, Clone, Copy, PartialEq, Eq, Structural)]
pub enum PlatformStatusMode {
    Anonymous,
    Authenticated,
}

#[derive(Debug, Clone, PartialEq)]
pub struct PlatformStatusInfo {
    pub platform: Platform,
    pub status: PlatformStatus,
    pub error: Option<String>,
    pub mode: PlatformStatusMode,
    pub channel_login: Option<String>,
}

#[derive(Debug, Clone, PartialEq)]
pub struct WatchedChannel {
    pub id: String,
    pub platform: Platform,
    pub channel_slug: String,
    pub broadcaster_id: Option<String>,
    pub display_name: String,
    pub created_at: u64,
}

#[derive(Debug, Clone, Copy, PartialEq, Eq, Structural)]
pub enum SplitDirection {
    Horizontal,
    Vertical,
}

#[derive(Debug, Clone, PartialEq)]
pub enum PanelContent {
    Main,
    Watched { channel_id: String },
    Empty,
}

#[derive(Debug, Clone, Copy, PartialEq, Eq, Structural)]
pub enum ModerationAction {
    Ban,
    Timeout,
    DeleteMessage,
}

#[derive(Debug, Clone, PartialEq)]
pub struct ModerationError {
    pub code: String,
    pub status: u32,
    pub message: String,
}

#[derive(Debug, Clone, PartialEq)]
pub struct ModerationBanResponse {
    pub success: bool,
    pub user_id: String,
    pub is_permanent: bool,
    pub duration_seconds: Option<u32>,
    pub error: Option<ModerationError>,
}

/// A moderation shortcut: a timeout of some seconds, or a ban.
#[derive(Debug, Clone, Copy, PartialEq, Eq, Structural)]
pub enum ModerationPresetKind {
    Timeout(u32),
    Ban,
}

/// The short label shown for a moderation preset.
pub open spec fn preset_label(kind: ModerationPresetKind) -> Seq<char> {
    match kind {
        ModerationPresetKind::Timeout(secs) => if secs <= 59 {
            "1s"@
        } else if secs == 60 {
            "1m"@
        } else if secs == 300 {
            "5m"@
        } else if secs == 600 {
            "10m"@
        } else if secs == 1800 {
            "30m"@
        } else if secs == 3600 {
            "1h"@
        } else if secs == 21600 {
            "6h"@
        } else if secs == 86400 {
            "1d"@
        } else {
            "custom"@
        },
        ModerationPresetKind::Ban => "Ban"@,
    }
}

/// Whether a preset can be applied on a platform.
pub open spec fn preset_valid_for(kind: ModerationPresetKind, platform: Platform) -> bool {
    match platform {
        Platform::Youtube => false,
        Platform::Twitch => true,
        Platform::Kick => match kind {
            ModerationPresetKind::Ban => true,
            ModerationPresetKind::Timeout(secs) => 60 <= secs && secs <= 604_800,
        },
    }
}

impl ModerationPresetKind {
    pub fn label(&self) -> (r: &'static str)
        ensures
            r@ == preset_label(*self),
    {
        match self {
            ModerationPresetKind::Timeout(secs) => {
                let secs = *secs;
                if secs <= 59 {
                    "1s"
                } else if secs == 60 {
                    "1m"
                } else if secs == 300 {
                    "5m"
                } else if secs == 600 {
                    "10m"
                } else if secs == 1800 {
                    "30m"
                } else if secs == 3600 {
                    "1h"
                } else if secs == 21600 {
                    "6h"
                } else if secs == 86400 {
                    "1d"
                } else {
                    "custom"
                }
            },
            ModerationPresetKind::Ban => "Ban",
        }
    }

    pub fn is_valid_for_platform(&self, platform: Platform) -> (r: bool)
        ensures
            r == preset_valid_for(*self, platform),
    {
        match platform {
            Platform::Youtube => false,
            Platform::Twitch => true,
            Platform::Kick => match self {
                ModerationPresetKind::Ban => true,
                ModerationPresetKind::Timeout(secs) => *secs >= 60 && *secs <= 604_800,
            },
        }
    }
}

#[derive(Debug, Clone, PartialEq)]
pub struct WatchedChannelsLayoutMeta {
    pub created_at: u64,
    pub updated_at: u64,
    pub migrated_from: Option<String>,
}

#[derive(Debug, Clone, PartialEq)]
pub struct TwitchBadgesResponse {
    pub badges: BTreeMap<String, String>,
}

} // verus!
