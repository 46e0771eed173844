//! The desktop application's state: its small types, and the rules it applies to channels,
//! users, replies, status requests and 7TV notices.
use crate::auth::platform_debug_name;
use crate::protocol::messages::{ChannelStatusRequest, LiveStatusPlatform, SevenTvSystemMessage};
use crate::protocol::types::{
    ChatReply, Emote, EmoteView, ModerationAction, NormalizedChatMessage, Platform, ReplyAuthor,
    SplitDirection, WatchedChannel,
};
use crate::text::{
    ascii_lower_seq, contains_seq, owned, push_str, str_contains, str_eq, strings_view,
    to_ascii_lowercase, to_lowercase, trim, trim_start_char, trim_then_strip, trimmed,
    unicode_lowercase,
};
use vstd::prelude::*;

verus! {

/// A channel the user asked to watch, before the backend confirmed it.
#[derive(Debug, Clone, PartialEq, Eq)]
pub struct PendingWatchedChannelAdd {
    pub platform: Platform,
    pub channel_slug: String,
    pub display_name: Option<String>,
}

/// A message to a watched channel, before the backend confirmed it.
#[derive(Debug, Clone, PartialEq, Eq)]
pub struct PendingWatchedChannelMessage {
    pub channel_id: String,
    pub text: String,
    pub reply_to_message_id: Option<String>,
    pub client_message_id: Option<String>,
}

/// Where an outgoing chat message stands.
#[derive(Debug, Clone, Copy, PartialEq, Eq, Structural)]
pub enum OutgoingChatMessageStatus {
    Pending,
    Sent,
    Error,
}

/// A watched channel the user asked to remove, before the backend confirmed it.
#[derive(Debug, Clone, PartialEq, Eq)]
pub struct PendingWatchedChannelRemove {
    pub channel_id: String,
}

/// The sections of the main window.
#[derive(Debug, Clone, Copy, PartialEq, Eq, Structural)]
pub enum MainSection {
    Chat,
    Events,
    Platforms,
    Settings,
}

/// The side of a pane that another pane is dropped on.
#[derive(Debug, Clone, Copy, PartialEq, Eq, Structural)]
pub enum PaneDropDirection {
    Left,
    Right,
    Top,
    Bottom,
}

/// The state of the backend process.
#[derive(Debug, Clone, Copy, PartialEq, Eq, Structural)]
pub enum RuntimeStatus {
    Starting,
    Running,
    Stopped,
    Failed,
}

/// The user whose card is shown.
#[derive(Debug, Clone, PartialEq, Eq)]
pub struct UserCardTarget {
    pub platform: Platform,
    pub platform_user_id: String,
    pub channel_id: String,
    pub channel_slug: String,
    pub display_name: String,
    pub username: Option<String>,
    pub avatar_url: Option<String>,
    pub current_alias: Option<String>,
}

/// A moderation action being dragged onto a message.
#[derive(Debug, Clone, PartialEq, Eq)]
pub struct ModerationDragPreview {
    pub target: String,
    pub action: ModerationAction,
    pub duration_seconds: Option<u32>,
    pub restore_follow_on_drop: bool,
}

/// A part of a user card that loads in the background; `generation` tells a late answer to
/// an earlier request from the current one.
#[derive(Debug, Clone, PartialEq)]
pub enum UserCardLoadState<T> {
    Idle,
    Loading { generation: u64 },
    Loaded { generation: u64, value: T },
    Error { generation: u64, error: String },
}

/// Which page of a user's history a request asks for.
#[derive(Debug, Clone, Copy, PartialEq, Eq, Structural)]
pub enum UserCardHistoryRequestKind {
    Initial,
    Older,
}

/// A request for a page of a user's history.
#[derive(Debug, Clone, Copy, PartialEq, Eq, Structural)]
pub struct UserCardHistoryRequest {
    pub generation: u64,
    pub request_id: u64,
    pub kind: UserCardHistoryRequestKind,
}

/// The direction of the split that a drop on the given side creates.
pub open spec fn drop_split(direction: PaneDropDirection) -> SplitDirection {
    match direction {
        PaneDropDirection::Left | PaneDropDirection::Right => SplitDirection::Horizontal,
        PaneDropDirection::Top | PaneDropDirection::Bottom => SplitDirection::Vertical,
    }
}

/// Dropping a pane on the left or right splits horizontally, on the top or bottom vertically.
pub fn pane_drop_split_direction(direction: PaneDropDirection) -> (r: SplitDirection)
    ensures
        r == drop_split(direction),
{
    match direction {
        PaneDropDirection::Left | PaneDropDirection::Right => SplitDirection::Horizontal,
        PaneDropDirection::Top | PaneDropDirection::Bottom => SplitDirection::Vertical,
    }
}

/// The name of a platform as the user reads it.
pub open spec fn platform_label(platform: Platform) -> Seq<char> {
    match platform {
        Platform::Twitch => "Twitch"@,
        Platform::Youtube => "YouTube"@,
        Platform::Kick => "Kick"@,
    }
}

/// The name of a platform as the user reads it.
pub fn format_platform_label(platform: Platform) -> (r: &'static str)
    ensures
        r@ == platform_label(platform),
{
    match platform {
        Platform::Twitch => "Twitch",
        Platform::Youtube => "YouTube",
        Platform::Kick => "Kick",
    }
}

/// The platforms whose live status the backend reports: Twitch and Kick.
pub open spec fn live_platform(platform: Platform) -> Option<LiveStatusPlatform> {
    match platform {
        Platform::Twitch => Some(LiveStatusPlatform::Twitch),
        Platform::Kick => Some(LiveStatusPlatform::Kick),
        Platform::Youtube => None,
    }
}

/// The live-status platform of a platform, if the backend reports its live status.
pub fn live_status_platform(platform: Platform) -> (r: Option<LiveStatusPlatform>)
    ensures
        r == live_platform(platform),
{
    match platform {
        Platform::Twitch => Some(LiveStatusPlatform::Twitch),
        Platform::Kick => Some(LiveStatusPlatform::Kick),
        Platform::Youtube => None,
    }
}

/// The key of a live-status platform: `twitch` or `kick`.
pub open spec fn live_key(platform: LiveStatusPlatform) -> Seq<char> {
    match platform {
        LiveStatusPlatform::Twitch => "twitch"@,
        LiveStatusPlatform::Kick => "kick"@,
    }
}

/// The key of a live-status platform: `twitch` or `kick`.
pub fn live_status_platform_key(platform: LiveStatusPlatform) -> (r: &'static str)
    ensures
        r@ == live_key(platform),
{
    match platform {
        LiveStatusPlatform::Twitch => "twitch",
        LiveStatusPlatform::Kick => "kick",
    }
}

/// The key under which a channel's live status is tracked: platform key, `:`, and the
/// channel's login in lower case.
pub open spec fn status_key(platform: LiveStatusPlatform, channel_login: Seq<char>) -> Seq<char> {
    live_key(platform) + ":"@ + unicode_lowercase(channel_login)
}

/// The key under which a channel's live status is tracked ([`status_key`]).
pub fn home_channel_status_key(platform: LiveStatusPlatform, channel_login: &str) -> (r: String)
    ensures
        r@ == status_key(platform, channel_login@),
{
    let mut key = owned(live_status_platform_key(platform));
    push_str(&mut key, ":");
    let lower = to_lowercase(channel_login);
    push_str(&mut key, lower.as_str());
    key
}

/// Whether `seen` holds `key`.
fn string_listed(seen: &Vec<String>, key: &str) -> (r: bool)
    ensures
        r == strings_view(seen@).contains(key@),
{
    let mut i: usize = 0;
    while i < seen.len()
        invariant
            i <= seen@.len(),
            forall|j: int| 0 <= j < i ==> (#[trigger] strings_view(seen@)[j]) != key@,
        decreases seen@.len() - i,
    {
        if str_eq(seen[i].as_str(), key) {
            assert(strings_view(seen@)[i as int] == key@);
            return true;
        }
        i = i + 1;
    }
    false
}

/// Adds a live-status request for a channel, unless its login is blank or its key is in `seen`
/// already; the request carries the trimmed login, and its key goes into `seen`.
pub fn push_home_channel_status_request(
    requests: &mut Vec<ChannelStatusRequest>,
    seen: &mut Vec<String>,
    platform: LiveStatusPlatform,
    channel_login: &str,
    channel_id: Option<String>,
)
    ensures
        ({
            let login = trim(channel_login@);
            let key = status_key(platform, login);
            if login.len() == 0 || strings_view(old(seen)@).contains(key) {
                &&& final(requests)@ == old(requests)@
                &&& final(seen)@ == old(seen)@
            } else {
                &&& strings_view(final(seen)@) == strings_view(old(seen)@).push(key)
                &&& final(requests)@.len() == old(requests)@.len() + 1
                &&& final(requests)@.take(old(requests)@.len() as int) == old(requests)@
                &&& final(requests)@.last().platform == platform
                &&& final(requests)@.last().channel_login@ == login
                &&& final(requests)@.last().channel_id == channel_id
                &&& final(requests)@.last().user_access_token is None
            }
        }),
{
    let login = trimmed(channel_login);
    if login.as_str().is_empty() {
        return;
    }
    let key = home_channel_status_key(platform, login.as_str());
    if string_listed(seen, key.as_str()) {
        return;
    }
    let ghost old_seen = seen@;
    let ghost old_requests = requests@;
    seen.push(key);
    proof {
        assert(strings_view(seen@) =~= strings_view(old_seen).push(key@));
    }
    requests.push(ChannelStatusRequest {
        platform,
        channel_login: login,
        channel_id,
        user_access_token: None,
    });
    proof {
        assert(requests@.take(old_requests.len() as int) =~= old_requests);
    }
}

/// A user name as typed, made comparable: trimmed, without leading `@`, in ASCII lower case.
pub fn normalize_user_lookup(value: &str) -> (r: String)
    ensures
        r@ == ascii_lower_seq(trim_start_char(trim(value@), '@')),
{
    let stripped = trim_then_strip(value, '@');
    to_ascii_lowercase(stripped.as_str())
}

/// The id of a channel on the home feed: the platform's name, `:`, and the login in lower case.
pub fn home_channel_target_id(platform: Platform, channel_login: &str) -> (r: String)
    ensures
        r@ == platform_debug_name(platform) + ":"@ + unicode_lowercase(channel_login@),
{
    let mut id = owned(crate::auth::platform_debug_str(platform));
    push_str(&mut id, ":");
    let lower = to_lowercase(channel_login);
    push_str(&mut id, lower.as_str());
    id
}

/// The reply that answering `message` carries: its id, text and author (an absent username
/// becomes empty).
pub fn chat_reply_from_message(message: &NormalizedChatMessage) -> (r: ChatReply)
    ensures
        r@ == (
            message.id@,
            message.text@,
            message.author.id@,
            match message.author.username {
                Some(u) => u@,
                None => Seq::empty(),
            },
            message.author.display_name@,
        ),
{
    let username = match &message.author.username {
        Some(u) => u.clone(),
        None => String::new(),
    };
    ChatReply {
        parent_message_id: message.id.clone(),
        parent_message_text: message.text.clone(),
        parent_author: ReplyAuthor {
            id: message.author.id.clone(),
            username,
            display_name: message.author.display_name.clone(),
        },
    }
}

/// The text of a 7TV notice.
pub open spec fn seven_tv_notice_text(message: SevenTvSystemMessage) -> Seq<char> {
    match message {
        SevenTvSystemMessage::Added { emote, .. } => "Emote "@ + emote.alias@ + " added to the channel"@,
        SevenTvSystemMessage::Removed { emote, .. } => "Emote "@ + emote.alias@
            + " removed from the channel"@,
        SevenTvSystemMessage::Updated { emote, old_alias } => match old_alias {
            Some(old) => "Emote "@ + emote.alias@ + " updated in the channel (was "@ + old@ + ")"@,
            None => "Emote "@ + emote.alias@ + " updated in the channel"@,
        },
        SevenTvSystemMessage::SetChanged { set_name } => "7TV emote set changed: "@ + set_name@,
        SevenTvSystemMessage::SetRenamed { old_name, new_name } => "7TV emote set renamed: "@
            + old_name@ + " → "@ + new_name@,
        SevenTvSystemMessage::SetDeleted { set_name } => "7TV emote set deleted: "@ + set_name@,
    }
}

/// The emote a 7TV notice shows: the one added, removed or updated, under its alias, with no
/// positions; none for a change to the emote set.
pub open spec fn seven_tv_notice_emotes(message: SevenTvSystemMessage) -> Seq<EmoteView> {
    match message {
        SevenTvSystemMessage::Added { emote, .. } => seq![
            (emote.id@, emote.alias@, emote.image_url@, Seq::empty(), Some(emote.aspect_ratio_bits)),
        ],
        SevenTvSystemMessage::Removed { emote, .. } => seq![
            (emote.id@, emote.alias@, emote.image_url@, Seq::empty(), Some(emote.aspect_ratio_bits)),
        ],
        SevenTvSystemMessage::Updated { emote, .. } => seq![
            (emote.id@, emote.alias@, emote.image_url@, Seq::empty(), Some(emote.aspect_ratio_bits)),
        ],
        _ => Seq::empty(),
    }
}

/// A preview emote for a 7TV notice.
fn notice_emote(emote: &crate::protocol::messages::SevenTvEmote) -> (r: Vec<Emote>)
    ensures
        r@.len() == 1,
        r@[0]@ == (emote.id@, emote.alias@, emote.image_url@, Seq::<crate::protocol::types::EmotePosition>::empty(), Some(emote.aspect_ratio_bits)),
{
    let mut v: Vec<Emote> = Vec::new();
    v.push(Emote {
        id: emote.id.clone(),
        name: emote.alias.clone(),
        image_url: emote.image_url.clone(),
        positions: Vec::new(),
        aspect_ratio_bits: Some(emote.aspect_ratio_bits),
    });
    v
}

/// The text and preview emotes of a 7TV notice.
pub fn seven_tv_system_message_data(message: &SevenTvSystemMessage) -> (r: (String, Vec<Emote>))
    ensures
        r.0@ == seven_tv_notice_text(*message),
        crate::protocol::types::emotes_view(r.1@) == seven_tv_notice_emotes(*message),
{
    let (text, emotes) = match message {
        SevenTvSystemMessage::Added { emote, .. } => {
            let mut t = owned("Emote ");
            push_str(&mut t, emote.alias.as_str());
            push_str(&mut t, " added to the channel");
            (t, notice_emote(emote))
        },
        SevenTvSystemMessage::Removed { emote, .. } => {
            let mut t = owned("Emote ");
            push_str(&mut t, emote.alias.as_str());
            push_str(&mut t, " removed from the channel");
            (t, notice_emote(emote))
        },
        SevenTvSystemMessage::Updated { emote, old_alias } => {
            let mut t = owned("Emote ");
            push_str(&mut t, emote.alias.as_str());
            match old_alias {
                Some(old) => {
                    push_str(&mut t, " updated in the channel (was ");
                    push_str(&mut t, old.as_str());
                    push_str(&mut t, ")");
                },
                None => {
                    push_str(&mut t, " updated in the channel");
                },
            }
            (t, notice_emote(emote))
        },
        SevenTvSystemMessage::SetChanged { set_name } => {
            let mut t = owned("7TV emote set changed: ");
            push_str(&mut t, set_name.as_str());
            (t, Vec::new())
        },
        SevenTvSystemMessage::SetRenamed { old_name, new_name } => {
            let mut t = owned("7TV emote set renamed: ");
            push_str(&mut t, old_name.as_str());
            push_str(&mut t, " → ");
            push_str(&mut t, new_name.as_str());
            (t, Vec::new())
        },
        SevenTvSystemMessage::SetDeleted { set_name } => {
            let mut t = owned("7TV emote set deleted: ");
            push_str(&mut t, set_name.as_str());
            (t, Vec::new())
        },
    };
    proof {
        assert(crate::protocol::types::emotes_view(emotes@) =~= seven_tv_notice_emotes(*message));
    }
    (text, emotes)
}

/// A message of the channel `message_channel_id` belongs to the 7TV channel
/// `seven_tv_channel_id` when the ids are the same, or when a watched channel of the platform
/// has that id and that slug.
pub open spec fn matches_seven_tv_channel(
    watched_channels: Seq<WatchedChannel>,
    platform: Platform,
    message_channel_id: Seq<char>,
    seven_tv_channel_id: Seq<char>,
) -> bool {
    ||| message_channel_id == seven_tv_channel_id
    ||| exists|i: int|
        0 <= i < watched_channels.len() && (#[trigger] watched_channels[i]).platform == platform
            && watched_channels[i].channel_slug@ == seven_tv_channel_id
            && watched_channels[i].id@ == message_channel_id
}

/// Whether a message belongs to a 7TV channel ([`matches_seven_tv_channel`]).
pub fn message_matches_seven_tv_channel(
    watched_channels: &Vec<WatchedChannel>,
    platform: Platform,
    message_channel_id: &str,
    seven_tv_channel_id: &str,
) -> (r: bool)
    ensures
        r == matches_seven_tv_channel(
            watched_channels@,
            platform,
            message_channel_id@,
            seven_tv_channel_id@,
        ),
{
    if str_eq(message_channel_id, seven_tv_channel_id) {
        return true;
    }
    let mut i: usize = 0;
    while i < watched_channels.len()
        invariant
            i <= watched_channels@.len(),
            forall|j: int|
                0 <= j < i ==> !((#[trigger] watched_channels@[j]).platform == platform
                    && watched_channels@[j].channel_slug@ == seven_tv_channel_id@
                    && watched_channels@[j].id@ == message_channel_id@),
        decreases watched_channels@.len() - i,
    {
        let channel = &watched_channels[i];
        if channel.platform == platform && str_eq(channel.channel_slug.as_str(), seven_tv_channel_id)
            && str_eq(channel.id.as_str(), message_channel_id) {
            return true;
        }
        i = i + 1;
    }
    false
}

/// An emote served by 7TV: its image address mentions `7tv`.
pub fn is_seven_tv_emote(emote: &Emote) -> (r: bool)
    ensures
        r == (contains_seq(emote.image_url@, "7tv"@) || contains_seq(emote.image_url@, "/proxy/7tv/"@)),
{
    str_contains(emote.image_url.as_str(), "7tv") || str_contains(
        emote.image_url.as_str(),
        "/proxy/7tv/",
    )
}

/// Channel ids without repeats, ignoring case: each id stays where it first occurs.
pub open spec fn deduped_ids(ids: Seq<Seq<char>>) -> Seq<Seq<char>>
    decreases ids.len(),
{
    if ids.len() == 0 {
        ids
    } else {
        let kept = deduped_ids(ids.drop_last());
        if exists|i: int|
            0 <= i < ids.len() - 1 && unicode_lowercase(#[trigger] ids[i]) == unicode_lowercase(
                ids.last(),
            ) {
            kept
        } else {
            kept.push(ids.last())
        }
    }
}

/// Drops the channel ids that repeat an earlier one, ignoring case ([`deduped_ids`]).
pub fn dedupe_channel_ids(channel_ids: &mut Vec<String>)
    ensures
        strings_view(final(channel_ids)@) == deduped_ids(strings_view(old(channel_ids)@)),
{
    let ghost ids = strings_view(channel_ids@);
    let mut keys: Vec<String> = Vec::new();
    let mut i: usize = 0;
    while i < channel_ids.len()
        invariant
            i <= channel_ids@.len(),
            ids == strings_view(channel_ids@),
            keys@.len() == i,
            forall|j: int| 0 <= j < i ==> (#[trigger] keys@[j])@ == unicode_lowercase(ids[j]),
        decreases channel_ids@.len() - i,
    {
        let k = to_lowercase(channel_ids[i].as_str());
        keys.push(k);
        i = i + 1;
    }
    let mut out: Vec<String> = Vec::new();
    let mut i: usize = 0;
    while i < channel_ids.len()
        invariant
            i <= channel_ids@.len(),
            ids == strings_view(channel_ids@),
            keys@.len() == channel_ids@.len(),
            forall|j: int| 0 <= j < keys@.len() ==> (#[trigger] keys@[j])@ == unicode_lowercase(ids[j]),
            strings_view(out@) == deduped_ids(ids.take(i as int)),
        decreases channel_ids@.len() - i,
    {
        let mut j: usize = 0;
        let mut repeated = false;
        while j < i
            invariant
                j <= i < keys@.len(),
                forall|j2: int| 0 <= j2 < keys@.len() ==> (#[trigger] keys@[j2])@ == unicode_lowercase(ids[j2]),
                repeated <==> exists|k: int| 0 <= k < j && unicode_lowercase(#[trigger] ids[k]) == unicode_lowercase(ids[i as int]),
            decreases i - j,
        {
            if str_eq(keys[j].as_str(), keys[i].as_str()) {
                repeated = true;
            }
            proof {
                if !repeated {
                    assert forall|k: int| 0 <= k < j + 1 implies unicode_lowercase(#[trigger] ids[k]) != unicode_lowercase(ids[i as int]) by {
                        if k == j {
                            assert(keys@[j as int]@ == unicode_lowercase(ids[j as int]));
                        }
                    }
                } else {
                    if !(exists|k: int| 0 <= k < j && unicode_lowercase(#[trigger] ids[k]) == unicode_lowercase(ids[i as int])) {
                        assert(keys@[j as int]@ == unicode_lowercase(ids[j as int]));
                        assert(unicode_lowercase(ids[j as int]) == unicode_lowercase(ids[i as int]));
                    }
                }
            }
            j = j + 1;
        }
        let ghost t = ids.take(i + 1);
        proof {
            assert(t.drop_last() =~= ids.take(i as int));
            assert(t.last() == ids[i as int]);
            assert forall|k: int| 0 <= k < t.len() - 1 implies t[k] == ids[k] by {}
        }
        if !repeated {
            let ghost old_out = out@;
            out.push(channel_ids[i].clone());
            proof {
                assert(strings_view(out@) =~= strings_view(old_out).push(ids[i as int]));
            }
        }
        i = i + 1;
    }
    proof {
        assert(ids.take(i as int) =~= ids);
    }
    *channel_ids = out;
}

/// The 7TV emote of the chat's catalogue for an emote the backend reports: shown under its
/// alias.
pub fn map_backend_seven_tv_emote(emote: crate::protocol::messages::SevenTvEmote) -> (r:
    crate::chat::aggregate::SevenTvEmote)
    ensures
        r.id == emote.id,
        r.name == emote.alias,
        r.image_url == emote.image_url,
        r.animated == emote.animated,
        r.zero_width == emote.zero_width,
        r.aspect_ratio_bits == emote.aspect_ratio_bits,
{
    crate::chat::aggregate::SevenTvEmote {
        id: emote.id,
        name: emote.alias,
        image_url: emote.image_url,
        animated: emote.animated,
        zero_width: emote.zero_width,
        aspect_ratio_bits: emote.aspect_ratio_bits,
    }
}

/// The image of the first badge of `source` that has the id `id` and an image.
pub open spec fn source_image(source: Seq<crate::protocol::types::BadgeView>, id: Seq<char>) -> Option<Seq<char>>
    decreases source.len(),
{
    if source.len() == 0 {
        None
    } else if source[0].0 == id && source[0].3 is Some {
        source[0].3
    } else {
        source_image(source.drop_first(), id)
    }
}

/// A badge without an image takes the image of the first badge of `source` with its id that
/// has one; a badge with an image keeps it.
pub open spec fn backfilled_badge(b: crate::protocol::types::BadgeView, source: Seq<crate::protocol::types::BadgeView>) -> crate::protocol::types::BadgeView {
    if b.3 is None {
        (b.0, b.1, b.2, source_image(source, b.0))
    } else {
        b
    }
}

/// A message of the same platform and channel as `source` has its badges backfilled from the
/// badges of `source`'s author; any other message stays as it is.
pub open spec fn backfilled_message(m: crate::protocol::types::MessageView, source: crate::protocol::types::MessageView) -> crate::protocol::types::MessageView {
    if m.1 == source.1 && m.2 == source.2 {
        let a = m.3;
        (
            m.0,
            m.1,
            m.2,
            (a.0, a.1, a.2, a.3, a.4, Seq::new(a.5.len(), |i: int| backfilled_badge(a.5[i], source.3.5))),
            m.4,
            m.5,
            m.6,
            m.7,
            m.8,
        )
    } else {
        m
    }
}

/// Finds the image of the first badge of `source` with id `id` that has one.
fn find_source_image(source: &Vec<crate::protocol::types::Badge>, id: &str) -> (r: Option<String>)
    ensures
        crate::protocol::types::opt_seq(r) == source_image(crate::protocol::types::badges_view(source@), id@),
{
    let ghost bv = crate::protocol::types::badges_view(source@);
    let mut i: usize = 0;
    assert(bv.skip(0) =~= bv);
    while i < source.len()
        invariant
            i <= source@.len(),
            bv == crate::protocol::types::badges_view(source@),
            source_image(bv, id@) == source_image(bv.skip(i as int), id@),
        decreases source@.len() - i,
    {
        let ghost rest = bv.skip(i as int);
        assert(rest[0] == source@[i as int]@);
        assert(rest.drop_first() =~= bv.skip(i + 1));
        if str_eq(source[i].id.as_str(), id) {
            match &source[i].image_url {
                Some(u) => {
                    return Some(u.clone());
                },
                None => {},
            }
        }
        i = i + 1;
    }
    None
}

/// The badges of `badges`, each backfilled from `source` ([`backfilled_badge`]).
fn backfill_badges(
    badges: &Vec<crate::protocol::types::Badge>,
    source: &Vec<crate::protocol::types::Badge>,
) -> (r: Vec<crate::protocol::types::Badge>)
    ensures
        crate::protocol::types::badges_view(r@) == Seq::new(
            badges@.len(),
            |i: int| backfilled_badge(badges@[i]@, crate::protocol::types::badges_view(source@)),
        ),
{
    let ghost sv = crate::protocol::types::badges_view(source@);
    let mut out: Vec<crate::protocol::types::Badge> = Vec::new();
    let mut i: usize = 0;
    while i < badges.len()
        invariant
            i <= badges@.len(),
            sv == crate::protocol::types::badges_view(source@),
            out@.len() == i,
            crate::protocol::types::badges_view(out@) == Seq::new(
                i as nat,
                |k: int| backfilled_badge(badges@[k]@, sv),
            ),
        decreases badges@.len() - i,
    {
        let mut b = badges[i].clone();
        if b.image_url.is_none() {
            b.image_url = find_source_image(source, b.id.as_str());
        }
        assert(b@ == backfilled_badge(badges@[i as int]@, sv));
        let ghost old_out = out@;
        out.push(b);
        proof {
            assert(crate::protocol::types::badges_view(out@) =~= Seq::new(
                (i + 1) as nat,
                |k: int| backfilled_badge(badges@[k]@, sv),
            )) by {
                assert forall|k: int| 0 <= k < i + 1 implies #[trigger] crate::protocol::types::badges_view(out@)[k] == backfilled_badge(badges@[k]@, sv) by {
                    if k < i {
                        assert(old_out[k] == out@[k]);
                        assert(crate::protocol::types::badges_view(old_out)[k] == backfilled_badge(badges@[k]@, sv));
                    }
                }
            }
        }
        i = i + 1;
    }
    out
}

/// Gives the badges without an image, in the messages of `source`'s platform and channel, the
/// image of a badge of `source`'s author with the same id ([`backfilled_message`]).
pub fn backfill_badge_images(messages: &mut Vec<NormalizedChatMessage>, source: &NormalizedChatMessage)
    ensures
        crate::chat::history::views(final(messages)@) == Seq::new(
            old(messages)@.len(),
            |i: int| backfilled_message(old(messages)@[i]@, source@),
        ),
{
    let ghost before = messages@;
    let mut out: Vec<NormalizedChatMessage> = Vec::new();
    let mut i: usize = 0;
    while i < messages.len()
        invariant
            i <= messages@.len(),
            before == messages@,
            out@.len() == i,
            crate::chat::history::views(out@) == Seq::new(
                i as nat,
                |k: int| backfilled_message(before[k]@, source@),
            ),
        decreases messages@.len() - i,
    {
        let mut m = messages[i].clone();
        assert(m@ == before[i as int]@);
        if m.platform == source.platform && str_eq(m.channel_id.as_str(), source.channel_id.as_str()) {
            let badges = backfill_badges(&m.author.badges, &source.author.badges);
            m.author.badges = badges;
        }
        proof {
            assert(m@ =~~= backfilled_message(before[i as int]@, source@));
        }
        let ghost old_out = out@;
        out.push(m);
        proof {
            assert(crate::chat::history::views(out@) =~= Seq::new(
                (i + 1) as nat,
                |k: int| backfilled_message(before[k]@, source@),
            )) by {
                assert forall|k: int| 0 <= k < i + 1 implies #[trigger] crate::chat::history::views(out@)[k] == backfilled_message(before[k]@, source@) by {
                    if k < i {
                        assert(old_out[k] == out@[k]);
                        assert(crate::chat::history::views(old_out)[k] == backfilled_message(before[k]@, source@));
                    }
                }
            }
        }
        i = i + 1;
    }
    *messages = out;
}

/// The author of the message shows a badge with an image.
pub open spec fn has_badge_image(m: crate::protocol::types::MessageView) -> bool {
    exists|i: int| 0 <= i < m.3.5.len() && (#[trigger] m.3.5[i]).3 is Some
}

/// The messages whose author shows a badge with an image, in order.
pub open spec fn image_sources(ms: Seq<crate::protocol::types::MessageView>) -> Seq<crate::protocol::types::MessageView>
    decreases ms.len(),
{
    if ms.len() == 0 {
        ms
    } else {
        let kept = image_sources(ms.drop_last());
        if has_badge_image(ms.last()) {
            kept.push(ms.last())
        } else {
            kept
        }
    }
}

/// Every message backfilled from `source` ([`backfilled_message`]).
pub open spec fn backfill_from(ms: Seq<crate::protocol::types::MessageView>, source: crate::protocol::types::MessageView) -> Seq<crate::protocol::types::MessageView> {
    Seq::new(ms.len(), |i: int| backfilled_message(ms[i], source))
}

/// The messages backfilled from each of `sources` in turn.
pub open spec fn backfill_all(ms: Seq<crate::protocol::types::MessageView>, sources: Seq<crate::protocol::types::MessageView>) -> Seq<crate::protocol::types::MessageView>
    decreases sources.len(),
{
    if sources.len() == 0 {
        ms
    } else {
        backfill_from(backfill_all(ms, sources.drop_last()), sources.last())
    }
}

/// Whether the message's author shows a badge with an image.
fn shows_badge_image(m: &NormalizedChatMessage) -> (r: bool)
    ensures
        r == has_badge_image(m@),
{
    let mut i: usize = 0;
    while i < m.author.badges.len()
        invariant
            i <= m.author.badges@.len(),
            forall|k: int| 0 <= k < i ==> (#[trigger] m@.3.5[k]).3 is None,
        decreases m.author.badges@.len() - i,
    {
        assert(m@.3.5[i as int] == m.author.badges@[i as int]@);
        if m.author.badges[i].image_url.is_some() {
            return true;
        }
        i = i + 1;
    }
    false
}

/// Backfills badge images across a snapshot of messages: each message whose author shows a
/// badge with an image (as the snapshot was), in order, lends its images to the messages of its
/// platform and channel ([`backfill_badge_images`]).
pub fn hydrate_badge_images_from_snapshot(messages: &mut Vec<NormalizedChatMessage>)
    ensures
        crate::chat::history::views(final(messages)@) == backfill_all(
            crate::chat::history::views(old(messages)@),
            image_sources(crate::chat::history::views(old(messages)@)),
        ),
{
    let ghost start = crate::chat::history::views(messages@);
    let mut sources: Vec<NormalizedChatMessage> = Vec::new();
    let mut i: usize = 0;
    while i < messages.len()
        invariant
            i <= messages@.len(),
            start == crate::chat::history::views(messages@),
            crate::chat::history::views(sources@) == image_sources(start.take(i as int)),
        decreases messages@.len() - i,
    {
        proof {
            assert(start.take(i + 1).drop_last() =~= start.take(i as int));
            assert(start.take(i + 1).last() == messages@[i as int]@);
        }
        if shows_badge_image(&messages[i]) {
            let c = messages[i].clone();
            assert(c@ == messages@[i as int]@);
            let ghost old_sources = sources@;
            sources.push(c);
            proof {
                assert(crate::chat::history::views(sources@) =~= crate::chat::history::views(old_sources).push(c@));
            }
        }
        i = i + 1;
    }
    proof {
        assert(start.take(i as int) =~= start);
    }
    let ghost srcs = crate::chat::history::views(sources@);
    let mut j: usize = 0;
    proof {
        assert(srcs.take(0) =~= Seq::<crate::protocol::types::MessageView>::empty());
    }
    while j < sources.len()
        invariant
            j <= sources@.len(),
            srcs == crate::chat::history::views(sources@),
            crate::chat::history::views(messages@) == backfill_all(start, srcs.take(j as int)),
        decreases sources@.len() - j,
    {
        let ghost before = messages@;
        backfill_badge_images(messages, &sources[j]);
        proof {
            assert(srcs.take(j + 1).drop_last() =~= srcs.take(j as int));
            assert(srcs.take(j + 1).last() == sources@[j as int]@);
            assert(crate::chat::history::views(messages@) =~= backfill_from(
                crate::chat::history::views(before),
                sources@[j as int]@,
            ));
        }
        j = j + 1;
    }
    proof {
        assert(srcs.take(j as int) =~= srcs);
    }
}

/// No two ids of `ids` are the same ignoring case.
pub open spec fn distinct_ignoring_case(ids: Seq<Seq<char>>) -> bool {
    forall|i: int, j: int|
        0 <= i < j < ids.len() ==> unicode_lowercase(#[trigger] ids[i]) != unicode_lowercase(#[trigger] ids[j])
}

proof fn lemma_deduped_ids(ids: Seq<Seq<char>>)
    ensures
        distinct_ignoring_case(deduped_ids(ids)),
        forall|k: int| 0 <= k < deduped_ids(ids).len() ==> exists|i: int| 0 <= i < ids.len() && #[trigger] deduped_ids(ids)[k] == ids[i],
    decreases ids.len(),
{
    if ids.len() > 0 {
        let p = ids.drop_last();
        lemma_deduped_ids(p);
        let kept = deduped_ids(p);
        let d = deduped_ids(ids);
        assert forall|k: int| 0 <= k < d.len() implies exists|i: int| 0 <= i < ids.len() && #[trigger] d[k] == ids[i] by {
            if k < kept.len() {
                let i = choose|i: int| 0 <= i < p.len() && kept[k] == p[i];
                assert(d[k] == kept[k] && p[i] == ids[i]);
            } else {
                assert(d[k] == ids[ids.len() - 1]);
            }
        }
        if !(exists|i: int| 0 <= i < ids.len() - 1 && unicode_lowercase(#[trigger] ids[i]) == unicode_lowercase(ids.last())) {
            assert forall|i: int, j: int| 0 <= i < j < d.len() implies unicode_lowercase(#[trigger] d[i]) != unicode_lowercase(#[trigger] d[j]) by {
                if j == d.len() - 1 {
                    let m = choose|m: int| 0 <= m < p.len() && kept[i] == p[m];
                    assert(p[m] == ids[m]);
                    assert(d[i] == kept[i]);
                } else {
                    assert(d[i] == kept[i] && d[j] == kept[j]);
                }
            }
        }
    }
}

proof fn lemma_deduped_distinct(ids: Seq<Seq<char>>)
    requires
        distinct_ignoring_case(ids),
    ensures
        deduped_ids(ids) == ids,
    decreases ids.len(),
{
    if ids.len() > 0 {
        let p = ids.drop_last();
        assert forall|i: int, j: int| 0 <= i < j < p.len() implies unicode_lowercase(#[trigger] p[i]) != unicode_lowercase(#[trigger] p[j]) by {
            assert(p[i] == ids[i] && p[j] == ids[j]);
        }
        lemma_deduped_distinct(p);
        assert forall|i: int| 0 <= i < ids.len() - 1 implies unicode_lowercase(#[trigger] ids[i]) != unicode_lowercase(ids.last()) by {
            assert(unicode_lowercase(ids[i]) != unicode_lowercase(ids[ids.len() - 1]));
        }
        assert(p.push(ids.last()) =~= ids);
    }
}

/// Dropping repeated channel ids leaves no two ids that are the same ignoring case, and doing
/// it again changes nothing.
pub proof fn dedupe_channel_ids_is_idempotent(ids: Seq<Seq<char>>)
    ensures
        distinct_ignoring_case(deduped_ids(ids)),
        deduped_ids(deduped_ids(ids)) == deduped_ids(ids),
{
    lemma_deduped_ids(ids);
    lemma_deduped_distinct(deduped_ids(ids));
}

/// Backfilling badge images from the same message twice changes nothing the second time.
pub proof fn backfill_is_idempotent(ms: Seq<crate::protocol::types::MessageView>, source: crate::protocol::types::MessageView)
    ensures
        backfill_from(backfill_from(ms, source), source) == backfill_from(ms, source),
{
    let once = backfill_from(ms, source);
    assert forall|i: int| 0 <= i < ms.len() implies #[trigger] backfilled_message(once[i], source) == once[i] by {
        let m = ms[i];
        if m.1 == source.1 && m.2 == source.2 {
            let b1 = once[i].3.5;
            let b2 = backfilled_message(once[i], source).3.5;
            assert(b2 =~= b1) by {
                assert forall|k: int| 0 <= k < b1.len() implies b2[k] == b1[k] by {
                    let b = m.3.5[k];
                    assert(b1[k] == backfilled_badge(b, source.3.5));
                }
            }
        }
    }
    assert(backfill_from(once, source) =~= once);
}

/// Where `id` first occurs among `ids`, if it does.
pub open spec fn tab_position(ids: Seq<String>, id: Seq<char>) -> Option<int>
    decreases ids.len(),
{
    if ids.len() == 0 {
        None
    } else if ids[0]@ == id {
        Some(0)
    } else {
        match tab_position(ids.drop_first(), id) {
            Some(j) => Some(j + 1),
            None => None,
        }
    }
}

proof fn lemma_tab_position(ids: Seq<String>, id: Seq<char>, i: int)
    requires
        0 <= i <= ids.len(),
        forall|j: int| 0 <= j < i ==> (#[trigger] ids[j])@ != id,
        i < ids.len() ==> ids[i]@ == id,
    ensures
        tab_position(ids, id) == if i < ids.len() {
            Some(i)
        } else {
            None::<int>
        },
    decreases i,
{
    if i > 0 {
        assert forall|j: int| 0 <= j < i - 1 implies (#[trigger] ids.drop_first()[j])@ != id by {
            assert(ids.drop_first()[j] == ids[j + 1]);
        }
        if i < ids.len() {
            assert(ids.drop_first()[i - 1] == ids[i]);
        }
        lemma_tab_position(ids.drop_first(), id, i - 1);
    }
}

/// Where `id` first occurs among `ids`.
fn find_tab(ids: &Vec<String>, id: &str) -> (r: Option<usize>)
    ensures
        match r {
            Some(i) => tab_position(ids@, id@) == Some(i as int) && i < ids@.len(),
            None => tab_position(ids@, id@) is None,
        },
{
    let mut i: usize = 0;
    while i < ids.len()
        invariant
            i <= ids@.len(),
            forall|j: int| 0 <= j < i ==> (#[trigger] ids@[j])@ != id@,
        decreases ids@.len() - i,
    {
        if crate::text::str_eq(ids[i].as_str(), id) {
            proof {
                lemma_tab_position(ids@, id@, i as int);
            }
            return Some(i);
        }
        i = i + 1;
    }
    proof {
        lemma_tab_position(ids@, id@, i as int);
    }
    None
}

/// The tab order after dragging the tab `from` onto the tab `to`: `from` leaves its place and
/// lands where `to` was (counted after `from` left); nothing when they are the same or either
/// is missing.
pub open spec fn reordered_tabs(ids: Seq<String>, from: Seq<char>, to: Seq<char>) -> Option<Seq<String>> {
    if from == to {
        None
    } else {
        match (tab_position(ids, from), tab_position(ids, to)) {
            (Some(f), Some(t)) => Some(
                ids.remove(f).insert(
                    if f < t {
                        t - 1
                    } else {
                        t
                    },
                    ids[f],
                ),
            ),
            _ => None,
        }
    }
}

/// Moves the tab `from_id` to where the tab `to_id` is, as dragging a tab onto another does;
/// `None` when the two are the same or either is not among `ids`.
pub fn reorder_tab_ids(ids: &Vec<String>, from_id: &str, to_id: &str) -> (r: Option<Vec<String>>)
    ensures
        match r {
            Some(v) => reordered_tabs(ids@, from_id@, to_id@) == Some(v@),
            None => reordered_tabs(ids@, from_id@, to_id@) is None,
        },
{
    if crate::text::str_eq(from_id, to_id) {
        return None;
    }
    let from_index = match find_tab(ids, from_id) {
        Some(i) => i,
        None => return None,
    };
    let mut to_index = match find_tab(ids, to_id) {
        Some(i) => i,
        None => return None,
    };
    let mut out = ids.clone();
    assert(out@ == ids@);
    let moved = out.remove(from_index);
    if from_index < to_index {
        to_index = to_index - 1;
    }
    out.insert(to_index, moved);
    Some(out)
}

/// The place `direction` steps from `current` among `len` places, wrapping around at both
/// ends.
pub open spec fn cycled(len: int, current: int, direction: int) -> int {
    (current + direction) % len
}

/// The place `direction` steps from `current` among `len` places, wrapping around.
pub fn cycle_index(len: usize, current: usize, direction: i32) -> (r: usize)
    requires
        0 < len,
        current < len,
    ensures
        r as int == cycled(len as int, current as int, direction as int),
        r < len,
{
    let n: u128 = len as u128;
    let c: u128 = current as u128;
    if direction >= 0 {
        let d: u128 = direction as u128;
        let r: u128 = (c + d % n) % n;
        proof {
            vstd::arithmetic::div_mod::lemma_add_mod_noop_right(c as int, d as int, n as int);
        }
        r as usize
    } else {
        let magnitude: u128 = (0i64 - direction as i64) as u128;
        let a: u128 = magnitude % n;
        let r: u128 = (c + n - a) % n;
        proof {
            let ci = c as int;
            let ni = n as int;
            let mi = magnitude as int;
            vstd::arithmetic::div_mod::lemma_mod_add_multiples_vanish(ci - a as int, ni);
            vstd::arithmetic::div_mod::lemma_sub_mod_noop(ci, mi, ni);
            vstd::arithmetic::div_mod::lemma_small_mod(c as nat, n as nat);
            vstd::arithmetic::div_mod::lemma_mod_bound(mi, ni);
            assert(ci + ni - a as int == ni + (ci - a as int));
            assert((ci - a as int) % ni == (ci - mi) % ni);
            assert(ci - mi == ci + direction as int);
        }
        r as usize
    }
}

/// The tab `direction` steps from the active one (the first when the active one is not
/// listed), wrapping around; nothing when there is at most one tab.
pub open spec fn cycled_tab(tab_ids: Seq<String>, active: Seq<char>, direction: int) -> Option<Seq<char>> {
    if tab_ids.len() <= 1 {
        None
    } else {
        let current = match tab_position(tab_ids, active) {
            Some(i) => i,
            None => 0,
        };
        Some(tab_ids[cycled(tab_ids.len() as int, current, direction)]@)
    }
}

/// The tab a cycling hotkey moves to from `active`, `direction` steps through `tab_ids`.
pub fn cycle_tab(tab_ids: &Vec<String>, active: &str, direction: i32) -> (r: Option<String>)
    ensures
        match r {
            Some(t) => cycled_tab(tab_ids@, active@, direction as int) == Some(t@),
            None => cycled_tab(tab_ids@, active@, direction as int) is None,
        },
{
    if tab_ids.len() <= 1 {
        return None;
    }
    let current = match find_tab(tab_ids, active) {
        Some(i) => i,
        None => 0,
    };
    let next = cycle_index(tab_ids.len(), current, direction);
    Some(tab_ids[next].clone())
}

} // verus!
