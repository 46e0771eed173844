//! One poll of the Kick adapter: a reconnect attempt when one is due, or what the client has
//! received since the last poll, each item in the form shared by every platform.
use crate::platforms::kick::adapter::{
    avatar_lookup_parts, avatar_lookup_spec, backed_off, kick_avatar_cache_key, kick_connect_outcome, kick_emotes_spec, kick_reply_spec, non_blank,
    normalize_avatar_url, normalize_reply, parse_kick_emotes, reauth_reason, KickAdapter, KickAdapterError,
    KickAdapterErrorKind, KickAuthState, KickAvatarLookupRequest, KickBadge, KickBannedUser, KickChatClient,
    KickChatMessage, KickChatroom, KickFollowEvent, KickMessageSender, KickParsedEmote, KickParsedEmoteView,
    KickSubscriptionEvent, KickUserBannedEvent, KickUserUnbannedEvent,
};
use crate::platforms::{key_index, lookup, lookup_exec, upsert_keyed};
use crate::platforms::{emit_all, PlatformError, PlatformEvent, PlatformEventSink};
use crate::protocol::types::{
    insert_json_number, insert_json_text, json_fields, new_json_object, BadgeView, ChatAuthor, ChatAuthorView,
    ChatMessageType, ChatReplyView, Emote, EmotePosition, EmoteView, EventUser, MessageView, Badge,
    badges_view, emotes_view,
    JsonField, NormalizedChatMessage, NormalizedEvent, NormalizedEventType, Platform, PlatformStatus,
    PlatformStatusInfo, PlatformStatusMode,
};
use crate::text::{decimal, owned, push_str, trim, trimmed, u64_to_string};
use vstd::prelude::*;

verus! {

/// The name a Kick event shows for its user: the display name, or the username when the
/// display name is empty.
pub open spec fn kick_display_name(display_name: Seq<char>, username: Seq<char>) -> Seq<char> {
    if display_name.len() == 0 {
        username
    } else {
        display_name
    }
}

/// The JSON data of a Kick follow: the channel.
pub open spec fn kick_follow_fields(channel_id: u64) -> Map<Seq<char>, JsonField> {
    Map::empty().insert("channelId"@, JsonField::Number(channel_id))
}

/// The JSON data of a Kick subscription: the channel, and its duration and gifter when known.
pub open spec fn kick_sub_fields(channel_id: u64, duration: Option<u64>, gifted_by: Option<Seq<char>>) -> Map<
    Seq<char>,
    JsonField,
> {
    let base = Map::empty().insert("channelId"@, JsonField::Number(channel_id));
    let with_duration = match duration {
        Some(d) => base.insert("duration"@, JsonField::Number(d)),
        None => base,
    };
    match gifted_by {
        Some(g) => with_duration.insert("giftedBy"@, JsonField::Text(g)),
        None => with_duration,
    }
}

/// The characters of an optional string.
pub open spec fn opt_view(o: Option<String>) -> Option<Seq<char>> {
    match o {
        Some(s) => Some(s@),
        None => None,
    }
}

/// A Kick follow in the form shared by every platform.
pub open spec fn kick_follow_normalized(e: KickFollowEvent, r: NormalizedEvent) -> bool {
    &&& r.id@ == "kick:follow:"@ + decimal(e.user_id as nat) + ":"@ + e.followed_at@
    &&& r.platform == Platform::Kick
    &&& r.event_type == NormalizedEventType::Follow
    &&& r.user.id@ == decimal(e.user_id as nat)
    &&& r.user.display_name@ == kick_display_name(e.display_name@, e.username@)
    &&& r.user.avatar_url == e.avatar_url
    &&& json_fields(r.data) == kick_follow_fields(e.channel_id)
    &&& r.timestamp == e.followed_at
}

/// A Kick subscription in the form shared by every platform: a gift when it names a gifter.
pub open spec fn kick_sub_normalized(e: KickSubscriptionEvent, r: NormalizedEvent) -> bool {
    &&& r.id@ == "kick:sub:"@ + decimal(e.user_id as nat) + ":"@ + e.created_at@
    &&& r.platform == Platform::Kick
    &&& r.event_type == (if e.gifted_by is Some {
        NormalizedEventType::GiftSub
    } else {
        NormalizedEventType::Sub
    })
    &&& r.user.id@ == decimal(e.user_id as nat)
    &&& r.user.display_name@ == kick_display_name(e.display_name@, e.username@)
    &&& r.user.avatar_url == e.avatar_url
    &&& json_fields(r.data) == kick_sub_fields(e.channel_id, e.duration, opt_view(e.gifted_by))
    &&& r.timestamp == e.created_at
}

/// A Kick follow in the form shared by every platform.
pub fn normalize_follow_event(event: KickFollowEvent) -> (r: NormalizedEvent)
    ensures
        kick_follow_normalized(event, r),
{
    let user_id = u64_to_string(event.user_id);
    let mut id = owned("kick:follow:");
    push_str(&mut id, user_id.as_str());
    push_str(&mut id, ":");
    push_str(&mut id, event.followed_at.as_str());
    let display_name = if event.display_name.as_str().is_empty() {
        event.username
    } else {
        event.display_name
    };
    let mut data = new_json_object();
    insert_json_number(&mut data, "channelId", event.channel_id);
    NormalizedEvent {
        id,
        platform: Platform::Kick,
        event_type: NormalizedEventType::Follow,
        user: EventUser { id: user_id, display_name, avatar_url: event.avatar_url },
        data,
        timestamp: event.followed_at,
    }
}

/// A Kick subscription in the form shared by every platform; one with a gifter is a gift.
pub fn normalize_subscription_event(event: KickSubscriptionEvent) -> (r: NormalizedEvent)
    ensures
        kick_sub_normalized(event, r),
{
    let ghost e = event;
    let user_id = u64_to_string(event.user_id);
    let mut id = owned("kick:sub:");
    push_str(&mut id, user_id.as_str());
    push_str(&mut id, ":");
    push_str(&mut id, event.created_at.as_str());
    let display_name = if event.display_name.as_str().is_empty() {
        event.username
    } else {
        event.display_name
    };
    let event_type = if event.gifted_by.is_some() {
        NormalizedEventType::GiftSub
    } else {
        NormalizedEventType::Sub
    };
    let mut data = new_json_object();
    insert_json_number(&mut data, "channelId", event.channel_id);
    match event.duration {
        Some(d) => insert_json_number(&mut data, "duration", d),
        None => {},
    }
    match event.gifted_by {
        Some(g) => insert_json_text(&mut data, "giftedBy", g),
        None => {},
    }
    NormalizedEvent {
        id,
        platform: Platform::Kick,
        event_type,
        user: EventUser { id: user_id, display_name, avatar_url: event.avatar_url },
        data,
        timestamp: event.created_at,
    }
}

/// Where a ban or unban is shown: its chatroom when it names one, else the broadcaster of the
/// joined chatroom, else the empty channel.
pub open spec fn kick_moderation_channel(chatroom_id: Option<u64>, joined: Option<KickChatroom>) -> Seq<char> {
    match chatroom_id {
        Some(c) => decimal(c as nat),
        None => match joined {
            Some(j) => decimal(j.broadcaster_user_id as nat),
            None => Seq::empty(),
        },
    }
}

/// A system message about `user` with the given id, channel, text and time.
pub open spec fn kick_moderation_message(
    m: NormalizedChatMessage,
    id: Seq<char>,
    channel: Seq<char>,
    user: KickBannedUser,
    text: Seq<char>,
    timestamp: Seq<char>,
) -> bool {
    let author: ChatAuthorView = (
        decimal(user.id as nat),
        Some(user.username@),
        user.username@,
        None::<Seq<char>>,
        None::<Seq<char>>,
        Seq::<BadgeView>::empty(),
    );
    let view: MessageView = (
        id,
        Platform::Kick,
        channel,
        author,
        text,
        Seq::<EmoteView>::empty(),
        timestamp,
        ChatMessageType::System,
        None::<ChatReplyView>,
    );
    m@ == view
}

/// The time a ban is stamped with: when it was made, else when it ends, else `now`.
pub open spec fn kick_ban_timestamp(e: KickUserBannedEvent, now: Seq<char>) -> Seq<char> {
    match e.created_at {
        Some(c) => c@,
        None => match e.expires_at {
            Some(x) => x@,
            None => now,
        },
    }
}

/// The text of a ban: permanent, or for the shown duration.
pub open spec fn kick_ban_text(e: KickUserBannedEvent, duration_text: Seq<char>) -> Seq<char> {
    if e.permanent {
        "[Kick] "@ + e.user.username@ + " was permanently banned"@
    } else {
        "[Kick] "@ + e.user.username@ + " was banned for "@ + duration_text
    }
}

/// A Kick ban as a system message; `duration_text` is how its duration is shown.
pub open spec fn kick_ban_normalized(
    e: KickUserBannedEvent,
    joined: Option<KickChatroom>,
    duration_text: Seq<char>,
    now: Seq<char>,
    m: NormalizedChatMessage,
) -> bool {
    kick_moderation_message(
        m,
        "kick:ban:"@ + decimal(
            (match e.user_id {
                Some(u) => u,
                None => e.user.id,
            }) as nat,
        ) + ":"@ + kick_ban_timestamp(e, now),
        kick_moderation_channel(e.chatroom_id, joined),
        e.user,
        kick_ban_text(e, duration_text),
        kick_ban_timestamp(e, now),
    )
}

/// The time an unban is stamped with: when it was made, else `now`.
pub open spec fn kick_unban_timestamp(e: KickUserUnbannedEvent, now: Seq<char>) -> Seq<char> {
    match e.created_at {
        Some(c) => c@,
        None => now,
    }
}

/// A Kick unban as a system message.
pub open spec fn kick_unban_normalized(
    e: KickUserUnbannedEvent,
    joined: Option<KickChatroom>,
    now: Seq<char>,
    m: NormalizedChatMessage,
) -> bool {
    kick_moderation_message(
        m,
        "kick:unban:"@ + decimal(
            (match e.user_id {
                Some(u) => u,
                None => e.user.id,
            }) as nat,
        ) + ":"@ + kick_unban_timestamp(e, now),
        kick_moderation_channel(e.chatroom_id, joined),
        e.user,
        "[Kick] "@ + e.user.username@ + " was unbanned"@,
        kick_unban_timestamp(e, now),
    )
}

/// The channel a moderation event is shown in.
fn moderation_channel(chatroom_id: Option<u64>, joined: &Option<KickChatroom>) -> (r: String)
    ensures
        r@ == kick_moderation_channel(chatroom_id, *joined),
{
    match chatroom_id {
        Some(c) => u64_to_string(c),
        None => match joined {
            Some(j) => u64_to_string(j.broadcaster_user_id),
            None => String::new(),
        },
    }
}

/// A system message about `user`.
fn moderation_message(id: String, channel_id: String, user: KickBannedUser, text: String, timestamp: String) -> (r:
    NormalizedChatMessage)
    ensures
        kick_moderation_message(r, id@, channel_id@, user, text@, timestamp@),
{
    let user_id = u64_to_string(user.id);
    let username = user.username;
    let display_name = username.clone();
    let r = NormalizedChatMessage {
        id,
        platform: Platform::Kick,
        channel_id,
        author: ChatAuthor {
            id: user_id,
            username: Some(username),
            display_name,
            color: None,
            avatar_url: None,
            badges: Vec::new(),
        },
        text,
        emotes: Vec::new(),
        timestamp,
        message_type: ChatMessageType::System,
        reply: None,
    };
    assert(crate::protocol::types::badges_view(r.author.badges@) =~= Seq::empty());
    assert(crate::protocol::types::emotes_view(r.emotes@) =~= Seq::empty());
    r
}

/// A Kick ban as a system message in `joined`'s channel unless it names its chatroom; stamped
/// `now` when it carries no time. `duration_text` is how the ban's duration is shown.
pub fn normalize_ban_event(
    event: KickUserBannedEvent,
    joined: &Option<KickChatroom>,
    duration_text: &str,
    now: &str,
) -> (r: NormalizedChatMessage)
    ensures
        kick_ban_normalized(event, *joined, duration_text@, now@, r),
{
    let ghost e = event;
    let mut text = owned("[Kick] ");
    push_str(&mut text, event.user.username.as_str());
    if event.permanent {
        push_str(&mut text, " was permanently banned");
    } else {
        push_str(&mut text, " was banned for ");
        push_str(&mut text, duration_text);
    }
    let channel_id = moderation_channel(event.chatroom_id, joined);
    let user_id = match event.user_id {
        Some(u) => u,
        None => event.user.id,
    };
    let timestamp = match event.created_at {
        Some(c) => c,
        None => match event.expires_at {
            Some(x) => x,
            None => owned(now),
        },
    };
    let mut id = owned("kick:ban:");
    let uid = u64_to_string(user_id);
    push_str(&mut id, uid.as_str());
    push_str(&mut id, ":");
    push_str(&mut id, timestamp.as_str());
    moderation_message(id, channel_id, event.user, text, timestamp)
}

/// A Kick unban as a system message in `joined`'s channel unless it names its chatroom;
/// stamped `now` when it carries no time.
pub fn normalize_unban_event(event: KickUserUnbannedEvent, joined: &Option<KickChatroom>, now: &str) -> (r:
    NormalizedChatMessage)
    ensures
        kick_unban_normalized(event, *joined, now@, r),
{
    let ghost e = event;
    let mut text = owned("[Kick] ");
    push_str(&mut text, event.user.username.as_str());
    push_str(&mut text, " was unbanned");
    let channel_id = moderation_channel(event.chatroom_id, joined);
    let user_id = match event.user_id {
        Some(u) => u,
        None => event.user.id,
    };
    let timestamp = match event.created_at {
        Some(c) => c,
        None => owned(now),
    };
    let mut id = owned("kick:unban:");
    let uid = u64_to_string(user_id);
    push_str(&mut id, uid.as_str());
    push_str(&mut id, ":");
    push_str(&mut id, timestamp.as_str());
    moderation_message(id, channel_id, event.user, text, timestamp)
}

/// A Kick badge as shown: its type is its id, and its image is the one `images` gives its type.
pub open spec fn kick_badge_view(b: KickBadge, images: Seq<(String, String)>) -> BadgeView {
    (b.badge_type@, b.badge_type@, b.text@, lookup(images, b.badge_type@))
}

/// A parsed Kick emote as shown: one position, no aspect ratio.
pub open spec fn kick_emote_view(p: KickParsedEmoteView) -> EmoteView {
    (p.0, p.1, p.2, seq![EmotePosition { start: p.3, end: p.4 }], None)
}

/// The name shown for a Kick author: the username, else the slug, else the id, skipping blank
/// ones.
pub open spec fn kick_author_display(sender: KickMessageSender) -> Seq<char> {
    if trim(sender.username@).len() > 0 {
        sender.username@
    } else if trim(sender.slug@).len() > 0 {
        sender.slug@
    } else {
        decimal(sender.id as nat)
    }
}

/// The channel a Kick message is shown in: the broadcaster of the joined chatroom, else the
/// message's own chatroom.
pub open spec fn kick_message_channel(m: KickChatMessage, joined: Option<KickChatroom>) -> Seq<char> {
    match joined {
        Some(j) => decimal(j.broadcaster_user_id as nat),
        None => decimal(m.chatroom_id as nat),
    }
}

/// A Kick chat message in the form shared by every platform, with the author's avatar
/// `avatar` and badge images from `images`: inline emote tags become their names and are
/// listed as emotes.
pub open spec fn kick_message_view(
    m: KickChatMessage,
    joined: Option<KickChatroom>,
    images: Seq<(String, String)>,
    avatar: Option<Seq<char>>,
) -> MessageView {
    let parsed = kick_emotes_spec(m.content@, Seq::empty());
    let badges = m.sender.identity.badges@;
    (
        m.id@,
        Platform::Kick,
        kick_message_channel(m, joined),
        (
            decimal(m.sender.id as nat),
            Some(m.sender.username@),
            kick_author_display(m.sender),
            opt_view(m.sender.identity.color),
            avatar,
            Seq::new(badges.len(), |i: int| kick_badge_view(badges[i], images)),
        ),
        parsed.0,
        Seq::new(parsed.1.len(), |i: int| kick_emote_view(parsed.1[i])),
        m.created_at@,
        ChatMessageType::Message,
        kick_reply_spec(m.message_type, m.metadata),
    )
}

/// The badges of a Kick author as shown, with images from `images`.
fn normalize_badges(badges: Vec<KickBadge>, images: &Vec<(String, String)>) -> (r: Vec<Badge>)
    ensures
        badges_view(r@) == Seq::new(badges@.len(), |i: int| kick_badge_view(badges@[i], images@)),
{
    let ghost all = badges@;
    let mut out: Vec<Badge> = Vec::new();
    let mut i: usize = 0;
    while i < badges.len()
        invariant
            i <= badges@.len(),
            badges@ == all,
            out@.len() == i,
            forall|j: int| 0 <= j < i ==> #[trigger] out@[j]@ == kick_badge_view(all[j], images@),
        decreases badges@.len() - i,
    {
        let b = &badges[i];
        let image_url = lookup_exec(images, b.badge_type.as_str());
        out.push(
            Badge { id: b.badge_type.clone(), badge_type: b.badge_type.clone(), text: b.text.clone(), image_url },
        );
        i = i + 1;
    }
    assert(badges_view(out@) =~= Seq::new(all.len(), |i: int| kick_badge_view(all[i], images@)));
    out
}

/// The parsed emotes of a Kick message as shown.
fn emotes_of(parsed: Vec<KickParsedEmote>) -> (r: Vec<Emote>)
    ensures
        emotes_view(r@) == Seq::new(parsed@.len(), |i: int| kick_emote_view(parsed@[i]@)),
{
    let mut out: Vec<Emote> = Vec::new();
    let mut i: usize = 0;
    while i < parsed.len()
        invariant
            i <= parsed@.len(),
            out@.len() == i,
            forall|j: int| 0 <= j < i ==> #[trigger] out@[j]@ == kick_emote_view(parsed@[j]@),
        decreases parsed@.len() - i,
    {
        let p = &parsed[i];
        let positions = vec![EmotePosition { start: p.start, end: p.end }];
        assert(positions@ =~= seq![EmotePosition { start: p.start, end: p.end }]);
        out.push(
            Emote {
                id: p.id.clone(),
                name: p.name.clone(),
                image_url: p.image_url.clone(),
                positions,
                aspect_ratio_bits: None,
            },
        );
        i = i + 1;
    }
    assert(emotes_view(out@) =~= Seq::new(parsed@.len(), |i: int| kick_emote_view(parsed@[i]@)));
    out
}

/// The adapter's state apart from its avatar cache and client is the same in `a` and `b`.
pub open spec fn same_connection<C>(a: KickAdapter<C>, b: KickAdapter<C>) -> bool {
    &&& a.channel_slug == b.channel_slug
    &&& a.chatroom == b.chatroom
    &&& a.is_connected == b.is_connected
    &&& a.should_reconnect == b.should_reconnect
    &&& a.reconnect_attempt == b.reconnect_attempt
    &&& a.reconnect_due_at_ms == b.reconnect_due_at_ms
    &&& a.auth_state == b.auth_state
    &&& a.last_error == b.last_error
}

impl<C: KickChatClient> KickAdapter<C> {
    /// How the avatar of `sender` was found, from `self` to `after`, giving `r`: the profile
    /// picture when it is set (and it is cached), else the cached address, else the one the
    /// client finds by slug or username (cached when it is not blank), else none.
    pub open spec fn avatar_resolved(self, after: Self, sender: KickMessageSender, r: Option<String>) -> bool {
        let key = "kick:"@ + decimal(sender.id as nat);
        &&& same_connection(self, after)
        &&& match non_blank(opt_view(sender.profile_picture)) {
            Some(url) => opt_view(r) == Some(url) && lookup(after.avatar_cache@, key) == Some(url)
                && after.client == self.client,
            None => match lookup(self.avatar_cache@, key) {
                Some(cached) => opt_view(r) == Some(cached) && after.avatar_cache == self.avatar_cache
                    && after.client == self.client,
                None => match avatar_lookup_spec(sender) {
                    None => r is None && after.avatar_cache == self.avatar_cache && after.client == self.client,
                    Some(parts) => exists|request: KickAvatarLookupRequest, answer: Result<Option<String>, PlatformError>|
                        request.author_id@ == decimal(sender.id as nat) && request.lookup_source == parts.0
                            && request.slug_or_username@ == parts.1 && #[trigger] self.client.gives_avatar(
                            request,
                            answer,
                            after.client,
                        ) && match answer {
                            Ok(Some(u)) => match non_blank(Some(u@)) {
                                Some(n) => opt_view(r) == Some(n) && lookup(after.avatar_cache@, key) == Some(n),
                                None => r is None && after.avatar_cache == self.avatar_cache,
                            },
                            _ => r is None && after.avatar_cache == self.avatar_cache,
                        },
                },
            },
        }
    }

    /// The avatar of a message's author: its profile picture, else the cached one, else the
    /// one the client finds; found addresses are cached.
    pub fn resolve_message_avatar(&mut self, sender: &KickMessageSender) -> (r: Option<String>)
        ensures
            old(self).avatar_resolved(*final(self), *sender, r),
    {
        let key = kick_avatar_cache_key(sender.id);
        let picture = match &sender.profile_picture {
            Some(p) => normalize_avatar_url(Some(p.as_str())),
            None => None,
        };
        match picture {
            Some(url) => {
                upsert_keyed(&mut self.avatar_cache, key, url.clone());
                proof {
                    crate::platforms::lemma_key_index_bound(old(self).avatar_cache@, key@);
                    lemma_lookup_after_set(old(self).avatar_cache@, self.avatar_cache@, key@);
                }
                return Some(url);
            },
            None => {},
        }
        match lookup_exec(&self.avatar_cache, key.as_str()) {
            Some(cached) => return Some(cached),
            None => {},
        }
        let (lookup_source, slug_or_username) = match avatar_lookup_parts(sender) {
            Some(p) => p,
            None => return None,
        };
        let request = KickAvatarLookupRequest {
            author_id: u64_to_string(sender.id),
            lookup_source,
            slug_or_username,
        };
        let ghost sent = request;
        let answer = self.client.resolve_avatar_url(request);
        let ghost got = answer;
        let ghost looked_up = self.client;
        assert(old(self).client.gives_avatar(sent, got, looked_up));
        let r = match answer {
            Ok(Some(u)) => match normalize_avatar_url(Some(u.as_str())) {
                Some(n) => {
                    let ghost before = self.avatar_cache@;
                    upsert_keyed(&mut self.avatar_cache, key, n.clone());
                    proof {
                        lemma_lookup_after_set(before, self.avatar_cache@, key@);
                    }
                    Some(n)
                },
                None => None,
            },
            _ => None,
        };
        assert(self.client == looked_up);
        assert(old(self).client.gives_avatar(sent, got, self.client));
        r
    }

    /// A Kick chat message in the form shared by every platform, with the author's avatar
    /// found as [`KickAdapter::resolve_message_avatar`] finds it and badge images from
    /// `images`.
    pub fn normalize_message(&mut self, message: KickChatMessage, images: &Vec<(String, String)>) -> (r:
        NormalizedChatMessage)
        ensures
            old(self).avatar_resolved(*final(self), message.sender, r.author.avatar_url),
            r@ == kick_message_view(message, old(self).chatroom, images@, opt_view(r.author.avatar_url)),
    {
        let ghost m = message;
        let (text, parsed) = parse_kick_emotes(message.content.as_str());
        let avatar_url = self.resolve_message_avatar(&message.sender);
        let channel_id = match &self.chatroom {
            Some(c) => u64_to_string(c.broadcaster_user_id),
            None => u64_to_string(message.chatroom_id),
        };
        let sender = message.sender;
        let display_name = if !trimmed(sender.username.as_str()).as_str().is_empty() {
            sender.username.clone()
        } else if !trimmed(sender.slug.as_str()).as_str().is_empty() {
            sender.slug.clone()
        } else {
            u64_to_string(sender.id)
        };
        let badges = normalize_badges(sender.identity.badges, images);
        let emotes = emotes_of(parsed);
        let r = NormalizedChatMessage {
            id: message.id,
            platform: Platform::Kick,
            channel_id,
            author: ChatAuthor {
                id: u64_to_string(sender.id),
                username: Some(sender.username),
                display_name,
                color: sender.identity.color,
                avatar_url,
                badges,
            },
            text,
            emotes,
            timestamp: message.created_at,
            message_type: ChatMessageType::Message,
            reply: normalize_reply(message.message_type, message.metadata),
        };
        proof {
            assert(opt_view(r.author.color) == opt_view(m.sender.identity.color));
            assert(r.author@.4 == opt_view(r.author.avatar_url));
        }
        r
    }
}

/// The reason a Kick account must sign in again, if it must.
pub open spec fn kick_reauth_view(auth: KickAuthState) -> Option<Seq<char>> {
    match auth {
        KickAuthState::ReauthRequired { reason, .. } => Some(reason@),
        _ => None,
    }
}

/// `ev` reports the Kick adapter's `status` with `error`, for its auth state and channel.
pub open spec fn kick_status_event(
    auth: KickAuthState,
    slug: Option<String>,
    status: PlatformStatus,
    error: Option<Seq<char>>,
    ev: PlatformEvent,
) -> bool {
    ev matches PlatformEvent::Status(info) && info.platform == Platform::Kick && info.status == status && opt_view(
        info.error,
    ) == error && info.mode == (if auth is Authenticated {
        PlatformStatusMode::Authenticated
    } else {
        PlatformStatusMode::Anonymous
    }) && opt_view(info.channel_login) == opt_view(slug)
}

/// `after` is `before` with one event more, for which `p` holds; or, when the sink refused
/// it, `before` itself.
pub open spec fn one_more(before: Seq<PlatformEvent>, after: Seq<PlatformEvent>, ok: bool, p: spec_fn(PlatformEvent) -> bool) -> bool {
    if ok {
        after.len() == before.len() + 1 && after.drop_last() == before && p(after.last())
    } else {
        after == before
    }
}

/// How a ban's duration is shown: as `format_duration` writes it, or `?` when it has none.
pub open spec fn ban_duration_shown<F: Fn(u32) -> String>(format_duration: F, duration: Option<u32>, shown: Seq<char>) -> bool {
    match duration {
        Some(d) => exists|s: String| call_ensures(format_duration, (d,), s) && s@ == shown,
        None => shown == "?"@,
    }
}

/// The events a poll hands on for what the client drained, in order: the chat messages, the
/// follows, the subscriptions, the bans and the unbans. Messages keep the avatar they were
/// given; bans show their duration as `format_duration` writes it.
pub open spec fn kick_poll_events<F: Fn(u32) -> String>(
    messages: Seq<KickChatMessage>,
    follows: Seq<KickFollowEvent>,
    subs: Seq<KickSubscriptionEvent>,
    bans: Seq<KickUserBannedEvent>,
    unbans: Seq<KickUserUnbannedEvent>,
    joined: Option<KickChatroom>,
    images: Seq<(String, String)>,
    format_duration: F,
    now: Seq<char>,
    events: Seq<PlatformEvent>,
) -> bool {
    let a = messages.len();
    let b = a + follows.len();
    let c = b + subs.len();
    let d = c + bans.len();
    &&& events.len() == d + unbans.len()
    &&& forall|i: int| 0 <= i < a ==> kick_message_event(#[trigger] events[i], messages[i], joined, images)
    &&& forall|i: int| a <= i < b ==> kick_follow_event(#[trigger] events[i], follows[i - a])
    &&& forall|i: int| b <= i < c ==> kick_sub_event(#[trigger] events[i], subs[i - b])
    &&& forall|i: int| c <= i < d ==> kick_ban_event(#[trigger] events[i], bans[i - c], joined, format_duration, now)
    &&& forall|i: int| d <= i < events.len() ==> kick_unban_event(#[trigger] events[i], unbans[i - d], joined, now)
}

/// `ev` hands on the Kick chat message `msg`, with whatever avatar it was given.
pub open spec fn kick_message_event(
    ev: PlatformEvent,
    msg: KickChatMessage,
    joined: Option<KickChatroom>,
    images: Seq<(String, String)>,
) -> bool {
    ev matches PlatformEvent::Message(m) && m@ == kick_message_view(msg, joined, images, opt_view(m.author.avatar_url))
}

/// `ev` hands on the Kick follow `f`.
pub open spec fn kick_follow_event(ev: PlatformEvent, f: KickFollowEvent) -> bool {
    ev matches PlatformEvent::Event(e) && kick_follow_normalized(f, e)
}

/// `ev` hands on the Kick subscription `s`.
pub open spec fn kick_sub_event(ev: PlatformEvent, s: KickSubscriptionEvent) -> bool {
    ev matches PlatformEvent::Event(e) && kick_sub_normalized(s, e)
}

/// `ev` hands on the Kick ban `b`, its duration shown as `format_duration` writes it.
pub open spec fn kick_ban_event<F: Fn(u32) -> String>(
    ev: PlatformEvent,
    b: KickUserBannedEvent,
    joined: Option<KickChatroom>,
    format_duration: F,
    now: Seq<char>,
) -> bool {
    ev matches PlatformEvent::Message(m) && exists|shown: Seq<char>|
        ban_duration_shown(format_duration, b.duration, shown) && kick_ban_normalized(b, joined, shown, now, m)
}

/// `ev` hands on the Kick unban `u`.
pub open spec fn kick_unban_event(ev: PlatformEvent, u: KickUserUnbannedEvent, joined: Option<KickChatroom>, now: Seq<
    char,
>) -> bool {
    ev matches PlatformEvent::Message(m) && kick_unban_normalized(u, joined, now, m)
}

impl<C: KickChatClient> KickAdapter<C> {
    /// Reports the adapter's status, with its auth mode and channel.
    pub fn emit_status<S: PlatformEventSink>(&self, sink: &mut S, status: PlatformStatus, error: Option<String>) -> (r:
        Result<(), PlatformError>)
        ensures
            one_more(
                old(sink).received(),
                final(sink).received(),
                r is Ok,
                |ev: PlatformEvent| kick_status_event(self.auth_state, self.channel_slug, status, opt_view(error), ev),
            ),
    {
        let ghost e = error;
        let info = PlatformStatusInfo {
            platform: Platform::Kick,
            status,
            error,
            mode: self.auth_state.mode(),
            channel_login: match &self.channel_slug {
                Some(s) => Some(s.clone()),
                None => None,
            },
        };
        let ghost ev = PlatformEvent::Status(info);
        assert(kick_status_event(self.auth_state, self.channel_slug, status, opt_view(e), ev));
        let r = sink.emit(PlatformEvent::Status(info));
        proof {
            if r is Ok {
                assert(sink.received().drop_last() =~= old(sink).received());
            }
        }
        r
    }

    /// After a failed drain: the adapter counts as disconnected, closes the client, records
    /// the failure, reports it, and schedules an immediate reconnect (unless the report was
    /// refused, which is handed on).
    pub fn handle_transport_poll_error<S: PlatformEventSink>(&mut self, sink: &mut S, error: PlatformError, now_ms: u64) -> (r:
        Result<(), PlatformError>)
        ensures
            !final(self).is_connected,
            final(self).should_reconnect,
            final(self).channel_slug == old(self).channel_slug,
            final(self).chatroom == old(self).chatroom,
            final(self).auth_state == old(self).auth_state,
            final(self).last_error is Some && final(self).last_error->0.kind == KickAdapterErrorKind::Transport
                && final(self).last_error->0.message@ == error.message@ && opt_view(final(self).last_error->0.channel_slug)
                == opt_view(old(self).channel_slug) && final(self).last_error->0.recoverable,
            one_more(
                old(sink).received(),
                final(sink).received(),
                r is Ok,
                |ev: PlatformEvent|
                    kick_status_event(old(self).auth_state, old(self).channel_slug, PlatformStatus::Error, Some(error.message@), ev),
            ),
            r is Ok ==> final(self).reconnect_due_at_ms == Some(now_ms) && final(self).reconnect_attempt == 0,
            r is Err ==> final(self).reconnect_due_at_ms == old(self).reconnect_due_at_ms
                && final(self).reconnect_attempt == old(self).reconnect_attempt,
            exists|answer: Result<(), PlatformError>|
                #[trigger] old(self).client.gives_disconnect(answer, final(self).client),
    {
        self.is_connected = false;
        self.should_reconnect = true;
        let answer = self.client.disconnect();
        let ghost closed = answer;
        let ghost closed_client = self.client;
        assert(old(self).client.gives_disconnect(closed, closed_client));
        let slug = match &self.channel_slug {
            Some(s) => Some(s.clone()),
            None => None,
        };
        let message = error.message;
        let shown = message.clone();
        self.last_error = Some(KickAdapterError::new(KickAdapterErrorKind::Transport, slug, message, true));
        match self.emit_status(sink, PlatformStatus::Error, Some(shown)) {
            Ok(()) => {},
            Err(e) => {
                assert(old(self).client.gives_disconnect(closed, self.client));
                return Err(e);
            },
        }
        self.schedule_reconnect(true, now_ms);
        Ok(())
    }
}

/// Appends the follows, as events, after what `events` holds.
fn push_follows(events: &mut Vec<PlatformEvent>, follows: Vec<KickFollowEvent>)
    ensures
        final(events)@.len() == old(events)@.len() + follows@.len(),
        forall|j: int| 0 <= j < old(events)@.len() ==> #[trigger] final(events)@[j] == old(events)@[j],
        forall|i: int|
            0 <= i < follows@.len() ==> kick_follow_event(#[trigger] final(events)@[old(events)@.len() + i], follows@[i]),
{
    let ghost all = follows@;
    let ghost start = events@;
    let n: usize = follows.len();
    let mut rest = follows;
    let mut k: usize = 0;
    while rest.len() > 0
        invariant
            k + rest@.len() == all.len(),
            all.len() == n,
            rest@ == all.skip(k as int),
            events@.len() == start.len() + k,
            forall|j: int| 0 <= j < start.len() ==> #[trigger] events@[j] == start[j],
            forall|i: int| 0 <= i < k ==> kick_follow_event(#[trigger] events@[start.len() + i], all[i]),
        decreases rest@.len(),
    {
        let f = rest.remove(0);
        assert(f == all[k as int]);
        events.push(PlatformEvent::Event(normalize_follow_event(f)));
        assert(rest@ =~= all.skip(k + 1));
        k = k + 1;
    }
}

/// Appends the subscriptions, as events, after what `events` holds.
fn push_subscriptions(events: &mut Vec<PlatformEvent>, subs: Vec<KickSubscriptionEvent>)
    ensures
        final(events)@.len() == old(events)@.len() + subs@.len(),
        forall|j: int| 0 <= j < old(events)@.len() ==> #[trigger] final(events)@[j] == old(events)@[j],
        forall|i: int|
            0 <= i < subs@.len() ==> kick_sub_event(#[trigger] final(events)@[old(events)@.len() + i], subs@[i]),
{
    let ghost all = subs@;
    let ghost start = events@;
    let n: usize = subs.len();
    let mut rest = subs;
    let mut k: usize = 0;
    while rest.len() > 0
        invariant
            k + rest@.len() == all.len(),
            all.len() == n,
            rest@ == all.skip(k as int),
            events@.len() == start.len() + k,
            forall|j: int| 0 <= j < start.len() ==> #[trigger] events@[j] == start[j],
            forall|i: int| 0 <= i < k ==> kick_sub_event(#[trigger] events@[start.len() + i], all[i]),
        decreases rest@.len(),
    {
        let e = rest.remove(0);
        assert(e == all[k as int]);
        events.push(PlatformEvent::Event(normalize_subscription_event(e)));
        assert(rest@ =~= all.skip(k + 1));
        k = k + 1;
    }
}

/// Appends the bans, as system messages, after what `events` holds.
fn push_bans<F: Fn(u32) -> String>(
    events: &mut Vec<PlatformEvent>,
    bans: Vec<KickUserBannedEvent>,
    joined: &Option<KickChatroom>,
    format_duration: &F,
    now: &str,
)
    requires
        forall|d: u32| call_requires(*format_duration, (d,)),
    ensures
        final(events)@.len() == old(events)@.len() + bans@.len(),
        forall|j: int| 0 <= j < old(events)@.len() ==> #[trigger] final(events)@[j] == old(events)@[j],
        forall|i: int|
            0 <= i < bans@.len() ==> kick_ban_event(
                #[trigger] final(events)@[old(events)@.len() + i],
                bans@[i],
                *joined,
                *format_duration,
                now@,
            ),
{
    let ghost all = bans@;
    let ghost start = events@;
    let n: usize = bans.len();
    let mut rest = bans;
    let mut k: usize = 0;
    while rest.len() > 0
        invariant
            k + rest@.len() == all.len(),
            all.len() == n,
            rest@ == all.skip(k as int),
            events@.len() == start.len() + k,
            forall|d: u32| call_requires(*format_duration, (d,)),
            forall|j: int| 0 <= j < start.len() ==> #[trigger] events@[j] == start[j],
            forall|i: int|
                0 <= i < k ==> kick_ban_event(#[trigger] events@[start.len() + i], all[i], *joined, *format_duration, now@),
        decreases rest@.len(),
    {
        let e = rest.remove(0);
        assert(e == all[k as int]);
        let shown = match e.duration {
            Some(d) => format_duration(d),
            None => owned("?"),
        };
        assert(ban_duration_shown(*format_duration, e.duration, shown@));
        let m = normalize_ban_event(e, joined, shown.as_str(), now);
        events.push(PlatformEvent::Message(m));
        assert(rest@ =~= all.skip(k + 1));
        k = k + 1;
    }
}

/// Appends the unbans, as system messages, after what `events` holds.
fn push_unbans(events: &mut Vec<PlatformEvent>, unbans: Vec<KickUserUnbannedEvent>, joined: &Option<KickChatroom>, now: &str)
    ensures
        final(events)@.len() == old(events)@.len() + unbans@.len(),
        forall|j: int| 0 <= j < old(events)@.len() ==> #[trigger] final(events)@[j] == old(events)@[j],
        forall|i: int|
            0 <= i < unbans@.len() ==> kick_unban_event(
                #[trigger] final(events)@[old(events)@.len() + i],
                unbans@[i],
                *joined,
                now@,
            ),
{
    let ghost all = unbans@;
    let ghost start = events@;
    let n: usize = unbans.len();
    let mut rest = unbans;
    let mut k: usize = 0;
    while rest.len() > 0
        invariant
            k + rest@.len() == all.len(),
            all.len() == n,
            rest@ == all.skip(k as int),
            events@.len() == start.len() + k,
            forall|j: int| 0 <= j < start.len() ==> #[trigger] events@[j] == start[j],
            forall|i: int| 0 <= i < k ==> kick_unban_event(#[trigger] events@[start.len() + i], all[i], *joined, now@),
        decreases rest@.len(),
    {
        let e = rest.remove(0);
        assert(e == all[k as int]);
        events.push(PlatformEvent::Message(normalize_unban_event(e, joined, now)));
        assert(rest@ =~= all.skip(k + 1));
        k = k + 1;
    }
}

/// The authors of chat messages, in order.
pub open spec fn senders_of(messages: Seq<KickChatMessage>) -> Seq<KickMessageSender> {
    Seq::new(messages.len(), |i: int| messages[i].sender)
}

/// The avatars the chat messages among `events` carry (none for other events).
pub open spec fn message_avatars(events: Seq<PlatformEvent>) -> Seq<Option<String>> {
    Seq::new(
        events.len(),
        |i: int|
            match events[i] {
                PlatformEvent::Message(m) => m.author.avatar_url,
                _ => None,
            },
    )
}

/// From `a` to `b`, the avatars of `senders` were found in turn ([`KickAdapter::avatar_resolved`]),
/// giving `avatars`; each lookup starts from the state the previous one left.
pub open spec fn avatar_chain<C: KickChatClient>(
    a: KickAdapter<C>,
    b: KickAdapter<C>,
    senders: Seq<KickMessageSender>,
    avatars: Seq<Option<String>>,
) -> bool
    decreases senders.len(),
{
    if senders.len() == 0 {
        avatars.len() == 0 && b == a
    } else {
        &&& avatars.len() == senders.len()
        &&& exists|mid: KickAdapter<C>|
            avatar_chain(a, mid, senders.drop_last(), avatars.drop_last()) && #[trigger] mid.avatar_resolved(
                b,
                senders.last(),
                avatars.last(),
            )
    }
}

impl<C: KickChatClient> KickAdapter<C> {
    /// The chat messages, as events, with their authors' avatars found and cached; the
    /// connection state stays as it was.
    fn normalize_messages(&mut self, messages: Vec<KickChatMessage>, images: &Vec<(String, String)>) -> (r: Vec<
        PlatformEvent,
    >)
        ensures
            same_connection(*old(self), *final(self)),
            avatar_chain(*old(self), *final(self), senders_of(messages@), message_avatars(r@)),
            r@.len() == messages@.len(),
            forall|i: int|
                0 <= i < messages@.len() ==> kick_message_event(
                    #[trigger] r@[i],
                    messages@[i],
                    old(self).chatroom,
                    images@,
                ),
    {
        let ghost all = messages@;
        let mut events: Vec<PlatformEvent> = Vec::new();
        let n: usize = messages.len();
    let mut rest = messages;
        let mut k: usize = 0;
        while rest.len() > 0
            invariant
                k + rest@.len() == all.len(),
                all.len() == n,
                rest@ == all.skip(k as int),
                events@.len() == k,
                same_connection(*old(self), *self),
                avatar_chain(*old(self), *self, senders_of(all.take(k as int)), message_avatars(events@)),
                forall|i: int| 0 <= i < k ==> kick_message_event(#[trigger] events@[i], all[i], old(self).chatroom, images@),
            decreases rest@.len(),
        {
            let m = rest.remove(0);
            assert(m == all[k as int]);
            let ghost prev = *self;
            let ghost prev_events = events@;
            let ghost sender = m.sender;
            let normalized = self.normalize_message(m, images);
            let ghost avatar = normalized.author.avatar_url;
            events.push(PlatformEvent::Message(normalized));
            proof {
                assert(senders_of(all.take(k + 1)).drop_last() =~= senders_of(all.take(k as int)));
                assert(senders_of(all.take(k + 1)).last() == sender);
                assert(message_avatars(events@).drop_last() =~= message_avatars(prev_events));
                assert(message_avatars(events@).last() == avatar);
                assert(prev.avatar_resolved(*self, sender, avatar));
                assert(avatar_chain(*old(self), prev, senders_of(all.take(k as int)), message_avatars(prev_events)));
                assert(avatar_chain(
                    *old(self),
                    *self,
                    senders_of(all.take(k + 1)),
                    message_avatars(events@),
                ));
            }
            assert(rest@ =~= all.skip(k + 1));
            k = k + 1;
        }
        proof {
            assert(all.take(k as int) =~= all);
            assert(avatar_chain(*old(self), *old(self), senders_of(Seq::<KickChatMessage>::empty()), Seq::<Option<String>>::empty())) by {
                assert(senders_of(Seq::<KickChatMessage>::empty()) =~= Seq::<KickMessageSender>::empty());
            }
        }
        events
    }
}

/// Whether a poll of `a` at `now_ms` waits: the adapter is disconnected from a configured
/// channel, and either will not reconnect or its next attempt is not yet due.
pub open spec fn kick_poll_waits<C>(a: KickAdapter<C>, now_ms: u64) -> bool {
    &&& !a.is_connected
    &&& a.channel_slug is Some
    &&& !(a.should_reconnect && match a.reconnect_due_at_ms {
        Some(due) => now_ms >= due,
        None => true,
    })
}

/// Whether a poll of `a` at `now_ms` attempts to reconnect.
pub open spec fn kick_poll_reconnects<C>(a: KickAdapter<C>, now_ms: u64) -> bool {
    &&& !a.is_connected
    &&& a.channel_slug is Some
    &&& a.should_reconnect
    &&& match a.reconnect_due_at_ms {
        Some(due) => now_ms >= due,
        None => true,
    }
}

/// What a reconnect attempt at `now_ms` does from `a` to `b`, from `before` to `after` in the
/// sink, answering `ok`: `Connecting` is reported first, and when the sink refuses it nothing
/// else happens. Else one connection attempt runs ([`kick_connect_outcome`]); when it
/// connected, the backoff is forgotten and `Connected` is reported; when it failed, its error
/// message is reported as `Error` and, once the sink took that, the next attempt is scheduled
/// ([`backed_off`]).
pub open spec fn kick_reconnect_outcome<C: KickChatClient>(
    a: KickAdapter<C>,
    b: KickAdapter<C>,
    before: Seq<PlatformEvent>,
    after: Seq<PlatformEvent>,
    now_ms: u64,
    ok: bool,
) -> bool {
    let reason = kick_reauth_view(a.auth_state);
    &&& before.len() <= after.len() <= before.len() + 2
    &&& after.subrange(0, before.len() as int) == before
    &&& (ok <==> after.len() == before.len() + 2)
    &&& after.len() == before.len() ==> b == a
    &&& after.len() > before.len() ==> kick_status_event(
        a.auth_state,
        a.channel_slug,
        PlatformStatus::Connecting,
        reason,
        after[before.len() as int],
    )
    &&& after.len() > before.len() ==> exists|mid: KickAdapter<C>, attempt: Result<(), PlatformError>|
        #[trigger] kick_connect_outcome(a, mid, attempt) && match attempt {
            Ok(()) => {
                &&& b == (KickAdapter { reconnect_attempt: 0, reconnect_due_at_ms: None, ..mid })
                &&& after.len() == before.len() + 2 ==> kick_status_event(
                    a.auth_state,
                    a.channel_slug,
                    PlatformStatus::Connected,
                    reason,
                    after.last(),
                )
            },
            Err(e) => {
                &&& after.len() == before.len() + 1 ==> b == mid
                &&& after.len() == before.len() + 2 ==> b == backed_off(mid, now_ms) && kick_status_event(
                    a.auth_state,
                    a.channel_slug,
                    PlatformStatus::Error,
                    Some(e.message@),
                    after.last(),
                )
            },
        }
}

/// `a` with its client replaced by `c`.
pub open spec fn with_client<C>(a: KickAdapter<C>, c: C) -> KickAdapter<C> {
    KickAdapter { client: c, ..a }
}

/// A drain of the client (left as `c`) failed with `e`, and the failure was handled as
/// [`KickAdapter::handle_transport_poll_error`] does, from `a` (with client `c`) to `b`.
pub open spec fn kick_drain_failed<C: KickChatClient>(
    a: KickAdapter<C>,
    c: C,
    b: KickAdapter<C>,
    e: PlatformError,
    now_ms: u64,
    before: Seq<PlatformEvent>,
    after: Seq<PlatformEvent>,
    ok: bool,
) -> bool {
    &&& exists|d: Result<(), PlatformError>| #[trigger] c.gives_disconnect(d, b.client)
    &&& !b.is_connected
    &&& b.should_reconnect
    &&& b.channel_slug == a.channel_slug
    &&& b.chatroom == a.chatroom
    &&& b.auth_state == a.auth_state
    &&& b.last_error is Some
    &&& b.last_error->0.kind == KickAdapterErrorKind::Transport
    &&& b.last_error->0.message@ == e.message@
    &&& one_more(
        before,
        after,
        ok,
        |ev: PlatformEvent| kick_status_event(a.auth_state, a.channel_slug, PlatformStatus::Error, Some(e.message@), ev),
    )
    &&& ok ==> b.reconnect_due_at_ms == Some(now_ms) && b.reconnect_attempt == 0
}

/// What [`KickAdapter::hand_on_drained`] does from `a` to `b` with the drained items: their
/// events ([`kick_poll_events`]) go to the sink in order, stopping at the first it refuses;
/// the authors' avatars are found in turn ([`avatar_chain`]); the connection stays as it was.
pub open spec fn kick_handed_on<C: KickChatClient, F: Fn(u32) -> String>(
    a: KickAdapter<C>,
    b: KickAdapter<C>,
    ms: Seq<KickChatMessage>,
    fs: Seq<KickFollowEvent>,
    ss: Seq<KickSubscriptionEvent>,
    bs: Seq<KickUserBannedEvent>,
    us: Seq<KickUserUnbannedEvent>,
    images: Seq<(String, String)>,
    format_duration: F,
    now: Seq<char>,
    before: Seq<PlatformEvent>,
    after: Seq<PlatformEvent>,
    ok: bool,
) -> bool {
    &&& same_connection(a, b)
    &&& exists|emitted: Seq<PlatformEvent>|
        {
            &&& #[trigger] kick_poll_events(ms, fs, ss, bs, us, a.chatroom, images, format_duration, now, emitted)
            &&& avatar_chain(a, b, senders_of(ms), message_avatars(emitted.take(ms.len() as int)))
            &&& ok ==> after == before + emitted
            &&& !ok ==> exists|k: int| 0 <= k < emitted.len() && after == before + #[trigger] emitted.take(k)
        }
}

/// After the messages, follows, subscriptions and bans were drained, the client (then `c4`)
/// is asked for its unbans.
pub open spec fn kick_after_bans<C: KickChatClient, F: Fn(u32) -> String>(
    a: KickAdapter<C>,
    c4: C,
    b: KickAdapter<C>,
    ms: Seq<KickChatMessage>,
    fs: Seq<KickFollowEvent>,
    ss: Seq<KickSubscriptionEvent>,
    bs: Seq<KickUserBannedEvent>,
    images: Seq<(String, String)>,
    format_duration: F,
    now: Seq<char>,
    now_ms: u64,
    before: Seq<PlatformEvent>,
    after: Seq<PlatformEvent>,
    ok: bool,
) -> bool {
    exists|r4: Result<Vec<KickUserUnbannedEvent>, PlatformError>, c5: C|
        #[trigger] c4.drains_unbans(r4, c5) && match r4 {
            Err(e) => kick_drain_failed(a, c5, b, e, now_ms, before, after, ok),
            Ok(us) => kick_handed_on(with_client(a, c5), b, ms, fs, ss, bs, us@, images, format_duration, now, before, after, ok),
        }
}

/// After the messages, follows and subscriptions were drained, the client (then `c3`) is
/// asked for its bans.
pub open spec fn kick_after_subs<C: KickChatClient, F: Fn(u32) -> String>(
    a: KickAdapter<C>,
    c3: C,
    b: KickAdapter<C>,
    ms: Seq<KickChatMessage>,
    fs: Seq<KickFollowEvent>,
    ss: Seq<KickSubscriptionEvent>,
    images: Seq<(String, String)>,
    format_duration: F,
    now: Seq<char>,
    now_ms: u64,
    before: Seq<PlatformEvent>,
    after: Seq<PlatformEvent>,
    ok: bool,
) -> bool {
    exists|r3: Result<Vec<KickUserBannedEvent>, PlatformError>, c4: C|
        #[trigger] c3.drains_bans(r3, c4) && match r3 {
            Err(e) => kick_drain_failed(a, c4, b, e, now_ms, before, after, ok),
            Ok(bs) => kick_after_bans(a, c4, b, ms, fs, ss, bs@, images, format_duration, now, now_ms, before, after, ok),
        }
}

/// After the messages and follows were drained, the client (then `c2`) is asked for its
/// subscriptions.
pub open spec fn kick_after_follows<C: KickChatClient, F: Fn(u32) -> String>(
    a: KickAdapter<C>,
    c2: C,
    b: KickAdapter<C>,
    ms: Seq<KickChatMessage>,
    fs: Seq<KickFollowEvent>,
    images: Seq<(String, String)>,
    format_duration: F,
    now: Seq<char>,
    now_ms: u64,
    before: Seq<PlatformEvent>,
    after: Seq<PlatformEvent>,
    ok: bool,
) -> bool {
    exists|r2: Result<Vec<KickSubscriptionEvent>, PlatformError>, c3: C|
        #[trigger] c2.drains_subscriptions(r2, c3) && match r2 {
            Err(e) => kick_drain_failed(a, c3, b, e, now_ms, before, after, ok),
            Ok(ss) => kick_after_subs(a, c3, b, ms, fs, ss@, images, format_duration, now, now_ms, before, after, ok),
        }
}

/// After the messages were drained, the client (then `c1`) is asked for its follows.
pub open spec fn kick_after_messages<C: KickChatClient, F: Fn(u32) -> String>(
    a: KickAdapter<C>,
    c1: C,
    b: KickAdapter<C>,
    ms: Seq<KickChatMessage>,
    images: Seq<(String, String)>,
    format_duration: F,
    now: Seq<char>,
    now_ms: u64,
    before: Seq<PlatformEvent>,
    after: Seq<PlatformEvent>,
    ok: bool,
) -> bool {
    exists|r1: Result<Vec<KickFollowEvent>, PlatformError>, c2: C|
        #[trigger] c1.drains_follows(r1, c2) && match r1 {
            Err(e) => kick_drain_failed(a, c2, b, e, now_ms, before, after, ok),
            Ok(fs) => kick_after_follows(a, c2, b, ms, fs@, images, format_duration, now, now_ms, before, after, ok),
        }
}

/// What a poll of a connected adapter does, from `a` to `b` and from `before` to `after` in
/// the sink, answering `ok`: the client is asked in turn for its messages, follows,
/// subscriptions, bans and unbans, each time in the state the previous drain left it; the
/// first drain that fails is handled as [`KickAdapter::handle_transport_poll_error`] does;
/// when all succeed, what they gave is handed on ([`kick_handed_on`]).
pub open spec fn kick_drain_outcome<C: KickChatClient, F: Fn(u32) -> String>(
    a: KickAdapter<C>,
    b: KickAdapter<C>,
    images: Seq<(String, String)>,
    format_duration: F,
    now: Seq<char>,
    now_ms: u64,
    before: Seq<PlatformEvent>,
    after: Seq<PlatformEvent>,
    ok: bool,
) -> bool {
    exists|r0: Result<Vec<KickChatMessage>, PlatformError>, c1: C|
        #[trigger] a.client.drains_messages(r0, c1) && match r0 {
            Err(e) => kick_drain_failed(a, c1, b, e, now_ms, before, after, ok),
            Ok(ms) => kick_after_messages(a, c1, b, ms@, images, format_duration, now, now_ms, before, after, ok),
        }
}

impl<C: KickChatClient> KickAdapter<C> {
    /// Hands on what the client drained: the chat messages (their authors' avatars found in
    /// turn), then the follows, subscriptions, bans and unbans, in that order, stopping at
    /// the first event the sink refuses.
    pub fn hand_on_drained<S: PlatformEventSink, F: Fn(u32) -> String>(
        &mut self,
        sink: &mut S,
        images: &Vec<(String, String)>,
        format_duration: &F,
        now: &str,
        messages: Vec<KickChatMessage>,
        follows: Vec<KickFollowEvent>,
        subs: Vec<KickSubscriptionEvent>,
        bans: Vec<KickUserBannedEvent>,
        unbans: Vec<KickUserUnbannedEvent>,
    ) -> (r: Result<(), PlatformError>)
        requires
            forall|d: u32| call_requires(*format_duration, (d,)),
        ensures
            kick_handed_on(
                *old(self),
                *final(self),
                messages@,
                follows@,
                subs@,
                bans@,
                unbans@,
                images@,
                *format_duration,
                now@,
                old(sink).received(),
                final(sink).received(),
                r is Ok,
            ),
    {
        let ghost (ms, fs, ss, bs, us) = (messages, follows, subs, bans, unbans);
        let ghost joined = self.chatroom;
        let mut events = self.normalize_messages(messages, images);
        let ghost e0 = events@;
        push_follows(&mut events, follows);
        let ghost e1 = events@;
        push_subscriptions(&mut events, subs);
        let ghost e2 = events@;
        push_bans(&mut events, bans, &self.chatroom, format_duration, now);
        let ghost e3 = events@;
        push_unbans(&mut events, unbans, &self.chatroom, now);
        let ghost emitted = events@;
        proof {
            let a = ms@.len() as int;
            let b = a + fs@.len();
            let c = b + ss@.len();
            let d = c + bs@.len();
            assert forall|i: int| 0 <= i < a implies kick_message_event(
                #[trigger] emitted[i],
                ms@[i],
                joined,
                images@,
            ) by {
                assert(emitted[i] == e3[i]);
                assert(e3[i] == e2[i]);
                assert(e2[i] == e1[i]);
                assert(e1[i] == e0[i]);
            }
            assert forall|i: int| a <= i < b implies kick_follow_event(#[trigger] emitted[i], fs@[i - a]) by {
                assert(kick_follow_event(e1[a + (i - a)], fs@[i - a]));
                assert(emitted[i] == e3[i]);
                assert(e3[i] == e2[i]);
                assert(e2[i] == e1[i]);
            }
            assert forall|i: int| b <= i < c implies kick_sub_event(#[trigger] emitted[i], ss@[i - b]) by {
                assert(kick_sub_event(e2[b + (i - b)], ss@[i - b]));
                assert(emitted[i] == e3[i]);
                assert(e3[i] == e2[i]);
            }
            assert forall|i: int| c <= i < d implies kick_ban_event(
                #[trigger] emitted[i],
                bs@[i - c],
                joined,
                *format_duration,
                now@,
            ) by {
                assert(kick_ban_event(e3[c + (i - c)], bs@[i - c], joined, *format_duration, now@));
                assert(emitted[i] == e3[i]);
            }
            assert forall|i: int| d <= i < emitted.len() implies kick_unban_event(
                #[trigger] emitted[i],
                us@[i - d],
                joined,
                now@,
            ) by {
                assert(kick_unban_event(emitted[d + (i - d)], us@[i - d], joined, now@));
            }
            assert(kick_poll_events(ms@, fs@, ss@, bs@, us@, joined, images@, *format_duration, now@, emitted));
            assert forall|i: int| 0 <= i < a implies #[trigger] emitted.take(a)[i] == e0[i] by {
                assert(emitted[i] == e3[i]);
                assert(e3[i] == e2[i]);
                assert(e2[i] == e1[i]);
                assert(e1[i] == e0[i]);
            }
            assert(emitted.take(a) =~= e0);
        }
        let r = emit_all(sink, events);
        proof {
            assert(avatar_chain(*old(self), *self, senders_of(ms@), message_avatars(emitted.take(ms@.len() as int))));
        }
        r
    }
}

impl<C: KickChatClient> KickAdapter<C> {
    /// One poll: while disconnected from a configured channel, attempts to reconnect when that
    /// is wanted and due (reporting `Connecting`, then `Connected` or `Error`); while
    /// connected, drains the client's messages, follows, subscriptions, bans and unbans and
    /// hands them on in that order. Badge images come from `images`, ban durations are shown
    /// as `format_duration` writes them, and events without a time are stamped `now`.
    pub fn poll<S: PlatformEventSink, F: Fn(u32) -> String>(
        &mut self,
        sink: &mut S,
        images: &Vec<(String, String)>,
        format_duration: &F,
        now_ms: u64,
        now: &str,
    ) -> (r: Result<(), PlatformError>)
        requires
            forall|d: u32| call_requires(*format_duration, (d,)),
        ensures
            kick_poll_waits(*old(self), now_ms) ==> r is Ok && final(sink).received() == old(sink).received()
                && *final(self) == *old(self),
            kick_poll_reconnects(*old(self), now_ms) ==> kick_reconnect_outcome(
                *old(self),
                *final(self),
                old(sink).received(),
                final(sink).received(),
                now_ms,
                r is Ok,
            ),
            (old(self).is_connected || old(self).channel_slug is None) ==> kick_drain_outcome(
                *old(self),
                *final(self),
                images@,
                *format_duration,
                now@,
                now_ms,
                old(sink).received(),
                final(sink).received(),
                r is Ok,
            ),
    {
        let ghost start = sink.received();
        if !self.is_connected && self.channel_slug.is_some() {
            if !self.should_reconnect {
                return Ok(());
            }
            if !self.is_reconnect_due(now_ms) {
                return Ok(());
            }
            let reason = reauth_reason(&self.auth_state);
            match self.emit_status(sink, PlatformStatus::Connecting, reason) {
                Ok(()) => {},
                Err(e) => {
                    assert(sink.received().subrange(0, start.len() as int) =~= start);
                    return Err(e);
                },
            }
            let ghost first = sink.received();
            let attempt = self.connect_once();
            let ghost mid = *self;
            assert(kick_connect_outcome(*old(self), mid, attempt));
            match attempt {
                Ok(()) => {
                    self.reset_reconnect_state();
                    let reason = reauth_reason(&self.auth_state);
                    let r = self.emit_status(sink, PlatformStatus::Connected, reason);
                    proof {
                        assert(first.subrange(0, start.len() as int) =~= start);
                        if r is Ok {
                            assert(sink.received().subrange(0, start.len() as int) =~= start);
                            assert(sink.received()[start.len() as int] == first[start.len() as int]);
                        } else {
                            assert(sink.received().subrange(0, start.len() as int) =~= start);
                        }
                    }
                    r
                },
                Err(error) => {
                    let ghost m = error.message@;
                    let r = self.emit_status(sink, PlatformStatus::Error, Some(error.message));
                    match r {
                        Ok(()) => {
                            self.schedule_reconnect(false, now_ms);
                            proof {
                                assert(sink.received().subrange(0, start.len() as int) =~= start);
                                assert(sink.received()[start.len() as int] == first[start.len() as int]);
                                assert(kick_status_event(
                                    old(self).auth_state,
                                    old(self).channel_slug,
                                    PlatformStatus::Error,
                                    Some(m),
                                    sink.received().last(),
                                ));
                            }
                            Ok(())
                        },
                        Err(e) => {
                            proof {
                                assert(sink.received().subrange(0, start.len() as int) =~= start);
                            }
                            Err(e)
                        },
                    }
                },
            }
        } else {
            let ghost a = *self;
            let drained = self.client.drain_messages();
            let ghost r0 = drained;
            let ghost c1 = self.client;
            assert(a.client.drains_messages(r0, c1));
            let messages = match drained {
                Ok(m) => m,
                Err(error) => {
                    let r = self.handle_transport_poll_error(sink, error, now_ms);
                    assert(kick_drain_failed(a, c1, *self, error, now_ms, start, sink.received(), r is Ok));
                    return r;
                },
            };
            let drained = self.client.drain_follow_events();
            let ghost r1 = drained;
            let ghost c2 = self.client;
            assert(c1.drains_follows(r1, c2));
            let follows = match drained {
                Ok(v) => v,
                Err(error) => {
                    let r = self.handle_transport_poll_error(sink, error, now_ms);
                    assert(kick_drain_failed(a, c2, *self, error, now_ms, start, sink.received(), r is Ok));
                    assert(kick_after_messages(a, c1, *self, messages@, images@, *format_duration, now@, now_ms, start, sink.received(), r is Ok));
                    return r;
                },
            };
            let drained = self.client.drain_subscription_events();
            let ghost r2 = drained;
            let ghost c3 = self.client;
            assert(c2.drains_subscriptions(r2, c3));
            let subs = match drained {
                Ok(v) => v,
                Err(error) => {
                    let r = self.handle_transport_poll_error(sink, error, now_ms);
                    assert(kick_drain_failed(a, c3, *self, error, now_ms, start, sink.received(), r is Ok));
                    assert(kick_after_follows(a, c2, *self, messages@, follows@, images@, *format_duration, now@, now_ms, start, sink.received(), r is Ok));
                    assert(kick_after_messages(a, c1, *self, messages@, images@, *format_duration, now@, now_ms, start, sink.received(), r is Ok));
                    return r;
                },
            };
            let drained = self.client.drain_ban_events();
            let ghost r3 = drained;
            let ghost c4 = self.client;
            assert(c3.drains_bans(r3, c4));
            let bans = match drained {
                Ok(v) => v,
                Err(error) => {
                    let r = self.handle_transport_poll_error(sink, error, now_ms);
                    assert(kick_drain_failed(a, c4, *self, error, now_ms, start, sink.received(), r is Ok));
                    assert(kick_after_subs(a, c3, *self, messages@, follows@, subs@, images@, *format_duration, now@, now_ms, start, sink.received(), r is Ok));
                    assert(kick_after_follows(a, c2, *self, messages@, follows@, images@, *format_duration, now@, now_ms, start, sink.received(), r is Ok));
                    assert(kick_after_messages(a, c1, *self, messages@, images@, *format_duration, now@, now_ms, start, sink.received(), r is Ok));
                    return r;
                },
            };
            let drained = self.client.drain_unban_events();
            let ghost r4 = drained;
            let ghost c5 = self.client;
            assert(c4.drains_unbans(r4, c5));
            let unbans = match drained {
                Ok(v) => v,
                Err(error) => {
                    let r = self.handle_transport_poll_error(sink, error, now_ms);
                    assert(kick_drain_failed(a, c5, *self, error, now_ms, start, sink.received(), r is Ok));
                    assert(kick_after_bans(a, c4, *self, messages@, follows@, subs@, bans@, images@, *format_duration, now@, now_ms, start, sink.received(), r is Ok));
                    assert(kick_after_subs(a, c3, *self, messages@, follows@, subs@, images@, *format_duration, now@, now_ms, start, sink.received(), r is Ok));
                    assert(kick_after_follows(a, c2, *self, messages@, follows@, images@, *format_duration, now@, now_ms, start, sink.received(), r is Ok));
                    assert(kick_after_messages(a, c1, *self, messages@, images@, *format_duration, now@, now_ms, start, sink.received(), r is Ok));
                    return r;
                },
            };
            let ghost (ms, fs, ss, bs, us) = (messages, follows, subs, bans, unbans);
            assert(*self == with_client(a, c5));
            let r = self.hand_on_drained(sink, images, format_duration, now, messages, follows, subs, bans, unbans);
            proof {
                assert(kick_after_bans(a, c4, *self, ms@, fs@, ss@, bs@, images@, *format_duration, now@, now_ms, start, sink.received(), r is Ok));
                assert(kick_after_subs(a, c3, *self, ms@, fs@, ss@, images@, *format_duration, now@, now_ms, start, sink.received(), r is Ok));
                assert(kick_after_follows(a, c2, *self, ms@, fs@, images@, *format_duration, now@, now_ms, start, sink.received(), r is Ok));
                assert(kick_after_messages(a, c1, *self, ms@, images@, *format_duration, now@, now_ms, start, sink.received(), r is Ok));
            }
            r
        }
    }
}

/// After `key` is set in a list of pairs, looking it up gives the value it was set to.
proof fn lemma_lookup_after_set(old: Seq<(String, String)>, new: Seq<(String, String)>, key: Seq<char>)
    requires
        crate::platforms::keyed_set(old, new, key),
    ensures
        lookup(new, key) == Some(new[crate::platforms::key_slot(old, key)].1@),
{
    let slot = crate::platforms::key_slot(old, key);
    crate::platforms::lemma_key_index_bound(old, key);
    lemma_key_index_first(old, key);
    assert(slot <= old.len());
    assert forall|j: int| 0 <= j < slot implies (#[trigger] new[j]).0@ != key by {
        match crate::platforms::key_index(old, key) {
            Some(i) => {
                assert(new == old.update(i, new[i]));
                assert(new[j] == old[j]);
            },
            None => {
                assert(new == old.push(new[old.len() as int]));
                assert(new[j] == old[j]);
            },
        }
    }
    crate::platforms::lemma_key_index(new, key, slot);
}

/// No entry before the one `key_index` finds has the key; with none found, no entry has it.
proof fn lemma_key_index_first(m: Seq<(String, String)>, key: Seq<char>)
    ensures
        forall|j: int|
            0 <= j < crate::platforms::key_slot(m, key) && j < m.len() ==> (#[trigger] m[j]).0@ != key,
    decreases m.len(),
{
    if m.len() > 0 && m[0].0@ != key {
        lemma_key_index_first(m.drop_first(), key);
        assert forall|j: int| 0 <= j < crate::platforms::key_slot(m, key) && j < m.len() implies (#[trigger] m[j]).0@
            != key by {
            if j > 0 {
                assert(m[j] == m.drop_first()[j - 1]);
            }
        }
    }
}

} // verus!
