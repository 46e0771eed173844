//! What the YouTube adapter does with each signal its chat stream pushes: chat items are handed
//! on in the form shared by every platform; an ended or failed stream is reopened.
use crate::platforms::youtube::adapter::{
    badges_view, non_empty_timestamp, reauth_reason, youtube_badges, youtube_badges_spec, yt_badges_view,
    yt_connect_outcome,
    YouTubeAdapter, YouTubeAuthState,
};
use crate::platforms::youtube::transport::{
    YouTubeMembership, YouTubeStreamItem, YouTubeStreamSignal, YouTubeStreamingTransport, YouTubeSuperChat,
    YouTubeTextMessage,
};
use crate::platforms::{PlatformError, PlatformEvent, PlatformEventSink};
use crate::protocol::types::{
    insert_json_bool, insert_json_number, insert_json_text, json_fields, new_json_object, ChatAuthor,
    ChatMessageType, EventUser, JsonField, NormalizedChatMessage, NormalizedEvent, NormalizedEventType, Platform,
    PlatformStatus, PlatformStatusInfo, PlatformStatusMode,
};
use crate::text::{decimal, owned};
use vstd::prelude::*;

verus! {

/// The characters of an optional string.
pub open spec fn opt_chars_of(o: Option<String>) -> Option<Seq<char>> {
    match o {
        Some(s) => Some(s@),
        None => None,
    }
}

/// `fields` with `key` set to the string `value` when there is one.
pub open spec fn with_opt_text(fields: Map<Seq<char>, JsonField>, key: Seq<char>, value: Option<Seq<char>>) -> Map<
    Seq<char>,
    JsonField,
> {
    match value {
        Some(v) => fields.insert(key, JsonField::Text(v)),
        None => fields,
    }
}

/// A YouTube timestamp, or the time `now` (seconds) when it is empty.
pub open spec fn youtube_time(timestamp: Seq<char>, now: u64) -> Seq<char> {
    if timestamp.len() == 0 {
        decimal(now as nat)
    } else {
        timestamp
    }
}

/// The JSON data of a Super Chat: channel, live chat, amount (in micros and as shown),
/// currency, whether it is a sticker, and the comment when there is one.
pub open spec fn super_chat_fields(e: YouTubeSuperChat) -> Map<Seq<char>, JsonField> {
    with_opt_text(
        Map::empty().insert("channelId"@, JsonField::Text(e.channel_id@)).insert(
            "liveChatId"@,
            JsonField::Text(e.live_chat_id@),
        ).insert("amountMicros"@, JsonField::Number(e.amount_micros)).insert(
            "amount"@,
            JsonField::Text(e.amount_display_string@),
        ).insert("currency"@, JsonField::Text(e.currency@)).insert("sticker"@, JsonField::Flag(e.is_sticker)),
        "comment"@,
        opt_chars_of(e.comment),
    )
}

/// The JSON data of a membership: channel, live chat, and its level, months and message when
/// known.
pub open spec fn membership_fields(e: YouTubeMembership) -> Map<Seq<char>, JsonField> {
    let base = Map::empty().insert("channelId"@, JsonField::Text(e.channel_id@)).insert(
        "liveChatId"@,
        JsonField::Text(e.live_chat_id@),
    );
    let with_level = with_opt_text(base, "levelName"@, opt_chars_of(e.level_name));
    let with_months = match e.months {
        Some(m) => with_level.insert("months"@, JsonField::Number(m as u64)),
        None => with_level,
    };
    with_opt_text(with_months, "message"@, opt_chars_of(e.message))
}

/// A Super Chat in the form shared by every platform, stamped `now` when it has no time.
pub open spec fn super_chat_normalized(e: YouTubeSuperChat, now: u64, r: NormalizedEvent) -> bool {
    &&& r.id == e.id
    &&& r.platform == Platform::Youtube
    &&& r.event_type == NormalizedEventType::Superchat
    &&& r.user.id == e.author.channel_id
    &&& r.user.display_name == e.author.display_name
    &&& r.user.avatar_url == e.author.avatar_url
    &&& json_fields(r.data) == super_chat_fields(e)
    &&& r.timestamp@ == youtube_time(e.timestamp@, now)
}

/// A membership in the form shared by every platform, stamped `now` when it has no time.
pub open spec fn membership_normalized(e: YouTubeMembership, now: u64, r: NormalizedEvent) -> bool {
    &&& r.id == e.id
    &&& r.platform == Platform::Youtube
    &&& r.event_type == NormalizedEventType::Membership
    &&& r.user.id == e.author.channel_id
    &&& r.user.display_name == e.author.display_name
    &&& r.user.avatar_url == e.author.avatar_url
    &&& json_fields(r.data) == membership_fields(e)
    &&& r.timestamp@ == youtube_time(e.timestamp@, now)
}

/// A YouTube text message in the form shared by every platform: shown in its own channel, or
/// in `current_channel` when it names none; stamped `now` when it has no time.
pub open spec fn text_message_normalized(
    m: YouTubeTextMessage,
    current_channel: Seq<char>,
    now: u64,
    r: NormalizedChatMessage,
) -> bool {
    &&& r.id == m.id
    &&& r.platform == Platform::Youtube
    &&& r.channel_id@ == (if m.channel_id@.len() == 0 {
        current_channel
    } else {
        m.channel_id@
    })
    &&& r.author.id@ == m.author.channel_id@
    &&& opt_chars_of(r.author.username) == opt_chars_of(m.author.username)
    &&& r.author.display_name@ == m.author.display_name@
    &&& r.author.color is None
    &&& opt_chars_of(r.author.avatar_url) == opt_chars_of(m.author.avatar_url)
    &&& badges_view(r.author.badges@) == youtube_badges_spec(m.author, yt_badges_view(m.badges@))
    &&& r.text == m.text
    &&& r.emotes@.len() == 0
    &&& r.timestamp@ == youtube_time(m.timestamp@, now)
    &&& r.message_type == ChatMessageType::Message
    &&& r.reply is None
}

/// A Super Chat in the form shared by every platform.
pub fn normalize_super_chat(event: YouTubeSuperChat, now: u64) -> (r: NormalizedEvent)
    ensures
        super_chat_normalized(event, now, r),
{
    let ghost e = event;
    let mut data = new_json_object();
    insert_json_text(&mut data, "channelId", event.channel_id);
    insert_json_text(&mut data, "liveChatId", event.live_chat_id);
    insert_json_number(&mut data, "amountMicros", event.amount_micros);
    insert_json_text(&mut data, "amount", event.amount_display_string);
    insert_json_text(&mut data, "currency", event.currency);
    insert_json_bool(&mut data, "sticker", event.is_sticker);
    match event.comment {
        Some(c) => insert_json_text(&mut data, "comment", c),
        None => {},
    }
    let author = event.author;
    NormalizedEvent {
        id: event.id,
        platform: Platform::Youtube,
        event_type: NormalizedEventType::Superchat,
        user: EventUser { id: author.channel_id, display_name: author.display_name, avatar_url: author.avatar_url },
        data,
        timestamp: non_empty_timestamp(event.timestamp, now),
    }
}

/// A membership in the form shared by every platform.
pub fn normalize_membership(event: YouTubeMembership, now: u64) -> (r: NormalizedEvent)
    ensures
        membership_normalized(event, now, r),
{
    let ghost e = event;
    let mut data = new_json_object();
    insert_json_text(&mut data, "channelId", event.channel_id);
    insert_json_text(&mut data, "liveChatId", event.live_chat_id);
    match event.level_name {
        Some(l) => insert_json_text(&mut data, "levelName", l),
        None => {},
    }
    match event.months {
        Some(m) => insert_json_number(&mut data, "months", m as u64),
        None => {},
    }
    match event.message {
        Some(m) => insert_json_text(&mut data, "message", m),
        None => {},
    }
    let author = event.author;
    NormalizedEvent {
        id: event.id,
        platform: Platform::Youtube,
        event_type: NormalizedEventType::Membership,
        user: EventUser { id: author.channel_id, display_name: author.display_name, avatar_url: author.avatar_url },
        data,
        timestamp: non_empty_timestamp(event.timestamp, now),
    }
}

/// The reason a YouTube account must sign in again, if it must.
pub open spec fn youtube_reauth_view(auth: YouTubeAuthState) -> Option<Seq<char>> {
    match auth {
        YouTubeAuthState::ReauthRequired { reason, .. } => Some(reason@),
        _ => None,
    }
}

/// `ev` reports the YouTube adapter's `status` with `error`, for its auth state and channel.
pub open spec fn youtube_status_event(
    auth: YouTubeAuthState,
    slug: Option<String>,
    status: PlatformStatus,
    error: Option<Seq<char>>,
    ev: PlatformEvent,
) -> bool {
    ev matches PlatformEvent::Status(info) && info.platform == Platform::Youtube && info.status == status
        && opt_chars_of(info.error) == error && info.mode == (if auth is Authenticated {
        PlatformStatusMode::Authenticated
    } else {
        PlatformStatusMode::Anonymous
    }) && opt_chars_of(info.channel_login) == opt_chars_of(slug)
}

/// `ev` hands on the pushed chat item `item`, stamped `now` when it has no time, a text
/// message shown in `current_channel` when it names none.
pub open spec fn stream_item_event(item: YouTubeStreamItem, current_channel: Seq<char>, now: u64, ev: PlatformEvent) -> bool {
    match item {
        YouTubeStreamItem::Text(m) => ev matches PlatformEvent::Message(n) && text_message_normalized(
            m,
            current_channel,
            now,
            n,
        ),
        YouTubeStreamItem::SuperChat(s) => ev matches PlatformEvent::Event(n) && super_chat_normalized(s, now, n),
        YouTubeStreamItem::Membership(m) => ev matches PlatformEvent::Event(n) && membership_normalized(m, now, n),
    }
}

/// The id of the resolved channel, or empty before resolution.
pub open spec fn current_channel_of<T>(a: YouTubeAdapter<T>) -> Seq<char> {
    match a.resolved_channel {
        Some(c) => c.channel_id@,
        None => Seq::empty(),
    }
}

/// `a.reconnect_attempts + 1`, or the same when that does not fit.
pub open spec fn one_more_attempt(n: u32) -> u32 {
    if n == u32::MAX {
        u32::MAX
    } else {
        (n + 1) as u32
    }
}

/// What reopening the stream does, from `a` to `b` and from `before` to `after` in the sink,
/// answering `r`, for `reason`: without reconnecting, the stream is just dropped; else the
/// transport closes it (a refusal is handed back), and, in the state that left it, with the
/// stream dropped and the attempt counted, the adapter reconnects ([`yt_reopen_after_close`]).
pub open spec fn yt_reopen_outcome<T: YouTubeStreamingTransport>(
    a: YouTubeAdapter<T>,
    b: YouTubeAdapter<T>,
    before: Seq<PlatformEvent>,
    after: Seq<PlatformEvent>,
    reason: Seq<char>,
    r: Result<(), PlatformError>,
) -> bool {
    if !a.should_reconnect {
        r is Ok && after == before && b == (YouTubeAdapter { active_stream: None, is_connected: false, ..a })
    } else {
        exists|closed: Result<(), PlatformError>, t1: T|
            #[trigger] a.transport.closes(closed, t1) && match closed {
                Err(e) => r == Err::<(), PlatformError>(e) && after == before && b == (YouTubeAdapter {
                    transport: t1,
                    ..a
                }),
                Ok(()) => yt_reopen_after_close(
                    YouTubeAdapter {
                        transport: t1,
                        active_stream: None,
                        is_connected: false,
                        reconnect_attempts: one_more_attempt(a.reconnect_attempts),
                        ..a
                    },
                    b,
                    before,
                    after,
                    reason,
                    r,
                ),
            }
    }
}

/// After the stream was closed (the adapter then `c`): `Connecting` is reported with the
/// reason (when the sink refuses it, nothing else happens); then one connection attempt
/// ([`yt_connect_outcome`]) leads to `b`, and its outcome is reported
/// ([`yt_connect_reported`]).
pub open spec fn yt_reopen_after_close<T: YouTubeStreamingTransport>(
    c: YouTubeAdapter<T>,
    b: YouTubeAdapter<T>,
    before: Seq<PlatformEvent>,
    after: Seq<PlatformEvent>,
    reason: Seq<char>,
    r: Result<(), PlatformError>,
) -> bool {
    ||| r is Err && after == before && b == c
    ||| {
        &&& after.len() > before.len()
        &&& after.take(before.len() as int) == before
        &&& youtube_status_event(
            c.auth_state,
            c.channel_slug,
            PlatformStatus::Connecting,
            Some(reason),
            after[before.len() as int],
        )
        &&& exists|connected: Result<(), PlatformError>|
            #[trigger] yt_connect_outcome(c, b, connected) && yt_connect_reported(
                c,
                after.take(before.len() + 1 as int),
                after,
                connected,
                r,
            )
    }
}

/// How the outcome `connected` of a connection attempt is reported, from `mid` to `after` in
/// the sink, answering `r`: `Connected` (with the reauth reason) after a success; `Error` with
/// the attempt's message after a failure, whose error is then handed back; a refused report
/// is handed back with nothing added.
pub open spec fn yt_connect_reported<T>(
    c: YouTubeAdapter<T>,
    mid: Seq<PlatformEvent>,
    after: Seq<PlatformEvent>,
    connected: Result<(), PlatformError>,
    r: Result<(), PlatformError>,
) -> bool {
    ||| r is Err && after == mid
    ||| match connected {
        Ok(()) => r is Ok && after.len() == mid.len() + 1 && after.drop_last() == mid && youtube_status_event(
            c.auth_state,
            c.channel_slug,
            PlatformStatus::Connected,
            youtube_reauth_view(c.auth_state),
            after.last(),
        ),
        Err(e) => r == Err::<(), PlatformError>(e) && after.len() == mid.len() + 1 && after.drop_last() == mid
            && youtube_status_event(c.auth_state, c.channel_slug, PlatformStatus::Error, Some(e.message@), after.last()),
    }
}

/// `after` is `before` with the pushed item handed on, when `ok`; else `before` itself.
pub open spec fn item_handed_on(
    item: YouTubeStreamItem,
    current_channel: Seq<char>,
    now: u64,
    before: Seq<PlatformEvent>,
    after: Seq<PlatformEvent>,
    ok: bool,
) -> bool {
    if ok {
        after.len() == before.len() + 1 && after.drop_last() == before && stream_item_event(
            item,
            current_channel,
            now,
            after.last(),
        )
    } else {
        after == before
    }
}

impl<T: YouTubeStreamingTransport> YouTubeAdapter<T> {
    /// A YouTube text message in the form shared by every platform.
    pub fn normalize_text_message(&self, message: YouTubeTextMessage, now: u64) -> (r: NormalizedChatMessage)
        ensures
            text_message_normalized(message, current_channel_of(*self), now, r),
    {
        let ghost m = message;
        let channel_id = if message.channel_id.as_str().is_empty() {
            self.current_channel_id()
        } else {
            message.channel_id
        };
        let author = message.author;
        let badges = youtube_badges(&author, message.badges);
        NormalizedChatMessage {
            id: message.id,
            platform: Platform::Youtube,
            channel_id,
            author: ChatAuthor {
                id: author.channel_id,
                username: author.username,
                display_name: author.display_name,
                color: None,
                avatar_url: author.avatar_url,
                badges,
            },
            text: message.text,
            emotes: Vec::new(),
            timestamp: non_empty_timestamp(message.timestamp, now),
            message_type: ChatMessageType::Message,
            reply: None,
        }
    }

    /// Reports the adapter's status, with its auth mode and channel.
    pub fn emit_status<S: PlatformEventSink>(&self, sink: &mut S, status: PlatformStatus, error: Option<String>) -> (r:
        Result<(), PlatformError>)
        ensures
            r is Ok ==> final(sink).received().len() == old(sink).received().len() + 1
                && final(sink).received().drop_last() == old(sink).received() && youtube_status_event(
                self.auth_state,
                self.channel_slug,
                status,
                opt_chars_of(error),
                final(sink).received().last(),
            ),
            r is Err ==> final(sink).received() == old(sink).received(),
    {
        let info = PlatformStatusInfo {
            platform: Platform::Youtube,
            status,
            error,
            mode: self.auth_state.mode(),
            channel_login: match &self.channel_slug {
                Some(s) => Some(s.clone()),
                None => None,
            },
        };
        let r = sink.emit(PlatformEvent::Status(info));
        proof {
            if r is Ok {
                assert(sink.received().drop_last() =~= old(sink).received());
            }
        }
        r
    }

    /// Hands on one pushed chat item.
    pub fn emit_stream_item<S: PlatformEventSink>(&self, item: YouTubeStreamItem, sink: &mut S, now: u64) -> (r: Result<
        (),
        PlatformError,
    >)
        ensures
            r is Ok ==> final(sink).received().len() == old(sink).received().len() + 1
                && final(sink).received().drop_last() == old(sink).received() && stream_item_event(
                item,
                current_channel_of(*self),
                now,
                final(sink).received().last(),
            ),
            r is Err ==> final(sink).received() == old(sink).received(),
    {
        let ghost it = item;
        let event = match item {
            YouTubeStreamItem::Text(message) => PlatformEvent::Message(self.normalize_text_message(message, now)),
            YouTubeStreamItem::SuperChat(event) => PlatformEvent::Event(normalize_super_chat(event, now)),
            YouTubeStreamItem::Membership(event) => PlatformEvent::Event(normalize_membership(event, now)),
        };
        let ghost ev = event;
        assert(stream_item_event(it, current_channel_of(*self), now, ev));
        let r = sink.emit(event);
        proof {
            if r is Ok {
                assert(sink.received().drop_last() =~= old(sink).received());
            }
        }
        r
    }

    /// Leaves the chat for good: no more reconnects; unless the transport refuses to close the
    /// stream, the stream is dropped and the adapter counts as disconnected.
    pub fn disconnect(&mut self) -> (r: Result<(), PlatformError>)
        ensures
            !final(self).should_reconnect,
            final(self).channel_slug == old(self).channel_slug,
            final(self).auth_state == old(self).auth_state,
            final(self).resolved_channel == old(self).resolved_channel,
            exists|answer: Result<(), PlatformError>|
                #[trigger] old(self).transport.closes(answer, final(self).transport) && match answer {
                    Ok(()) => r is Ok && !final(self).is_connected && final(self).active_stream is None,
                    Err(e) => r == Err::<(), PlatformError>(e) && final(self).is_connected == old(self).is_connected
                        && final(self).active_stream == old(self).active_stream,
                },
    {
        self.should_reconnect = false;
        let answer = self.transport.close_stream();
        let ghost a = answer;
        assert(old(self).transport.closes(a, self.transport));
        match answer {
            Ok(()) => {},
            Err(e) => return Err(e),
        }
        self.active_stream = None;
        self.is_connected = false;
        assert(old(self).transport.closes(a, self.transport));
        Ok(())
    }

    /// Disconnects ([`YouTubeAdapter::disconnect`]) and reports `Disconnected`.
    pub fn disconnect_with_status<S: PlatformEventSink>(&mut self, sink: &mut S) -> (r: Result<(), PlatformError>)
        ensures
            !final(self).should_reconnect,
            r is Ok ==> !final(self).is_connected && final(self).active_stream is None
                && final(sink).received().len() == old(sink).received().len() + 1
                && final(sink).received().drop_last() == old(sink).received() && youtube_status_event(
                old(self).auth_state,
                old(self).channel_slug,
                PlatformStatus::Disconnected,
                None,
                final(sink).received().last(),
            ),
            r is Err ==> final(sink).received() == old(sink).received(),
    {
        match self.disconnect() {
            Ok(()) => {},
            Err(e) => return Err(e),
        }
        self.emit_status(sink, PlatformStatus::Disconnected, None)
    }

    /// Reopens the chat stream after it ended or failed, for `reason` ([`yt_reopen_outcome`]).
    pub fn reconnect_stream<S: PlatformEventSink>(&mut self, sink: &mut S, reason: &str) -> (r: Result<
        (),
        PlatformError,
    >)
        ensures
            yt_reopen_outcome(*old(self), *final(self), old(sink).received(), final(sink).received(), reason@, r),
    {
        let ghost start = sink.received();
        if !self.should_reconnect {
            self.active_stream = None;
            self.is_connected = false;
            return Ok(());
        }
        let closed = self.transport.close_stream();
        let ghost closed_answer = closed;
        let ghost t1 = self.transport;
        assert(old(self).transport.closes(closed_answer, t1));
        match closed {
            Ok(()) => {},
            Err(e) => {
                assert(*self == (YouTubeAdapter { transport: t1, ..*old(self) }));
                return Err(e);
            },
        }
        self.active_stream = None;
        self.is_connected = false;
        self.reconnect_attempts = self.reconnect_attempts.saturating_add(1);
        let ghost c = *self;
        assert(c == (YouTubeAdapter {
            transport: t1,
            active_stream: None,
            is_connected: false,
            reconnect_attempts: one_more_attempt(old(self).reconnect_attempts),
            ..*old(self)
        }));
        match self.emit_status(sink, PlatformStatus::Connecting, Some(owned(reason))) {
            Ok(()) => {},
            Err(e) => {
                return Err(e);
            },
        }
        let ghost first = sink.received();
        proof {
            assert(first.take(start.len() as int) =~= start);
            assert(first.take(start.len() + 1 as int) =~= first);
        }
        let connected = self.connect_once();
        let ghost connected_answer = connected;
        let ghost b = *self;
        assert(yt_connect_outcome(c, b, connected_answer));
        let r = match connected {
            Ok(()) => {
                let reason = reauth_reason(&self.auth_state);
                self.emit_status(sink, PlatformStatus::Connected, reason)
            },
            Err(error) => {
                let shown = error.message.clone();
                match self.emit_status(sink, PlatformStatus::Error, Some(shown)) {
                    Ok(()) => Err(error),
                    Err(e) => Err(e),
                }
            },
        };
        proof {
            assert(*self == b);
            assert(sink.received().take(start.len() as int) =~= start);
            assert(sink.received().take(start.len() + 1 as int) =~= first);
            assert(sink.received()[start.len() as int] == first[start.len() as int]);
            assert(yt_connect_reported(c, first, sink.received(), connected_answer, r));
            assert(yt_reopen_after_close(c, *self, start, sink.received(), reason@, r));
        }
        r
    }

    /// Acts on one signal of the chat stream: a chat item is handed on; an ended stream is
    /// reopened with its reason (or a default one); a failed stream is reported as an error,
    /// marked disconnected, and reopened with the error as the reason.
    pub fn handle_stream_signal<S: PlatformEventSink>(&mut self, signal: YouTubeStreamSignal, sink: &mut S, now: u64) -> (r:
        Result<(), PlatformError>)
        ensures
            match signal {
                YouTubeStreamSignal::Item(item) => *final(self) == *old(self) && item_handed_on(
                    *item,
                    current_channel_of(*old(self)),
                    now,
                    old(sink).received(),
                    final(sink).received(),
                    r is Ok,
                ),
                YouTubeStreamSignal::StreamEnded { reason } => yt_reopen_outcome(
                    *old(self),
                    *final(self),
                    old(sink).received(),
                    final(sink).received(),
                    match reason {
                        Some(t) => t@,
                        None => "YouTube live chat stream ended"@,
                    },
                    r,
                ),
                YouTubeStreamSignal::StreamError { message } => (exists|mid: YouTubeAdapter<T>, reported: Seq<PlatformEvent>|
                    {
                        &&& reported.len() == old(sink).received().len() + 1
                        &&& reported.drop_last() == old(sink).received()
                        &&& youtube_status_event(
                            old(self).auth_state,
                            old(self).channel_slug,
                            PlatformStatus::Error,
                            Some(message@),
                            reported.last(),
                        )
                        &&& mid == (YouTubeAdapter { is_connected: false, ..*old(self) })
                        &&& #[trigger] yt_reopen_outcome(mid, *final(self), reported, final(sink).received(), message@, r)
                    }) || (r is Err && final(sink).received() == old(sink).received()),
            },
    {
        match signal {
            YouTubeStreamSignal::Item(item) => self.emit_stream_item(*item, sink, now),
            YouTubeStreamSignal::StreamEnded { reason } => {
                let message = match reason {
                    Some(t) => t,
                    None => owned("YouTube live chat stream ended"),
                };
                self.reconnect_stream(sink, message.as_str())
            },
            YouTubeStreamSignal::StreamError { message } => {
                self.is_connected = false;
                let ghost mid = *self;
                match self.emit_status(sink, PlatformStatus::Error, Some(message.clone())) {
                    Ok(()) => {},
                    Err(e) => return Err(e),
                }
                let ghost reported = sink.received();
                let r = self.reconnect_stream(sink, message.as_str());
                proof {
                    assert(mid == (YouTubeAdapter { is_connected: false, ..*old(self) }));
                    assert(yt_reopen_outcome(mid, *self, reported, sink.received(), message@, r));
                }
                r
            },
        }
    }
}

} // verus!
