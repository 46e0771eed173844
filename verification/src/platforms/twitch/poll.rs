//! One poll of the Twitch adapter: the chat messages and events the client has received, in
//! the form shared by every platform.
use crate::platforms::twitch::adapter::{
    normalize_channel, normalize_twitch_event, twitch_emote_url, twitch_event_frame, twitch_event_normalized,
    TwitchAdapter, TwitchChatClient, TwitchChatEvent, TwitchChatMessage, TwitchChatMessageView,
};
use crate::platforms::{emit_all, lookup, lookup_exec, PlatformError, PlatformEvent, PlatformEventSink};
use crate::protocol::types::{
    badges_view, emotes_view, insert_json_number, insert_json_text, json_fields, new_json_object, Badge, BadgeView,
    ChatAuthor, ChatAuthorView, ChatMessageType, Emote, EmotePosition, EmoteView, EventUser,
    JsonField, MessageView, NormalizedChatMessage, NormalizedEvent, NormalizedEventType, Platform,
};
use crate::text::{owned, push_str, trim_start_char, unicode_lowercase};
use vstd::prelude::*;

verus! {

/// A Twitch badge `(set, version)` as shown: `set/version` is its id and the key of its image
/// in `cache`.
pub open spec fn twitch_badge_view(badge: (Seq<char>, Seq<char>), cache: Seq<(String, String)>) -> BadgeView {
    let key = badge.0 + "/"@ + badge.1;
    (key, badge.0, badge.0, lookup(cache, key))
}

/// A Twitch emote span as shown: its CDN image and one position.
pub open spec fn twitch_emote_view(e: (Seq<char>, Seq<char>, u32, u32)) -> EmoteView {
    (
        e.0,
        e.1,
        "https://static-cdn.jtvnw.net/emoticons/v2/"@ + e.0 + "/default/dark/1.0"@,
        seq![EmotePosition { start: e.2, end: e.3 }],
        None,
    )
}

/// A Twitch chat message in the form shared by every platform, with badge images from
/// `cache`.
pub open spec fn twitch_message_view(m: TwitchChatMessageView, cache: Seq<(String, String)>) -> MessageView {
    let author: ChatAuthorView = (
        m.user_id,
        Some(m.username),
        m.display_name,
        m.color,
        None::<Seq<char>>,
        Seq::new(m.badges.len(), |i: int| twitch_badge_view(m.badges[i], cache)),
    );
    (
        m.id,
        Platform::Twitch,
        unicode_lowercase(trim_start_char(m.channel, '#')),
        author,
        m.text,
        Seq::new(m.emotes.len(), |i: int| twitch_emote_view(m.emotes[i])),
        m.timestamp,
        if m.is_action {
            ChatMessageType::Action
        } else {
            ChatMessageType::Message
        },
        m.reply,
    )
}

/// The cheer of a Twitch message as an event: the channel, the message and the bits.
pub open spec fn twitch_bits_normalized(m: TwitchChatMessageView, bits: u64, r: NormalizedEvent) -> bool {
    &&& r.id@ == "twitch:bits:"@ + m.user_id + ":"@ + m.id
    &&& r.platform == Platform::Twitch
    &&& r.event_type == NormalizedEventType::Bits
    &&& r.user.id@ == m.user_id
    &&& r.user.display_name@ == m.display_name
    &&& r.user.avatar_url is None
    &&& json_fields(r.data) == Map::<Seq<char>, JsonField>::empty().insert(
        "channelId"@,
        JsonField::Text(unicode_lowercase(trim_start_char(m.channel, '#'))),
    ).insert("message"@, JsonField::Text(m.text)).insert("bits"@, JsonField::Number(bits))
    &&& r.timestamp@ == m.timestamp
}

/// The cheer of a Twitch message as an event.
pub fn normalize_bits_event(message: &TwitchChatMessage, bits: u64) -> (r: NormalizedEvent)
    ensures
        twitch_bits_normalized(message@, bits, r),
{
    let mut data = new_json_object();
    insert_json_text(&mut data, "channelId", normalize_channel(message.channel.as_str()));
    insert_json_text(&mut data, "message", message.text.clone());
    insert_json_number(&mut data, "bits", bits);
    let mut id = owned("twitch:bits:");
    push_str(&mut id, message.user_id.as_str());
    push_str(&mut id, ":");
    push_str(&mut id, message.id.as_str());
    NormalizedEvent {
        id,
        platform: Platform::Twitch,
        event_type: NormalizedEventType::Bits,
        user: EventUser { id: message.user_id.clone(), display_name: message.display_name.clone(), avatar_url: None },
        data,
        timestamp: message.timestamp.clone(),
    }
}

/// `events` hands on `messages`, each preceded by its cheer when it has bits.
pub open spec fn twitch_messages_handed_on(
    messages: Seq<TwitchChatMessageView>,
    cache: Seq<(String, String)>,
    events: Seq<PlatformEvent>,
) -> bool
    decreases messages.len(),
{
    if messages.len() == 0 {
        events.len() == 0
    } else {
        let m = messages.last();
        let rest = messages.drop_last();
        match m.bits {
            Some(bits) => events.len() >= 2 && twitch_messages_handed_on(rest, cache, events.drop_last().drop_last())
                && (events[events.len() - 2] matches PlatformEvent::Event(e) && twitch_bits_normalized(m, bits, e))
                && (events.last() matches PlatformEvent::Message(n) && n@ == twitch_message_view(m, cache)),
            None => events.len() >= 1 && twitch_messages_handed_on(rest, cache, events.drop_last())
                && (events.last() matches PlatformEvent::Message(n) && n@ == twitch_message_view(m, cache)),
        }
    }
}

/// `events` hands on the Twitch `drained` events, stamped `now`.
pub open spec fn twitch_events_handed_on(drained: Seq<TwitchChatEvent>, now: Seq<char>, events: Seq<PlatformEvent>) -> bool {
    &&& events.len() == drained.len()
    &&& forall|i: int|
        0 <= i < drained.len() ==> (#[trigger] events[i] matches PlatformEvent::Event(e) && twitch_event_frame(e, now)
            && twitch_event_normalized(drained[i]@, e))
}

impl<C> TwitchAdapter<C> {
    /// A Twitch chat message in the form shared by every platform, with badge images from the
    /// badge cache.
    pub fn normalize_message(&self, message: TwitchChatMessage) -> (r: NormalizedChatMessage)
        ensures
            r@ == twitch_message_view(message@, self.badge_cache@),
    {
        let ghost m = message@;
        let channel_id = normalize_channel(message.channel.as_str());
        let mut badges: Vec<Badge> = Vec::new();
        let mut i: usize = 0;
        while i < message.badges.len()
            invariant
                i <= message.badges@.len(),
                m == message@,
                badges@.len() == i,
                forall|j: int| 0 <= j < i ==> #[trigger] badges@[j]@ == twitch_badge_view(m.badges[j], self.badge_cache@),
            decreases message.badges@.len() - i,
        {
            let b = &message.badges[i];
            let mut key = b.0.clone();
            push_str(&mut key, "/");
            push_str(&mut key, b.1.as_str());
            let image_url = lookup_exec(&self.badge_cache, key.as_str());
            badges.push(Badge { id: key, badge_type: b.0.clone(), text: b.0.clone(), image_url });
            i = i + 1;
        }
        let mut emotes: Vec<Emote> = Vec::new();
        let mut k: usize = 0;
        while k < message.emotes.len()
            invariant
                k <= message.emotes@.len(),
                m == message@,
                emotes@.len() == k,
                forall|j: int| 0 <= j < k ==> #[trigger] emotes@[j]@ == twitch_emote_view(m.emotes[j]),
            decreases message.emotes@.len() - k,
        {
            let e = &message.emotes[k];
            let positions = vec![EmotePosition { start: e.start, end: e.end }];
            assert(positions@ =~= seq![EmotePosition { start: e.start, end: e.end }]);
            emotes.push(
                Emote {
                    id: e.id.clone(),
                    name: e.name.clone(),
                    image_url: twitch_emote_url(e.id.as_str()),
                    positions,
                    aspect_ratio_bits: None,
                },
            );
            k = k + 1;
        }
        let r = NormalizedChatMessage {
            id: message.id,
            platform: Platform::Twitch,
            channel_id,
            author: ChatAuthor {
                id: message.user_id,
                username: Some(message.username),
                display_name: message.display_name,
                color: message.color,
                avatar_url: None,
                badges,
            },
            text: message.text,
            emotes,
            timestamp: message.timestamp,
            message_type: if message.is_action {
                ChatMessageType::Action
            } else {
                ChatMessageType::Message
            },
            reply: message.reply,
        };
        proof {
            assert(badges_view(r.author.badges@) =~= Seq::new(
                m.badges.len(),
                |i: int| twitch_badge_view(m.badges[i], self.badge_cache@),
            ));
            assert(emotes_view(r.emotes@) =~= Seq::new(m.emotes.len(), |i: int| twitch_emote_view(m.emotes[i])));
        }
        r
    }

    /// The drained messages as events, each preceded by its cheer when it has bits.
    fn message_events(&self, messages: Vec<TwitchChatMessage>) -> (r: Vec<PlatformEvent>)
        ensures
            twitch_messages_handed_on(Seq::new(messages@.len(), |i: int| messages@[i]@), self.badge_cache@, r@),
    {
        let ghost all = Seq::new(messages@.len(), |i: int| messages@[i]@);
        let n: usize = messages.len();
        let mut rest = messages;
        let mut events: Vec<PlatformEvent> = Vec::new();
        let mut k: usize = 0;
        while rest.len() > 0
            invariant
                k + rest@.len() == all.len(),
                all.len() == n,
                forall|j: int| 0 <= j < rest@.len() ==> #[trigger] rest@[j]@ == all[k + j],
                twitch_messages_handed_on(all.take(k as int), self.badge_cache@, events@),
            decreases rest@.len(),
        {
            let ghost r0 = rest@;
            let m = rest.remove(0);
            assert(m == r0[0]);
            assert(m@ == all[k as int]);
            assert forall|j: int| 0 <= j < rest@.len() implies #[trigger] rest@[j]@ == all[k + 1 + j] by {
                assert(rest@[j] == r0[j + 1]);
                assert(r0[j + 1]@ == all[k + (j + 1)]);
            }
            let ghost before = events@;
            match m.bits {
                Some(bits) => {
                    events.push(PlatformEvent::Event(normalize_bits_event(&m, bits)));
                },
                None => {},
            }
            events.push(PlatformEvent::Message(self.normalize_message(m)));
            proof {
                assert(all.take(k + 1).drop_last() =~= all.take(k as int));
                assert(all.take(k + 1).last() == all[k as int]);
                if all[k as int].bits is Some {
                    assert(events@.drop_last().drop_last() =~= before);
                } else {
                    assert(events@.drop_last() =~= before);
                }
            }
            k = k + 1;
        }
        assert(all.take(k as int) =~= all);
        events
    }
}

/// The views of a list of drained messages.
pub open spec fn message_views(ms: Seq<TwitchChatMessage>) -> Seq<TwitchChatMessageView> {
    Seq::new(ms.len(), |i: int| ms[i]@)
}

/// After the messages were handed on (the sink then holding `mid_sink`), the client (then
/// `c1`) is asked for its events, leaving it as `last`: an error is handed back; events are
/// handed on, stamped `now`, stopping at the first the sink refuses.
pub open spec fn twitch_after_messages<C: TwitchChatClient>(
    c1: C,
    last: C,
    now: Seq<char>,
    mid_sink: Seq<PlatformEvent>,
    after: Seq<PlatformEvent>,
    r: Result<(), PlatformError>,
) -> bool {
    exists|r1: Result<Vec<TwitchChatEvent>, PlatformError>|
        #[trigger] c1.drains_events(r1, last) && match r1 {
            Err(e) => r == Err::<(), PlatformError>(e) && after == mid_sink,
            Ok(evs) => exists|evh: Seq<PlatformEvent>|
                #[trigger] twitch_events_handed_on(evs@, now, evh) && (r is Ok ==> after == mid_sink + evh) && (
                r is Err ==> exists|k: int| 0 <= k < evh.len() && after == mid_sink + #[trigger] evh.take(k)),
        }
}

/// What a poll does, from client `first` to client `last` and from `before` to `after` in the
/// sink, answering `r`: the client is asked for its messages; an error is handed back;
/// messages are handed on (each after its cheer) with badge images from `cache`, stopping at
/// the first event the sink refuses; then the client, in the state that drain left it, is
/// asked for its events ([`twitch_after_messages`]).
pub open spec fn twitch_poll_outcome<C: TwitchChatClient>(
    first: C,
    last: C,
    cache: Seq<(String, String)>,
    now: Seq<char>,
    before: Seq<PlatformEvent>,
    after: Seq<PlatformEvent>,
    r: Result<(), PlatformError>,
) -> bool {
    exists|r0: Result<Vec<TwitchChatMessage>, PlatformError>, c1: C|
        #[trigger] first.drains_messages(r0, c1) && match r0 {
            Err(e) => r == Err::<(), PlatformError>(e) && after == before && last == c1,
            Ok(ms) => exists|handed: Seq<PlatformEvent>|
                #[trigger] twitch_messages_handed_on(message_views(ms@), cache, handed) && {
                    ||| r is Err && last == c1 && exists|k: int|
                        0 <= k < handed.len() && after == before + #[trigger] handed.take(k)
                    ||| twitch_after_messages(c1, last, now, before + handed, after, r)
                },
        }
}

/// The drained Twitch events as events, stamped `now`.
fn chat_events(drained: Vec<TwitchChatEvent>, now: &str) -> (r: Vec<PlatformEvent>)
    ensures
        twitch_events_handed_on(drained@, now@, r@),
{
    let ghost all = drained@;
    let n: usize = drained.len();
    let mut rest = drained;
    let mut out: Vec<PlatformEvent> = Vec::new();
    let mut k: usize = 0;
    while rest.len() > 0
        invariant
            k + rest@.len() == all.len(),
            all.len() == n,
            rest@ == all.skip(k as int),
            out@.len() == k,
            forall|i: int|
                0 <= i < k ==> (#[trigger] out@[i] matches PlatformEvent::Event(e) && twitch_event_frame(e, now@)
                    && twitch_event_normalized(all[i]@, e)),
        decreases rest@.len(),
    {
        let e = rest.remove(0);
        assert(e == all[k as int]);
        out.push(PlatformEvent::Event(normalize_twitch_event(e, owned(now))));
        assert(rest@ =~= all.skip(k + 1));
        k = k + 1;
    }
    out
}

impl<C: TwitchChatClient> TwitchAdapter<C> {
    /// One poll: hands on the chat messages the client has received (each after its cheer,
    /// when it has bits), then its events, stamped `now`; a drain error or a refused event is
    /// handed back.
    pub fn poll<S: PlatformEventSink>(&mut self, sink: &mut S, now: &str) -> (r: Result<(), PlatformError>)
        ensures
            final(self).channel_name == old(self).channel_name,
            final(self).auth_state == old(self).auth_state,
            final(self).badge_cache == old(self).badge_cache,
            final(self).is_connected == old(self).is_connected,
            twitch_poll_outcome(
                old(self).client,
                final(self).client,
                old(self).badge_cache@,
                now@,
                old(sink).received(),
                final(sink).received(),
                r,
            ),
    {
        let ghost before = sink.received();
        let drained = self.client.drain_messages();
        let ghost r0 = drained;
        let ghost c1 = self.client;
        assert(old(self).client.drains_messages(r0, c1));
        let messages = match drained {
            Ok(m) => m,
            Err(e) => return Err(e),
        };
        let ghost ms = messages;
        let handed = self.message_events(messages);
        let ghost hv = handed@;
        match emit_all(sink, handed) {
            Ok(()) => {},
            Err(e) => {
                assert(twitch_messages_handed_on(message_views(ms@), old(self).badge_cache@, hv));
                return Err(e);
            },
        }
        let drained_events = self.client.drain_events();
        let ghost r1 = drained_events;
        assert(c1.drains_events(r1, self.client));
        let evs = match drained_events {
            Ok(v) => v,
            Err(e) => {
                assert(twitch_after_messages(c1, self.client, now@, before + hv, sink.received(), Err(e)));
                assert(twitch_messages_handed_on(message_views(ms@), old(self).badge_cache@, hv));
                return Err(e);
            },
        };
        let ghost evs_ghost = evs;
        let evh = chat_events(evs, now);
        let ghost evhv = evh@;
        let r = emit_all(sink, evh);
        proof {
            assert(twitch_events_handed_on(evs_ghost@, now@, evhv));
            assert(twitch_after_messages(c1, self.client, now@, before + hv, sink.received(), r));
            assert(twitch_messages_handed_on(message_views(ms@), old(self).badge_cache@, hv));
        }
        r
    }
}

} // verus!
