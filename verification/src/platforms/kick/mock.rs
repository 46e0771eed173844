//! A scripted Kick chat client for tests and demos.
use crate::platforms::kick::adapter::{
    normalize_channel_slug, normalized_slug, KickAvatarLookupRequest, KickChatClient, KickChatMessage, KickChatroom,
    KickFollowEvent, KickSendMessageRequest, KickStreamStatusRequest, KickSubscriptionEvent, KickTransportAuth,
    KickUserBannedEvent, KickUserUnbannedEvent,
};
use crate::platforms::{key_index, key_slot, keyed_set, upsert_keyed, PlatformError, TokenPair};
use crate::protocol::types::{Platform, StreamStatus};
use crate::text::{decimal, opt_chars, owned, push_str, trim, trimmed, u64_to_string};
use vstd::prelude::*;

verus! {

/// A message the mock was asked to send.
#[derive(Debug, Clone, PartialEq, Eq)]
pub struct SentKickMessage {
    pub broadcaster_user_id: u64,
    pub content: String,
    pub reply_to_message_id: Option<String>,
    pub auth: KickTransportAuth,
}

/// A Kick chat client that records what it is asked and answers from scripted data.
#[derive(Debug)]
pub struct MockKickClient {
    pub chatroom_resolutions: Vec<String>,
    pub subscribed_chatrooms: Vec<KickChatroom>,
    pub subscribe_auth: Vec<KickTransportAuth>,
    pub disconnect_count: u32,
    pub sent_messages: Vec<SentKickMessage>,
    pub refresh_calls: Vec<(String, String)>,
    pub stream_status_requests: Vec<KickStreamStatusRequest>,
    pub avatar_resolutions: Vec<KickAvatarLookupRequest>,
    pub chatrooms: Vec<(String, KickChatroom)>,
    pub avatar_urls: Vec<(String, String)>,
    pub missing_chatrooms: Vec<String>,
    pub incoming_messages: Vec<KickChatMessage>,
    pub follow_events: Vec<KickFollowEvent>,
    pub subscription_events: Vec<KickSubscriptionEvent>,
    pub refreshed_tokens: Vec<TokenPair>,
    pub next_drain_error: Option<String>,
    pub next_sent_id: u64,
}

fn copy_opt(o: &Option<String>) -> (r: Option<String>)
    ensures
        r == *o,
{
    match o {
        Some(s) => Some(s.clone()),
        None => None,
    }
}

/// A copy of a chatroom.
pub fn copy_chatroom(c: &KickChatroom) -> (r: KickChatroom)
    ensures
        r == *c,
{
    KickChatroom {
        channel_slug: c.channel_slug.clone(),
        chatroom_id: c.chatroom_id,
        broadcaster_user_id: c.broadcaster_user_id,
    }
}

/// A copy of a transport auth.
pub fn copy_transport_auth(a: &KickTransportAuth) -> (r: KickTransportAuth)
    ensures
        r == *a,
{
    match a {
        KickTransportAuth::Anonymous => KickTransportAuth::Anonymous,
        KickTransportAuth::Authenticated { account_id, platform_user_id, username, display_name, access_token } =>
            KickTransportAuth::Authenticated {
            account_id: account_id.clone(),
            platform_user_id: platform_user_id.clone(),
            username: username.clone(),
            display_name: display_name.clone(),
            access_token: access_token.clone(),
        },
        KickTransportAuth::ReauthRequired { account_id, reason } => KickTransportAuth::ReauthRequired {
            account_id: account_id.clone(),
            reason: reason.clone(),
        },
    }
}

/// The key an avatar is stored and looked up under: trimmed, without leading `@`, lowercased;
/// none when that is empty.
pub open spec fn avatar_key(value: Seq<char>) -> Option<Seq<char>> {
    if normalized_slug(value).len() == 0 {
        None
    } else {
        Some(normalized_slug(value))
    }
}

fn normalize_lookup_key(value: &str) -> (r: Option<String>)
    ensures
        opt_chars(r) == avatar_key(value@),
{
    let n = normalize_channel_slug(value);
    if n.as_str().is_empty() {
        None
    } else {
        Some(n)
    }
}

/// What a drain gives before its queue: the scripted error, once.
pub open spec fn drain_error(next: Option<String>) -> Option<Seq<char>> {
    opt_chars(next)
}

/// `new` is `old` with the chatroom of `slug` set to these ids.
pub open spec fn chatroom_added(
    old: Seq<(String, KickChatroom)>,
    new: Seq<(String, KickChatroom)>,
    slug: Seq<char>,
    chatroom_id: u64,
    broadcaster_user_id: u64,
) -> bool {
    let key = normalized_slug(slug);
    &&& keyed_set(old, new, key)
    &&& new[key_slot(old, key)].1.channel_slug@ == key
    &&& new[key_slot(old, key)].1.chatroom_id == chatroom_id
    &&& new[key_slot(old, key)].1.broadcaster_user_id == broadcaster_user_id
}

impl MockKickClient {
    /// Nothing recorded or scripted.
    pub fn new() -> (r: Self)
        ensures
            r.chatroom_resolutions@.len() == 0,
            r.subscribed_chatrooms@.len() == 0,
            r.subscribe_auth@.len() == 0,
            r.disconnect_count == 0,
            r.sent_messages@.len() == 0,
            r.refresh_calls@.len() == 0,
            r.stream_status_requests@.len() == 0,
            r.avatar_resolutions@.len() == 0,
            r.chatrooms@.len() == 0,
            r.avatar_urls@.len() == 0,
            r.missing_chatrooms@.len() == 0,
            r.incoming_messages@.len() == 0,
            r.follow_events@.len() == 0,
            r.subscription_events@.len() == 0,
            r.refreshed_tokens@.len() == 0,
            r.next_drain_error is None,
            r.next_sent_id == 1,
    {
        MockKickClient {
            chatroom_resolutions: Vec::new(),
            subscribed_chatrooms: Vec::new(),
            subscribe_auth: Vec::new(),
            disconnect_count: 0,
            sent_messages: Vec::new(),
            refresh_calls: Vec::new(),
            stream_status_requests: Vec::new(),
            avatar_resolutions: Vec::new(),
            chatrooms: Vec::new(),
            avatar_urls: Vec::new(),
            missing_chatrooms: Vec::new(),
            incoming_messages: Vec::new(),
            follow_events: Vec::new(),
            subscription_events: Vec::new(),
            refreshed_tokens: Vec::new(),
            next_drain_error: None,
            next_sent_id: 1,
        }
    }

    /// The same client knowing one more chatroom (see `add_chatroom`).
    pub fn with_chatroom(self, slug: &str, chatroom_id: u64, broadcaster_user_id: u64) -> (r: Self)
        ensures
            r == (MockKickClient { chatrooms: r.chatrooms, ..self }),
            chatroom_added(self.chatrooms@, r.chatrooms@, slug@, chatroom_id, broadcaster_user_id),
    {
        let mut s = self;
        s.add_chatroom(slug, chatroom_id, broadcaster_user_id);
        s
    }

    /// Knows the chatroom of `slug` (stored under the slug trimmed, without `@`, lowercased),
    /// replacing what was known for it.
    pub fn add_chatroom(&mut self, slug: &str, chatroom_id: u64, broadcaster_user_id: u64)
        ensures
            *final(self) == (MockKickClient { chatrooms: final(self).chatrooms, ..*old(self) }),
            chatroom_added(old(self).chatrooms@, final(self).chatrooms@, slug@, chatroom_id, broadcaster_user_id),
    {
        let normalized = normalize_channel_slug(slug);
        let room = KickChatroom { channel_slug: normalized.clone(), chatroom_id, broadcaster_user_id };
        upsert_keyed(&mut self.chatrooms, normalized, room);
    }

    /// Knows the avatar of a channel or user (stored under the name trimmed, without `@`,
    /// lowercased); a blank name is ignored.
    pub fn add_avatar(&mut self, slug_or_username: &str, avatar_url: &str)
        ensures
            *final(self) == (MockKickClient { avatar_urls: final(self).avatar_urls, ..*old(self) }),
            match avatar_key(slug_or_username@) {
                Some(key) => keyed_set(old(self).avatar_urls@, final(self).avatar_urls@, key)
                    && final(self).avatar_urls@[key_slot(old(self).avatar_urls@, key)].1@ == avatar_url@,
                None => final(self).avatar_urls@ == old(self).avatar_urls@,
            },
    {
        match normalize_lookup_key(slug_or_username) {
            Some(key) => upsert_keyed(&mut self.avatar_urls, key, owned(avatar_url)),
            None => {},
        }
    }

    /// The next chatroom lookup fails with `message`.
    pub fn push_missing_chatroom_once(&mut self, message: &str)
        ensures
            *final(self) == (MockKickClient { missing_chatrooms: final(self).missing_chatrooms, ..*old(self) }),
            final(self).missing_chatrooms@.len() == old(self).missing_chatrooms@.len() + 1,
            final(self).missing_chatrooms@.drop_last() == old(self).missing_chatrooms@,
            final(self).missing_chatrooms@.last()@ == message@,
    {
        self.missing_chatrooms.push(owned(message));
        assert(self.missing_chatrooms@.drop_last() =~= old(self).missing_chatrooms@);
    }

    /// Queues a chat message to be drained.
    pub fn push_message(&mut self, message: KickChatMessage)
        ensures
            *final(self) == (MockKickClient { incoming_messages: final(self).incoming_messages, ..*old(self) }),
            final(self).incoming_messages@ == old(self).incoming_messages@.push(message),
    {
        self.incoming_messages.push(message);
    }

    /// Queues a follow event to be drained.
    pub fn push_follow_event(&mut self, event: KickFollowEvent)
        ensures
            *final(self) == (MockKickClient { follow_events: final(self).follow_events, ..*old(self) }),
            final(self).follow_events@ == old(self).follow_events@.push(event),
    {
        self.follow_events.push(event);
    }

    /// Queues a subscription event to be drained.
    pub fn push_subscription_event(&mut self, event: KickSubscriptionEvent)
        ensures
            *final(self) == (MockKickClient { subscription_events: final(self).subscription_events, ..*old(self) }),
            final(self).subscription_events@ == old(self).subscription_events@.push(event),
    {
        self.subscription_events.push(event);
    }

    /// Queues a token for the next refresh.
    pub fn push_refreshed_token(&mut self, token: TokenPair)
        ensures
            *final(self) == (MockKickClient { refreshed_tokens: final(self).refreshed_tokens, ..*old(self) }),
            final(self).refreshed_tokens@ == old(self).refreshed_tokens@.push(token),
    {
        self.refreshed_tokens.push(token);
    }

    /// The next drain fails with `message`.
    pub fn push_drain_error_once(&mut self, message: &str)
        ensures
            *final(self) == (MockKickClient { next_drain_error: final(self).next_drain_error, ..*old(self) }),
            opt_chars(final(self).next_drain_error) == Some(message@),
    {
        self.next_drain_error = Some(owned(message));
    }

    /// The scripted drain error, taken.
    fn take_drain_error(&mut self) -> (r: Option<PlatformError>)
        ensures
            *final(self) == (MockKickClient { next_drain_error: None, ..*old(self) }),
            match old(self).next_drain_error {
                Some(m) => r matches Some(e) && e.platform == Platform::Kick && e.message@ == m@,
                None => r is None,
            },
    {
        let mut taken: Option<String> = None;
        core::mem::swap(&mut taken, &mut self.next_drain_error);
        match taken {
            Some(m) => Some(PlatformError::new(Platform::Kick, m)),
            None => None,
        }
    }
}

impl Default for MockKickClient {
    fn default() -> (r: Self)
        ensures
            r.chatrooms@.len() == 0,
            r.next_sent_id == 1,
    {
        MockKickClient::new()
    }
}

/// The message of a chatroom lookup that found nothing.
pub open spec fn chatroom_not_found(normalized: Seq<char>) -> Seq<char> {
    "Kick chatroom ID not found for channel \""@ + normalized + "\""@
}

/// The live status the mock reports for a request.
pub open spec fn mock_status_is(st: StreamStatus, request: KickStreamStatusRequest) -> bool {
    mock_status_for(st, request.channel_slug@, request.broadcaster_user_id)
}

/// The status the mock reports for a channel slug and an optional broadcaster id.
pub open spec fn mock_status_for(st: StreamStatus, channel_slug: Seq<char>, broadcaster_user_id: Option<u64>) -> bool {
    &&& st.platform == Platform::Kick
    &&& st.channel_id@ == match broadcaster_user_id {
        Some(id) => decimal(id as nat),
        None => channel_slug,
    }
    &&& st.is_live
    &&& st.title@ == channel_slug + " live"@
    &&& st.category_id is None
    &&& opt_chars(st.category_name) == Some("Just Chatting"@)
    &&& st.viewer_count == Some(123u64)
}

impl KickChatClient for MockKickClient {
    open spec fn gives_stream_status(&self, channel_slug: Seq<char>, broadcaster_user_id: Option<u64>, r: Result<
        StreamStatus,
        PlatformError,
    >) -> bool {
        r matches Ok(st) && mock_status_for(st, channel_slug, broadcaster_user_id)
    }

    open spec fn gives_chatroom(
        &self,
        channel_slug: Seq<char>,
        r: Result<KickChatroom, PlatformError>,
        next: Self,
    ) -> bool {
        &&& next.chatroom_resolutions@.len() == self.chatroom_resolutions@.len() + 1
        &&& next.chatroom_resolutions@.drop_last() == self.chatroom_resolutions@
        &&& next.chatroom_resolutions@.last()@ == normalized_slug(channel_slug)
        &&& next == (MockKickClient {
            chatroom_resolutions: next.chatroom_resolutions,
            missing_chatrooms: next.missing_chatrooms,
            ..*self
        })
        &&& if self.missing_chatrooms@.len() > 0 {
            &&& r matches Err(e) && e.platform == Platform::Kick && e.message@ == self.missing_chatrooms@[0]@
            &&& next.missing_chatrooms@ == self.missing_chatrooms@.drop_first()
        } else {
            &&& next.missing_chatrooms == self.missing_chatrooms
            &&& match key_index(self.chatrooms@, normalized_slug(channel_slug)) {
                Some(i) => r == Ok::<KickChatroom, PlatformError>(self.chatrooms@[i].1),
                None => r matches Err(e) && e.platform == Platform::Kick && e.message@ == chatroom_not_found(
                    normalized_slug(channel_slug),
                ),
            }
        }
    }

    open spec fn subscribes(
        &self,
        chatroom: KickChatroom,
        auth: KickTransportAuth,
        r: Result<(), PlatformError>,
        next: Self,
    ) -> bool {
        &&& r is Ok
        &&& next.subscribed_chatrooms@ == self.subscribed_chatrooms@.push(chatroom)
        &&& next.subscribe_auth@ == self.subscribe_auth@.push(auth)
        &&& next == (MockKickClient {
            subscribed_chatrooms: next.subscribed_chatrooms,
            subscribe_auth: next.subscribe_auth,
            ..*self
        })
    }

    fn resolve_chatroom(&mut self, channel_slug: &str) -> (r: Result<KickChatroom, PlatformError>)
        ensures
            final(self).chatroom_resolutions@.len() == old(self).chatroom_resolutions@.len() + 1,
            final(self).chatroom_resolutions@.drop_last() == old(self).chatroom_resolutions@,
            final(self).chatroom_resolutions@.last()@ == normalized_slug(channel_slug@),
            final(self).chatrooms@ == old(self).chatrooms@,
            old(self).missing_chatrooms@.len() > 0 ==> (r matches Err(e) && e.platform == Platform::Kick && e.message@
                == old(self).missing_chatrooms@[0]@) && final(self).missing_chatrooms@
                == old(self).missing_chatrooms@.drop_first(),
            old(self).missing_chatrooms@.len() == 0 ==> final(self).missing_chatrooms@.len() == 0 && match key_index(
                old(self).chatrooms@,
                normalized_slug(channel_slug@),
            ) {
                Some(i) => r == Ok::<KickChatroom, PlatformError>(old(self).chatrooms@[i].1),
                None => r matches Err(e) && e.platform == Platform::Kick && e.message@ == chatroom_not_found(
                    normalized_slug(channel_slug@),
                ),
            },
    {
        let normalized = normalize_channel_slug(channel_slug);
        self.chatroom_resolutions.push(normalized.clone());
        assert(self.chatroom_resolutions@.drop_last() =~= old(self).chatroom_resolutions@);
        if self.missing_chatrooms.len() > 0 {
            let message = self.missing_chatrooms.remove(0);
            assert(self.missing_chatrooms@ =~= old(self).missing_chatrooms@.drop_first());
            return Err(PlatformError::new(Platform::Kick, message));
        }
        proof {
            crate::platforms::lemma_key_index_bound(self.chatrooms@, normalized@);
        }
        match crate::platforms::find_key(&self.chatrooms, normalized.as_str()) {
            Some(i) => Ok(copy_chatroom(&self.chatrooms[i].1)),
            None => {
                let mut m = owned("Kick chatroom ID not found for channel \"");
                push_str(&mut m, normalized.as_str());
                push_str(&mut m, "\"");
                Err(PlatformError::new(Platform::Kick, m))
            },
        }
    }

    open spec fn gives_avatar(
        &self,
        request: KickAvatarLookupRequest,
        r: Result<Option<String>, PlatformError>,
        next: Self,
    ) -> bool {
        &&& r matches Ok(found) && opt_chars(found) == match avatar_key(request.slug_or_username@) {
            Some(key) => match key_index(self.avatar_urls@, key) {
                Some(i) => crate::platforms::kick::adapter::non_blank(Some(self.avatar_urls@[i].1@)),
                None => None,
            },
            None => None,
        }
        &&& next.avatar_resolutions@ == self.avatar_resolutions@.push(request)
        &&& next == (MockKickClient { avatar_resolutions: next.avatar_resolutions, ..*self })
    }

    open spec fn gives_disconnect(&self, r: Result<(), PlatformError>, next: Self) -> bool {
        r is Ok && next == (MockKickClient {
            disconnect_count: if self.disconnect_count == u32::MAX {
                u32::MAX
            } else {
                (self.disconnect_count + 1) as u32
            },
            ..*self
        })
    }

    open spec fn drains_messages(&self, r: Result<Vec<KickChatMessage>, PlatformError>, next: Self) -> bool {
        match self.next_drain_error {
            Some(m) => r matches Err(e) && e.platform == Platform::Kick && e.message@ == m@ && next
                == (MockKickClient { next_drain_error: None, ..*self }),
            None => r matches Ok(v) && v@ == self.incoming_messages@ && next.incoming_messages@.len() == 0 && next
                == (MockKickClient { incoming_messages: next.incoming_messages, ..*self }),
        }
    }

    open spec fn drains_follows(&self, r: Result<Vec<KickFollowEvent>, PlatformError>, next: Self) -> bool {
        match self.next_drain_error {
            Some(m) => r matches Err(e) && e.platform == Platform::Kick && e.message@ == m@ && next
                == (MockKickClient { next_drain_error: None, ..*self }),
            None => r matches Ok(v) && v@ == self.follow_events@ && next.follow_events@.len() == 0 && next
                == (MockKickClient { follow_events: next.follow_events, ..*self }),
        }
    }

    open spec fn drains_subscriptions(&self, r: Result<Vec<KickSubscriptionEvent>, PlatformError>, next: Self) -> bool {
        match self.next_drain_error {
            Some(m) => r matches Err(e) && e.platform == Platform::Kick && e.message@ == m@ && next
                == (MockKickClient { next_drain_error: None, ..*self }),
            None => r matches Ok(v) && v@ == self.subscription_events@ && next.subscription_events@.len() == 0
                && next == (MockKickClient { subscription_events: next.subscription_events, ..*self }),
        }
    }

    open spec fn drains_bans(&self, r: Result<Vec<KickUserBannedEvent>, PlatformError>, next: Self) -> bool {
        r matches Ok(v) && v@.len() == 0 && next == *self
    }

    open spec fn drains_unbans(&self, r: Result<Vec<KickUserUnbannedEvent>, PlatformError>, next: Self) -> bool {
        r matches Ok(v) && v@.len() == 0 && next == *self
    }

    /// The mock records no bans.
    fn drain_ban_events(&mut self) -> (r: Result<Vec<KickUserBannedEvent>, PlatformError>) {
        Ok(Vec::new())
    }

    /// The mock records no unbans.
    fn drain_unban_events(&mut self) -> (r: Result<Vec<KickUserUnbannedEvent>, PlatformError>) {
        Ok(Vec::new())
    }

    fn resolve_avatar_url(&mut self, request: KickAvatarLookupRequest) -> (r: Result<Option<String>, PlatformError>)
        ensures
            final(self).avatar_resolutions@ == old(self).avatar_resolutions@.push(request),
            r matches Ok(found) && opt_chars(found) == match avatar_key(request.slug_or_username@) {
                Some(key) => match key_index(old(self).avatar_urls@, key) {
                    Some(i) => crate::platforms::kick::adapter::non_blank(Some(old(self).avatar_urls@[i].1@)),
                    None => None,
                },
                None => None,
            },
    {
        let key = normalize_lookup_key(request.slug_or_username.as_str());
        let found = match key {
            Some(k) => {
                proof {
                    crate::platforms::lemma_key_index_bound(self.avatar_urls@, k@);
                }
                match crate::platforms::find_key(&self.avatar_urls, k.as_str()) {
                    Some(i) => crate::platforms::kick::adapter::normalize_avatar_url(
                        Some(self.avatar_urls[i].1.as_str()),
                    ),
                    None => None,
                }
            },
            None => None,
        };
        self.avatar_resolutions.push(request);
        Ok(found)
    }

    fn subscribe_chatroom(&mut self, chatroom: &KickChatroom, auth: &KickTransportAuth) -> (r: Result<(), PlatformError>)
        ensures
            r is Ok,
            final(self).subscribed_chatrooms@ == old(self).subscribed_chatrooms@.push(*chatroom),
            final(self).subscribe_auth@ == old(self).subscribe_auth@.push(*auth),
    {
        self.subscribed_chatrooms.push(copy_chatroom(chatroom));
        self.subscribe_auth.push(copy_transport_auth(auth));
        Ok(())
    }

    fn disconnect(&mut self) -> (r: Result<(), PlatformError>)
        ensures
            r is Ok,
            final(self).disconnect_count == if old(self).disconnect_count == u32::MAX {
                u32::MAX
            } else {
                (old(self).disconnect_count + 1) as u32
            },
    {
        self.disconnect_count = self.disconnect_count.saturating_add(1);
        Ok(())
    }

    fn drain_messages(&mut self) -> (r: Result<Vec<KickChatMessage>, PlatformError>)
        ensures
            final(self).next_drain_error is None,
            match old(self).next_drain_error {
                Some(m) => (r matches Err(e) && e.platform == Platform::Kick && e.message@ == m@)
                    && final(self).incoming_messages@ == old(self).incoming_messages@,
                None => (r matches Ok(v) && v@ == old(self).incoming_messages@) && final(self).incoming_messages@.len()
                    == 0,
            },
    {
        match self.take_drain_error() {
            Some(e) => return Err(e),
            None => {},
        }
        let mut out: Vec<KickChatMessage> = Vec::new();
        core::mem::swap(&mut out, &mut self.incoming_messages);
        Ok(out)
    }

    fn drain_follow_events(&mut self) -> (r: Result<Vec<KickFollowEvent>, PlatformError>)
        ensures
            final(self).next_drain_error is None,
            match old(self).next_drain_error {
                Some(m) => (r matches Err(e) && e.platform == Platform::Kick && e.message@ == m@)
                    && final(self).follow_events@ == old(self).follow_events@,
                None => (r matches Ok(v) && v@ == old(self).follow_events@) && final(self).follow_events@.len() == 0,
            },
    {
        match self.take_drain_error() {
            Some(e) => return Err(e),
            None => {},
        }
        let mut out: Vec<KickFollowEvent> = Vec::new();
        core::mem::swap(&mut out, &mut self.follow_events);
        Ok(out)
    }

    fn drain_subscription_events(&mut self) -> (r: Result<Vec<KickSubscriptionEvent>, PlatformError>)
        ensures
            final(self).next_drain_error is None,
            match old(self).next_drain_error {
                Some(m) => (r matches Err(e) && e.platform == Platform::Kick && e.message@ == m@)
                    && final(self).subscription_events@ == old(self).subscription_events@,
                None => (r matches Ok(v) && v@ == old(self).subscription_events@)
                    && final(self).subscription_events@.len() == 0,
            },
    {
        match self.take_drain_error() {
            Some(e) => return Err(e),
            None => {},
        }
        let mut out: Vec<KickSubscriptionEvent> = Vec::new();
        core::mem::swap(&mut out, &mut self.subscription_events);
        Ok(out)
    }

    fn send_message(&mut self, request: KickSendMessageRequest, auth: &KickTransportAuth) -> (r: Result<
        String,
        PlatformError,
    >)
        ensures
            !(auth is Authenticated) ==> (r matches Err(e) && e.platform == Platform::Kick && e.message@
                == "Cannot send Kick message without authenticated transport"@) && final(self).sent_messages@
                == old(self).sent_messages@,
            auth is Authenticated ==> (r matches Ok(id) && id@ == decimal(old(self).next_sent_id as nat))
                && final(self).sent_messages@ == old(self).sent_messages@.push(
                SentKickMessage {
                    broadcaster_user_id: request.broadcaster_user_id,
                    content: request.content,
                    reply_to_message_id: request.reply_to_message_id,
                    auth: *auth,
                },
            ),
    {
        match auth {
            KickTransportAuth::Authenticated { .. } => {},
            _ => {
                return Err(
                    PlatformError::new(Platform::Kick, owned("Cannot send Kick message without authenticated transport")),
                );
            },
        }
        self.sent_messages.push(
            SentKickMessage {
                broadcaster_user_id: request.broadcaster_user_id,
                content: request.content,
                reply_to_message_id: request.reply_to_message_id,
                auth: copy_transport_auth(auth),
            },
        );
        let id = u64_to_string(self.next_sent_id);
        self.next_sent_id = self.next_sent_id.saturating_add(1);
        Ok(id)
    }

    fn refresh_access_token(&mut self, account_id: &str, refresh_token: &str) -> (r: Result<TokenPair, PlatformError>)
        ensures
            final(self).refresh_calls@.len() == old(self).refresh_calls@.len() + 1,
            final(self).refresh_calls@.drop_last() == old(self).refresh_calls@,
            final(self).refresh_calls@.last().0@ == account_id@,
            final(self).refresh_calls@.last().1@ == refresh_token@,
            old(self).refreshed_tokens@.len() > 0 ==> r == Ok::<TokenPair, PlatformError>(
                old(self).refreshed_tokens@[0],
            ) && final(self).refreshed_tokens@ == old(self).refreshed_tokens@.drop_first(),
            old(self).refreshed_tokens@.len() == 0 ==> (r matches Err(e) && e.platform == Platform::Kick
                && e.message@ == "mock Kick token refresh response missing"@),
    {
        self.refresh_calls.push((owned(account_id), owned(refresh_token)));
        assert(self.refresh_calls@.drop_last() =~= old(self).refresh_calls@);
        if self.refreshed_tokens.len() == 0 {
            return Err(PlatformError::new(Platform::Kick, owned("mock Kick token refresh response missing")));
        }
        let t = self.refreshed_tokens.remove(0);
        assert(self.refreshed_tokens@ =~= old(self).refreshed_tokens@.drop_first());
        Ok(t)
    }

    fn stream_status(&mut self, request: KickStreamStatusRequest) -> (r: Result<StreamStatus, PlatformError>)
        ensures
            final(self).stream_status_requests@ == old(self).stream_status_requests@.push(request),
            r matches Ok(st) && mock_status_is(st, request),
    {
        let channel_id = match request.broadcaster_user_id {
            Some(id) => u64_to_string(id),
            None => request.channel_slug.clone(),
        };
        let mut title = request.channel_slug.clone();
        push_str(&mut title, " live");
        let st = StreamStatus {
            platform: Platform::Kick,
            channel_id,
            is_live: true,
            title,
            category_id: None,
            category_name: Some(owned("Just Chatting")),
            viewer_count: Some(123),
        };
        self.stream_status_requests.push(request);
        Ok(st)
    }
}

} // verus!
