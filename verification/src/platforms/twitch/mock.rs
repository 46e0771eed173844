//! A scripted Twitch chat client for tests and demos.
use crate::platforms::twitch::adapter::{
    StreamUpdate, StreamUpdateOutcome, TwitchAuthState, TwitchCategory, TwitchChatClient, TwitchChatEvent,
    TwitchChatMessage,
};
use crate::platforms::{PlatformError, TokenPair};
use crate::protocol::types::{Platform, StreamStatus};
use crate::text::{
    opt_chars, owned, str_contains, to_lowercase, trim_start_char, trim_start_matches, u64_to_string,
    unicode_lowercase, decimal, contains_seq,
};
use vstd::prelude::*;

verus! {

/// A message the mock was asked to send.
#[derive(Debug, Clone, PartialEq, Eq)]
pub struct SentMessageRecord {
    pub channel_id: String,
    pub text: String,
    pub reply_to_message_id: Option<String>,
}

/// A Twitch chat client that records what it is asked and answers from scripted data.
#[derive(Debug)]
pub struct MockTwitchClient {
    pub connected_channel: Option<String>,
    pub connect_auth_state: Option<TwitchAuthState>,
    pub disconnect_count: u32,
    pub sent_messages: Vec<SentMessageRecord>,
    pub badge_response: Vec<(String, String)>,
    pub incoming_messages: Vec<TwitchChatMessage>,
    pub incoming_events: Vec<TwitchChatEvent>,
    pub categories: Vec<TwitchCategory>,
    pub stream_status: StreamStatus,
    pub stream_updates: Vec<StreamUpdate>,
    pub refresh_calls: Vec<(String, String)>,
    pub refreshed_tokens: Vec<TokenPair>,
    pub next_sent_id: u64,
}

/// A copy of an auth state.
pub fn copy_twitch_auth_state(a: &TwitchAuthState) -> (r: TwitchAuthState)
    ensures
        r == *a,
{
    match a {
        TwitchAuthState::Anonymous => TwitchAuthState::Anonymous,
        TwitchAuthState::Authenticated {
            account_id,
            platform_user_id,
            login,
            display_name,
            avatar_url,
            access_token,
        } => TwitchAuthState::Authenticated {
            account_id: account_id.clone(),
            platform_user_id: platform_user_id.clone(),
            login: login.clone(),
            display_name: display_name.clone(),
            avatar_url: match avatar_url {
                Some(u) => Some(u.clone()),
                None => None,
            },
            access_token: access_token.clone(),
        },
        TwitchAuthState::ReauthRequired { account_id, reason } => TwitchAuthState::ReauthRequired {
            account_id: account_id.clone(),
            reason: reason.clone(),
        },
    }
}

fn copy_opt(o: &Option<String>) -> (r: Option<String>)
    ensures
        r == *o,
{
    match o {
        Some(s) => Some(s.clone()),
        None => None,
    }
}

/// Index of the first entry of `m` whose key is `key`.
pub open spec fn first_key_index(m: Seq<(String, String)>, key: Seq<char>) -> Option<int>
    decreases m.len(),
{
    if m.len() == 0 {
        None
    } else if m[0].0@ == key {
        Some(0)
    } else {
        match first_key_index(m.drop_first(), key) {
            Some(j) => Some(j + 1),
            None => None,
        }
    }
}

proof fn lemma_first_key_index(m: Seq<(String, String)>, key: Seq<char>, i: int)
    requires
        0 <= i <= m.len(),
        forall|j: int| 0 <= j < i ==> (#[trigger] m[j]).0@ != key,
        i < m.len() ==> m[i].0@ == key,
    ensures
        first_key_index(m, key) == if i < m.len() {
            Some(i)
        } else {
            None::<int>
        },
    decreases i,
{
    if i > 0 {
        assert forall|j: int| 0 <= j < i - 1 implies (#[trigger] m.drop_first()[j]).0@ != key by {
            assert(m.drop_first()[j] == m[j + 1]);
        }
        if i < m.len() {
            assert(m.drop_first()[i - 1] == m[i]);
        }
        lemma_first_key_index(m.drop_first(), key, i - 1);
        assert(m[0].0@ != key);
    }
}

/// The map `m` with `key` set to `value`: its entry replaced, or a new one added last.
pub open spec fn with_entry(m: Seq<(String, String)>, key: Seq<char>, value: Seq<char>) -> Seq<(Seq<char>, Seq<char>)> {
    match first_key_index(m, key) {
        Some(i) => pairs_of(m).update(i, (key, value)),
        None => pairs_of(m).push((key, value)),
    }
}

/// The view of a list of string pairs.
pub open spec fn pairs_of(m: Seq<(String, String)>) -> Seq<(Seq<char>, Seq<char>)> {
    Seq::new(m.len(), |i: int| (m[i].0@, m[i].1@))
}

/// The categories whose lowercase name contains the lowercase query, in order.
pub open spec fn matching_categories(cs: Seq<TwitchCategory>, query: Seq<char>) -> Seq<TwitchCategory>
    decreases cs.len(),
{
    if cs.len() == 0 {
        Seq::empty()
    } else if contains_seq(unicode_lowercase(cs.last().name@), unicode_lowercase(query)) {
        matching_categories(cs.drop_last(), query).push(cs.last())
    } else {
        matching_categories(cs.drop_last(), query)
    }
}

impl MockTwitchClient {
    /// No connection, nothing sent or queued; a live fixture stream.
    pub fn new() -> (r: Self)
        ensures
            r.connected_channel is None,
            r.connect_auth_state is None,
            r.disconnect_count == 0,
            r.sent_messages@.len() == 0,
            r.badge_response@.len() == 0,
            r.incoming_messages@.len() == 0,
            r.incoming_events@.len() == 0,
            r.categories@.len() == 0,
            r.stream_status.platform == Platform::Twitch,
            r.stream_status.channel_id@ == "fixturestreamer"@,
            r.stream_status.is_live,
            r.stream_status.title@ == "Fixture stream"@,
            opt_chars(r.stream_status.category_id) == Some("509658"@),
            opt_chars(r.stream_status.category_name) == Some("Just Chatting"@),
            r.stream_status.viewer_count == Some(42u64),
            r.stream_updates@.len() == 0,
            r.refresh_calls@.len() == 0,
            r.refreshed_tokens@.len() == 0,
            r.next_sent_id == 1,
    {
        MockTwitchClient {
            connected_channel: None,
            connect_auth_state: None,
            disconnect_count: 0,
            sent_messages: Vec::new(),
            badge_response: Vec::new(),
            incoming_messages: Vec::new(),
            incoming_events: Vec::new(),
            categories: Vec::new(),
            stream_status: StreamStatus {
                platform: Platform::Twitch,
                channel_id: owned("fixturestreamer"),
                is_live: true,
                title: owned("Fixture stream"),
                category_id: Some(owned("509658")),
                category_name: Some(owned("Just Chatting")),
                viewer_count: Some(42),
            },
            stream_updates: Vec::new(),
            refresh_calls: Vec::new(),
            refreshed_tokens: Vec::new(),
            next_sent_id: 1,
        }
    }

    /// The same client answering `image_url` for the badge `key`.
    pub fn with_badge(self, key: &str, image_url: &str) -> (r: Self)
        ensures
            r == (MockTwitchClient { badge_response: r.badge_response, ..self }),
            pairs_of(r.badge_response@) == with_entry(self.badge_response@, key@, image_url@),
            r.categories@ == self.categories@,
    {
        let mut s = self;
        let ghost m = s.badge_response@;
        let mut i: usize = 0;
        while i < s.badge_response.len()
            invariant
                i <= s.badge_response@.len(),
                s == self,
                s.badge_response@ == m,
                m == self.badge_response@,
                s.categories@ == self.categories@,
                forall|j: int| 0 <= j < i ==> (#[trigger] m[j]).0@ != key@,
            decreases s.badge_response@.len() - i,
        {
            if crate::text::str_eq(s.badge_response[i].0.as_str(), key) {
                proof {
                    lemma_first_key_index(m, key@, i as int);
                }
                s.badge_response.set(i, (owned(key), owned(image_url)));
                assert(pairs_of(s.badge_response@) =~= with_entry(m, key@, image_url@));
                return s;
            }
            i = i + 1;
        }
        proof {
            lemma_first_key_index(m, key@, i as int);
        }
        s.badge_response.push((owned(key), owned(image_url)));
        assert(pairs_of(s.badge_response@) =~= with_entry(m, key@, image_url@));
        s
    }

    /// The same client offering one more category.
    pub fn with_category(self, id: &str, name: &str) -> (r: Self)
        ensures
            r == (MockTwitchClient { categories: r.categories, ..self }),
            r.categories@.len() == self.categories@.len() + 1,
            r.categories@.drop_last() == self.categories@,
            r.categories@.last().id@ == id@,
            r.categories@.last().name@ == name@,
            r.badge_response@ == self.badge_response@,
    {
        let mut s = self;
        s.categories.push(TwitchCategory { id: owned(id), name: owned(name) });
        assert(s.categories@.drop_last() =~= self.categories@);
        s
    }

    /// Queues a chat message to be drained.
    pub fn push_message(&mut self, message: TwitchChatMessage)
        ensures
            *final(self) == (MockTwitchClient { incoming_messages: final(self).incoming_messages, ..*old(self) }),
            final(self).incoming_messages@ == old(self).incoming_messages@.push(message),
            final(self).incoming_events@ == old(self).incoming_events@,
    {
        self.incoming_messages.push(message);
    }

    /// Queues a chat event to be drained.
    pub fn push_event(&mut self, event: TwitchChatEvent)
        ensures
            *final(self) == (MockTwitchClient { incoming_events: final(self).incoming_events, ..*old(self) }),
            final(self).incoming_events@ == old(self).incoming_events@.push(event),
            final(self).incoming_messages@ == old(self).incoming_messages@,
    {
        self.incoming_events.push(event);
    }

    /// Queues a token for the next refresh.
    pub fn push_refreshed_token(&mut self, token: TokenPair)
        ensures
            *final(self) == (MockTwitchClient { refreshed_tokens: final(self).refreshed_tokens, ..*old(self) }),
            final(self).refreshed_tokens@ == old(self).refreshed_tokens@.push(token),
    {
        self.refreshed_tokens.push(token);
    }

    /// Records a refresh request and answers with the first queued token, or an error when
    /// none is queued.
    pub fn refresh_access_token(&mut self, account_id: &str, refresh_token: &str) -> (r: Result<
        TokenPair,
        PlatformError,
    >)
        ensures
            final(self).refresh_calls@.len() == old(self).refresh_calls@.len() + 1,
            final(self).refresh_calls@.drop_last() == old(self).refresh_calls@,
            final(self).refresh_calls@.last().0@ == account_id@,
            final(self).refresh_calls@.last().1@ == refresh_token@,
            old(self).refreshed_tokens@.len() > 0 ==> r == Ok::<TokenPair, PlatformError>(
                old(self).refreshed_tokens@[0],
            ) && final(self).refreshed_tokens@ == old(self).refreshed_tokens@.drop_first(),
            old(self).refreshed_tokens@.len() == 0 ==> (r matches Err(e) && e.platform == Platform::Twitch
                && e.message@ == "mock Twitch token refresh response missing"@ && final(self).refreshed_tokens@.len()
                == 0),
    {
        self.refresh_calls.push((owned(account_id), owned(refresh_token)));
        assert(self.refresh_calls@.drop_last() =~= old(self).refresh_calls@);
        if self.refreshed_tokens.len() == 0 {
            return Err(PlatformError::new(Platform::Twitch, owned("mock Twitch token refresh response missing")));
        }
        let t = self.refreshed_tokens.remove(0);
        assert(self.refreshed_tokens@ =~= old(self).refreshed_tokens@.drop_first());
        Ok(t)
    }
}

impl Default for MockTwitchClient {
    fn default() -> (r: Self)
        ensures
            r.connected_channel is None,
            r.sent_messages@.len() == 0,
            r.next_sent_id == 1,
    {
        MockTwitchClient::new()
    }
}

/// A channel name as the mock records it: without leading `#`, lowercase.
pub open spec fn mock_channel(channel: Seq<char>) -> Seq<char> {
    unicode_lowercase(trim_start_char(channel, '#'))
}

impl TwitchChatClient for MockTwitchClient {
    open spec fn gives_badges(&self, channel: Seq<char>, r: Result<Vec<(String, String)>, PlatformError>) -> bool {
        r matches Ok(b) && pairs_of(b@) == pairs_of(self.badge_response@)
    }

    open spec fn drains_messages(&self, r: Result<Vec<TwitchChatMessage>, PlatformError>, next: Self) -> bool {
        &&& r matches Ok(v) && v@ == self.incoming_messages@
        &&& next.incoming_messages@.len() == 0
        &&& next == (MockTwitchClient { incoming_messages: next.incoming_messages, ..*self })
    }

    open spec fn drains_events(&self, r: Result<Vec<TwitchChatEvent>, PlatformError>, next: Self) -> bool {
        &&& r matches Ok(v) && v@ == self.incoming_events@
        &&& next.incoming_events@.len() == 0
        &&& next == (MockTwitchClient { incoming_events: next.incoming_events, ..*self })
    }

    open spec fn gives_disconnect(&self, r: Result<(), PlatformError>, next: Self) -> bool {
        r is Ok && next == (MockTwitchClient {
            connected_channel: None,
            disconnect_count: if self.disconnect_count == u32::MAX {
                u32::MAX
            } else {
                (self.disconnect_count + 1) as u32
            },
            ..*self
        })
    }

    open spec fn gives_categories(&self, query: Seq<char>, r: Result<Vec<TwitchCategory>, PlatformError>) -> bool {
        r matches Ok(v) && v@ == matching_categories(self.categories@, query)
    }

    open spec fn gives_stream_update(&self, update: StreamUpdate, r: Result<StreamUpdateOutcome, PlatformError>) -> bool {
        if update.title is None && update.category_id is None {
            r matches Err(e) && e.platform == Platform::Twitch && e.message@
                == "stream update must include title or category"@
        } else {
            r == Ok::<StreamUpdateOutcome, PlatformError>(
                StreamUpdateOutcome {
                    channel_id: update.channel_id,
                    updated_title: update.title,
                    updated_category_id: update.category_id,
                },
            )
        }
    }

    open spec fn gives_twitch_stream_status(&self, channel_id: Seq<char>, r: Result<StreamStatus, PlatformError>) -> bool {
        r matches Ok(st) && st.channel_id@ == channel_id && st.platform == self.stream_status.platform
            && st.is_live == self.stream_status.is_live && st.title == self.stream_status.title
            && st.category_id == self.stream_status.category_id && st.category_name
            == self.stream_status.category_name && st.viewer_count == self.stream_status.viewer_count
    }

    fn connect(&mut self, channel: &str, auth: &TwitchAuthState) -> (r: Result<(), PlatformError>)
        ensures
            r is Ok,
            opt_chars(final(self).connected_channel) == Some(mock_channel(channel@)),
            final(self).connect_auth_state == Some(*auth),
    {
        let c = trim_start_matches(channel, '#');
        self.connected_channel = Some(to_lowercase(c.as_str()));
        self.connect_auth_state = Some(copy_twitch_auth_state(auth));
        Ok(())
    }

    fn disconnect(&mut self) -> (r: Result<(), PlatformError>)
        ensures
            r is Ok,
            final(self).connected_channel is None,
            final(self).disconnect_count == if old(self).disconnect_count == u32::MAX {
                u32::MAX
            } else {
                (old(self).disconnect_count + 1) as u32
            },
    {
        self.connected_channel = None;
        self.disconnect_count = self.disconnect_count.saturating_add(1);
        Ok(())
    }

    fn send_message(&mut self, channel_id: &str, text: &str, reply_to_message_id: Option<&str>) -> (r: Result<
        String,
        PlatformError,
    >)
        ensures
            r matches Ok(id) && id@ == decimal(old(self).next_sent_id as nat),
            final(self).sent_messages@.len() == old(self).sent_messages@.len() + 1,
            final(self).sent_messages@.drop_last() == old(self).sent_messages@,
            final(self).sent_messages@.last().channel_id@ == mock_channel(channel_id@),
            final(self).sent_messages@.last().text@ == text@,
            opt_chars(final(self).sent_messages@.last().reply_to_message_id) == match reply_to_message_id {
                Some(m) => Some(m@),
                None => None,
            },
            final(self).next_sent_id == if old(self).next_sent_id == u64::MAX {
                u64::MAX
            } else {
                (old(self).next_sent_id + 1) as u64
            },
    {
        let c = trim_start_matches(channel_id, '#');
        let record = SentMessageRecord {
            channel_id: to_lowercase(c.as_str()),
            text: owned(text),
            reply_to_message_id: match reply_to_message_id {
                Some(m) => Some(owned(m)),
                None => None,
            },
        };
        self.sent_messages.push(record);
        assert(self.sent_messages@.drop_last() =~= old(self).sent_messages@);
        let id = u64_to_string(self.next_sent_id);
        self.next_sent_id = self.next_sent_id.saturating_add(1);
        Ok(id)
    }

    fn fetch_badges(&mut self, channel: &str) -> (r: Result<Vec<(String, String)>, PlatformError>)
        ensures
            r matches Ok(b) && pairs_of(b@) == pairs_of(old(self).badge_response@),
    {
        let mut out: Vec<(String, String)> = Vec::new();
        let mut i: usize = 0;
        while i < self.badge_response.len()
            invariant
                i <= self.badge_response@.len(),
                out@.len() == i,
                pairs_of(out@) == pairs_of(self.badge_response@).take(i as int),
            decreases self.badge_response@.len() - i,
        {
            let e = &self.badge_response[i];
            let ghost before = out@;
            let k = e.0.clone();
            let v = e.1.clone();
            out.push((k, v));
            assert forall|j: int| 0 <= j < i + 1 implies pairs_of(out@)[j] == pairs_of(self.badge_response@).take(
                i + 1,
            )[j] by {
                if j < i {
                    assert(out@[j] == before[j]);
                    assert(pairs_of(before)[j] == pairs_of(self.badge_response@).take(i as int)[j]);
                }
            }
            assert(pairs_of(out@) =~= pairs_of(self.badge_response@).take(i + 1));
            i = i + 1;
        }
        assert(pairs_of(self.badge_response@).take(i as int) =~= pairs_of(self.badge_response@));
        Ok(out)
    }

    fn drain_messages(&mut self) -> (r: Result<Vec<TwitchChatMessage>, PlatformError>)
        ensures
            r matches Ok(v) && v@ == old(self).incoming_messages@,
            final(self).incoming_messages@.len() == 0,
    {
        let mut out: Vec<TwitchChatMessage> = Vec::new();
        core::mem::swap(&mut out, &mut self.incoming_messages);
        Ok(out)
    }

    fn drain_events(&mut self) -> (r: Result<Vec<TwitchChatEvent>, PlatformError>)
        ensures
            r matches Ok(v) && v@ == old(self).incoming_events@,
            final(self).incoming_events@.len() == 0,
    {
        let mut out: Vec<TwitchChatEvent> = Vec::new();
        core::mem::swap(&mut out, &mut self.incoming_events);
        Ok(out)
    }

    fn search_categories(&mut self, query: &str) -> (r: Result<Vec<TwitchCategory>, PlatformError>)
        ensures
            r matches Ok(v) && v@ == matching_categories(old(self).categories@, query@),
            final(self).categories@ == old(self).categories@,
    {
        let q = to_lowercase(query);
        let mut out: Vec<TwitchCategory> = Vec::new();
        let mut i: usize = 0;
        while i < self.categories.len()
            invariant
                i <= self.categories@.len(),
                q@ == unicode_lowercase(query@),
                out@ == matching_categories(self.categories@.take(i as int), query@),
            decreases self.categories@.len() - i,
        {
            proof {
                assert(self.categories@.take(i + 1).drop_last() =~= self.categories@.take(i as int));
            }
            let c = &self.categories[i];
            let name = to_lowercase(c.name.as_str());
            if str_contains(name.as_str(), q.as_str()) {
                out.push(TwitchCategory { id: c.id.clone(), name: c.name.clone() });
            }
            i = i + 1;
        }
        assert(self.categories@.take(i as int) =~= self.categories@);
        Ok(out)
    }

    fn update_stream(&mut self, update: &StreamUpdate) -> (r: Result<StreamUpdateOutcome, PlatformError>)
        ensures
            update.title is None && update.category_id is None ==> (r matches Err(e) && e.platform
                == Platform::Twitch && e.message@ == "stream update must include title or category"@
                && final(self).stream_updates@ == old(self).stream_updates@),
            !(update.title is None && update.category_id is None) ==> r == Ok::<StreamUpdateOutcome, PlatformError>(
                StreamUpdateOutcome {
                    channel_id: update.channel_id,
                    updated_title: update.title,
                    updated_category_id: update.category_id,
                },
            ) && final(self).stream_updates@ == old(self).stream_updates@.push(*update),
    {
        if update.title.is_none() && update.category_id.is_none() {
            return Err(PlatformError::new(Platform::Twitch, owned("stream update must include title or category")));
        }
        let copy = StreamUpdate {
            channel_id: update.channel_id.clone(),
            title: copy_opt(&update.title),
            category_id: copy_opt(&update.category_id),
        };
        self.stream_updates.push(copy);
        Ok(
            StreamUpdateOutcome {
                channel_id: update.channel_id.clone(),
                updated_title: copy_opt(&update.title),
                updated_category_id: copy_opt(&update.category_id),
            },
        )
    }

    fn stream_status(&mut self, channel_id: &str) -> (r: Result<StreamStatus, PlatformError>)
        ensures
            r matches Ok(st) && st.channel_id@ == channel_id@ && st.platform == old(self).stream_status.platform
                && st.is_live == old(self).stream_status.is_live && st.title == old(self).stream_status.title
                && st.category_id == old(self).stream_status.category_id && st.category_name == old(
                self,
            ).stream_status.category_name && st.viewer_count == old(self).stream_status.viewer_count,
    {
        let s = &self.stream_status;
        Ok(
            StreamStatus {
                platform: s.platform,
                channel_id: owned(channel_id),
                is_live: s.is_live,
                title: s.title.clone(),
                category_id: copy_opt(&s.category_id),
                category_name: copy_opt(&s.category_name),
                viewer_count: s.viewer_count,
            },
        )
    }
}

} // verus!
