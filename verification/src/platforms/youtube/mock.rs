//! A scripted YouTube streaming transport for tests and demos.
use crate::platforms::youtube::transport::{
    YouTubeChannelResolutionRequest, YouTubeResolvedChannel, YouTubeSendMessageRequest, YouTubeStreamSignal,
    YouTubeStreamState, YouTubeStreamSubscription, YouTubeStreamingTransport, YouTubeTransportAuth,
};
use crate::platforms::PlatformError;
use crate::protocol::types::Platform;
use crate::text::{
    ascii_lower, chars_of, decimal, opt_chars, owned, push_str, str_eq, to_lowercase, trim, trim_start_char,
    trim_start_matches, trimmed, u64_to_string, unicode_lowercase,
};
use vstd::prelude::*;

verus! {

/// A message the mock was asked to send.
#[derive(Debug, Clone, PartialEq, Eq)]
pub struct SentYouTubeMessage {
    pub channel_id: String,
    pub live_chat_id: String,
    pub text: String,
    pub reply_to_message_id: Option<String>,
}

/// A YouTube transport that records what it is asked and answers from scripted data.
#[derive(Debug)]
pub struct MockYouTubeTransport {
    pub resolve_calls: Vec<YouTubeChannelResolutionRequest>,
    pub subscribe_calls: Vec<YouTubeStreamSubscription>,
    pub subscribe_auth: Vec<YouTubeTransportAuth>,
    pub close_count: u32,
    pub sent_messages: Vec<SentYouTubeMessage>,
    pub resolved_channels: Vec<YouTubeResolvedChannel>,
    pub stream_states: Vec<YouTubeStreamState>,
    pub pushed_signals: Vec<YouTubeStreamSignal>,
    pub next_stream_id: u64,
    pub next_sent_id: u64,
}

fn copy_opt(o: &Option<String>) -> (r: Option<String>)
    ensures
        r == *o,
{
    match o {
        Some(s) => Some(s.clone()),
        None => None,
    }
}

/// A copy of a subscription.
pub fn copy_subscription(s: &YouTubeStreamSubscription) -> (r: YouTubeStreamSubscription)
    ensures
        r == *s,
{
    YouTubeStreamSubscription {
        channel_id: s.channel_id.clone(),
        live_chat_id: s.live_chat_id.clone(),
        video_id: copy_opt(&s.video_id),
    }
}

/// A copy of a transport auth.
pub fn copy_youtube_auth(a: &YouTubeTransportAuth) -> (r: YouTubeTransportAuth)
    ensures
        r == *a,
{
    match a {
        YouTubeTransportAuth::Anonymous => YouTubeTransportAuth::Anonymous,
        YouTubeTransportAuth::Authenticated { account_id, platform_user_id, username, display_name, access_token } =>
            YouTubeTransportAuth::Authenticated {
            account_id: account_id.clone(),
            platform_user_id: platform_user_id.clone(),
            username: username.clone(),
            display_name: display_name.clone(),
            access_token: access_token.clone(),
        },
        YouTubeTransportAuth::ReauthRequired { account_id, reason } => YouTubeTransportAuth::ReauthRequired {
            account_id: account_id.clone(),
            reason: reason.clone(),
        },
    }
}

/// A copy of a resolution request.
pub fn copy_resolution_request(r0: &YouTubeChannelResolutionRequest) -> (r: YouTubeChannelResolutionRequest)
    ensures
        r == *r0,
{
    YouTubeChannelResolutionRequest {
        input: r0.input.clone(),
        account_hint: match &r0.account_hint {
            Some(h) => Some(
                crate::platforms::youtube::transport::YouTubeAccountHint {
                    account_id: h.account_id.clone(),
                    platform_user_id: h.platform_user_id.clone(),
                    username: h.username.clone(),
                    display_name: h.display_name.clone(),
                },
            ),
            None => None,
        },
    }
}

/// The input starts with `UC` in either case, as YouTube channel ids do.
pub open spec fn looks_like_channel_id(input: Seq<char>) -> bool {
    input.len() >= 2 && ascii_lower(input[0]) == 'u' && ascii_lower(input[1]) == 'c'
}

/// The input names the hinted account: by username (ignoring a leading `@` and case), or by
/// its platform user id.
pub open spec fn names_account(input: Seq<char>, username: Seq<char>, platform_user_id: Seq<char>) -> bool {
    unicode_lowercase(trim_start_char(input, '@')) == unicode_lowercase(trim_start_char(username, '@')) || input
        == platform_user_id
}

/// `r` is how the mock resolves `request` when nothing is scripted: a channel id stands for
/// itself, the hinted account's name for that account, anything else is an error.
pub open spec fn fallback_resolution(request: YouTubeChannelResolutionRequest, r: Result<YouTubeResolvedChannel, PlatformError>) -> bool {
    let input = trim(request.input@);
    if looks_like_channel_id(input) {
        r matches Ok(c) && c.input@ == input && c.channel_id@ == input && c.live_chat_id@ == "live-chat:"@ + input
            && c.video_id is None && c.display_name is None
    } else if request.account_hint matches Some(h) && names_account(input, h.username@, h.platform_user_id@) {
        r matches Ok(c) && c.input@ == input && c.channel_id@ == request.account_hint->Some_0.platform_user_id@
            && c.live_chat_id@ == "live-chat:"@ + request.account_hint->Some_0.platform_user_id@ && c.video_id is None
            && opt_chars(c.display_name) == Some(request.account_hint->Some_0.display_name@)
    } else {
        r matches Err(e) && e.platform == Platform::Youtube && e.message@ == "Could not resolve "@ + input
            + " to a YouTube channel id"@
    }
}

fn looks_like_channel_id_exec(input: &str) -> (r: bool)
    ensures
        r == looks_like_channel_id(input@),
{
    let v = chars_of(input);
    v.len() >= 2 && crate::text::to_ascii_lower_char(v[0]) == 'u' && crate::text::to_ascii_lower_char(v[1]) == 'c'
}

fn names_account_exec(input: &str, username: &str, platform_user_id: &str) -> (r: bool)
    ensures
        r == names_account(input@, username@, platform_user_id@),
{
    let a = trim_start_matches(input, '@');
    let b = trim_start_matches(username, '@');
    let la = to_lowercase(a.as_str());
    let lb = to_lowercase(b.as_str());
    str_eq(la.as_str(), lb.as_str()) || str_eq(input, platform_user_id)
}

impl MockYouTubeTransport {
    /// Nothing recorded or scripted.
    pub fn new() -> (r: Self)
        ensures
            r.resolve_calls@.len() == 0,
            r.subscribe_calls@.len() == 0,
            r.subscribe_auth@.len() == 0,
            r.close_count == 0,
            r.sent_messages@.len() == 0,
            r.resolved_channels@.len() == 0,
            r.stream_states@.len() == 0,
            r.pushed_signals@.len() == 0,
            r.next_stream_id == 1,
            r.next_sent_id == 1,
    {
        MockYouTubeTransport {
            resolve_calls: Vec::new(),
            subscribe_calls: Vec::new(),
            subscribe_auth: Vec::new(),
            close_count: 0,
            sent_messages: Vec::new(),
            resolved_channels: Vec::new(),
            stream_states: Vec::new(),
            pushed_signals: Vec::new(),
            next_stream_id: 1,
            next_sent_id: 1,
        }
    }

    /// The same transport with one more scripted resolution (see `push_resolved_channel`).
    pub fn with_resolved_channel(self, channel_id: &str, live_chat_id: &str) -> (r: Self)
        ensures
            r == (MockYouTubeTransport { resolved_channels: r.resolved_channels, ..self }),
            r.resolved_channels@.len() == self.resolved_channels@.len() + 1,
            r.resolved_channels@.drop_last() == self.resolved_channels@,
            r.resolved_channels@.last().channel_id@ == channel_id@,
            r.resolved_channels@.last().input@ == channel_id@,
            r.resolved_channels@.last().live_chat_id@ == live_chat_id@,
            r.resolved_channels@.last().video_id is None,
            r.resolved_channels@.last().display_name is None,
    {
        let mut s = self;
        s.push_resolved_channel(channel_id, live_chat_id);
        s
    }

    /// Scripts the next resolution: `channel_id` with `live_chat_id` and no video.
    pub fn push_resolved_channel(&mut self, channel_id: &str, live_chat_id: &str)
        ensures
            *final(self) == (MockYouTubeTransport { resolved_channels: final(self).resolved_channels, ..*old(self) }),
            final(self).resolved_channels@.len() == old(self).resolved_channels@.len() + 1,
            final(self).resolved_channels@.drop_last() == old(self).resolved_channels@,
            final(self).resolved_channels@.last().channel_id@ == channel_id@,
            final(self).resolved_channels@.last().input@ == channel_id@,
            final(self).resolved_channels@.last().live_chat_id@ == live_chat_id@,
            final(self).resolved_channels@.last().video_id is None,
            final(self).resolved_channels@.last().display_name is None,
    {
        self.resolved_channels.push(
            YouTubeResolvedChannel {
                input: owned(channel_id),
                channel_id: owned(channel_id),
                live_chat_id: owned(live_chat_id),
                video_id: None,
                display_name: None,
            },
        );
        assert(self.resolved_channels@.drop_last() =~= old(self).resolved_channels@);
    }

    /// Scripts the next resolution: `channel_id` with `live_chat_id` and a video.
    pub fn push_resolved_channel_with_video(&mut self, channel_id: &str, live_chat_id: &str, video_id: &str)
        ensures
            *final(self) == (MockYouTubeTransport { resolved_channels: final(self).resolved_channels, ..*old(self) }),
            final(self).resolved_channels@.len() == old(self).resolved_channels@.len() + 1,
            final(self).resolved_channels@.drop_last() == old(self).resolved_channels@,
            final(self).resolved_channels@.last().channel_id@ == channel_id@,
            final(self).resolved_channels@.last().input@ == channel_id@,
            final(self).resolved_channels@.last().live_chat_id@ == live_chat_id@,
            opt_chars(final(self).resolved_channels@.last().video_id) == Some(video_id@),
            final(self).resolved_channels@.last().display_name is None,
    {
        self.resolved_channels.push(
            YouTubeResolvedChannel {
                input: owned(channel_id),
                channel_id: owned(channel_id),
                live_chat_id: owned(live_chat_id),
                video_id: Some(owned(video_id)),
                display_name: None,
            },
        );
        assert(self.resolved_channels@.drop_last() =~= old(self).resolved_channels@);
    }

    /// Scripts the next subscription's stream.
    pub fn push_stream_state(&mut self, stream: YouTubeStreamState)
        ensures
            *final(self) == (MockYouTubeTransport { stream_states: final(self).stream_states, ..*old(self) }),
            final(self).stream_states@ == old(self).stream_states@.push(stream),
    {
        self.stream_states.push(stream);
    }

    /// Queues a pushed signal.
    pub fn push_signal(&mut self, signal: YouTubeStreamSignal)
        ensures
            *final(self) == (MockYouTubeTransport { pushed_signals: final(self).pushed_signals, ..*old(self) }),
            final(self).pushed_signals@ == old(self).pushed_signals@.push(signal),
    {
        self.pushed_signals.push(signal);
    }
}

impl Default for MockYouTubeTransport {
    fn default() -> (r: Self)
        ensures
            r.resolved_channels@.len() == 0,
            r.next_sent_id == 1,
    {
        MockYouTubeTransport::new()
    }
}

impl YouTubeStreamingTransport for MockYouTubeTransport {
    open spec fn gives_channel(&self, request: YouTubeChannelResolutionRequest, r: Result<
        YouTubeResolvedChannel,
        PlatformError,
    >, next: Self) -> bool {
        &&& next.resolve_calls@ == self.resolve_calls@.push(request)
        &&& if self.resolved_channels@.len() > 0 {
            &&& r matches Ok(c) && c.input == request.input && c.channel_id == self.resolved_channels@[0].channel_id
                && c.live_chat_id == self.resolved_channels@[0].live_chat_id && c.video_id
                == self.resolved_channels@[0].video_id && c.display_name == self.resolved_channels@[0].display_name
            &&& next.resolved_channels@ == self.resolved_channels@.drop_first()
        } else {
            fallback_resolution(request, r) && next.resolved_channels == self.resolved_channels
        }
        &&& next == (MockYouTubeTransport {
            resolve_calls: next.resolve_calls,
            resolved_channels: next.resolved_channels,
            ..*self
        })
    }

    open spec fn gives_stream(&self, subscription: YouTubeStreamSubscription, auth: YouTubeTransportAuth, r: Result<
        YouTubeStreamState,
        PlatformError,
    >, next: Self) -> bool {
        &&& next.subscribe_calls@ == self.subscribe_calls@.push(subscription)
        &&& next.subscribe_auth@ == self.subscribe_auth@.push(auth)
        &&& if self.stream_states@.len() > 0 {
            &&& r == Ok::<YouTubeStreamState, PlatformError>(self.stream_states@[0])
            &&& next.stream_states@ == self.stream_states@.drop_first()
            &&& next.next_stream_id == self.next_stream_id
        } else {
            &&& r matches Ok(st) && st.stream_id@ == "stream-"@ + decimal(self.next_stream_id as nat)
                && st.subscription == subscription
            &&& next.stream_states == self.stream_states
            &&& next.next_stream_id == if self.next_stream_id == u64::MAX {
                u64::MAX
            } else {
                (self.next_stream_id + 1) as u64
            }
        }
        &&& next == (MockYouTubeTransport {
            subscribe_calls: next.subscribe_calls,
            subscribe_auth: next.subscribe_auth,
            stream_states: next.stream_states,
            next_stream_id: next.next_stream_id,
            ..*self
        })
    }

    fn resolve_channel(&mut self, request: YouTubeChannelResolutionRequest) -> (r: Result<
        YouTubeResolvedChannel,
        PlatformError,
    >)
        ensures
            final(self).resolve_calls@ == old(self).resolve_calls@.push(request),
            old(self).resolved_channels@.len() > 0 ==> (r matches Ok(c) && c.input == request.input && c.channel_id
                == old(self).resolved_channels@[0].channel_id && c.live_chat_id
                == old(self).resolved_channels@[0].live_chat_id && c.video_id == old(self).resolved_channels@[0].video_id
                && c.display_name == old(self).resolved_channels@[0].display_name) && final(self).resolved_channels@
                == old(self).resolved_channels@.drop_first(),
            old(self).resolved_channels@.len() == 0 ==> fallback_resolution(request, r),
    {
        self.resolve_calls.push(copy_resolution_request(&request));
        if self.resolved_channels.len() > 0 {
            let mut resolved = self.resolved_channels.remove(0);
            assert(self.resolved_channels@ =~= old(self).resolved_channels@.drop_first());
            resolved.input = request.input;
            return Ok(resolved);
        }
        let input = trimmed(request.input.as_str());
        if looks_like_channel_id_exec(input.as_str()) {
            let mut live = owned("live-chat:");
            push_str(&mut live, input.as_str());
            return Ok(
                YouTubeResolvedChannel {
                    input: input.clone(),
                    channel_id: input.clone(),
                    live_chat_id: live,
                    video_id: None,
                    display_name: None,
                },
            );
        }
        match &request.account_hint {
            Some(hint) => {
                if names_account_exec(input.as_str(), hint.username.as_str(), hint.platform_user_id.as_str()) {
                    let mut live = owned("live-chat:");
                    push_str(&mut live, hint.platform_user_id.as_str());
                    return Ok(
                        YouTubeResolvedChannel {
                            input,
                            channel_id: hint.platform_user_id.clone(),
                            live_chat_id: live,
                            video_id: None,
                            display_name: Some(hint.display_name.clone()),
                        },
                    );
                }
            },
            None => {},
        }
        let mut m = owned("Could not resolve ");
        push_str(&mut m, input.as_str());
        push_str(&mut m, " to a YouTube channel id");
        Err(PlatformError::new(Platform::Youtube, m))
    }

    fn subscribe(&mut self, subscription: YouTubeStreamSubscription, auth: &YouTubeTransportAuth) -> (r: Result<
        YouTubeStreamState,
        PlatformError,
    >)
        ensures
            final(self).subscribe_calls@ == old(self).subscribe_calls@.push(subscription),
            final(self).subscribe_auth@ == old(self).subscribe_auth@.push(*auth),
            old(self).stream_states@.len() > 0 ==> r == Ok::<YouTubeStreamState, PlatformError>(
                old(self).stream_states@[0],
            ) && final(self).stream_states@ == old(self).stream_states@.drop_first()
                && final(self).next_stream_id == old(self).next_stream_id,
            old(self).stream_states@.len() == 0 ==> (r matches Ok(st) && st.stream_id@ == "stream-"@ + decimal(
                old(self).next_stream_id as nat,
            ) && st.subscription == subscription) && final(self).next_stream_id == if old(self).next_stream_id
                == u64::MAX {
                u64::MAX
            } else {
                (old(self).next_stream_id + 1) as u64
            },
    {
        self.subscribe_calls.push(copy_subscription(&subscription));
        self.subscribe_auth.push(copy_youtube_auth(auth));
        if self.stream_states.len() > 0 {
            let st = self.stream_states.remove(0);
            assert(self.stream_states@ =~= old(self).stream_states@.drop_first());
            return Ok(st);
        }
        let mut id = owned("stream-");
        crate::text::push_decimal(&mut id, self.next_stream_id);
        let st = YouTubeStreamState { stream_id: id, subscription };
        self.next_stream_id = self.next_stream_id.saturating_add(1);
        Ok(st)
    }

    open spec fn closes(&self, r: Result<(), PlatformError>, next: Self) -> bool {
        r is Ok && next == (MockYouTubeTransport {
            close_count: if self.close_count == u32::MAX {
                u32::MAX
            } else {
                (self.close_count + 1) as u32
            },
            ..*self
        })
    }

    open spec fn pushes(&self, r: Result<Option<YouTubeStreamSignal>, PlatformError>) -> bool {
        if self.pushed_signals@.len() > 0 {
            r == Ok::<Option<YouTubeStreamSignal>, PlatformError>(Some(self.pushed_signals@[0]))
        } else {
            r == Ok::<Option<YouTubeStreamSignal>, PlatformError>(None)
        }
    }

    fn close_stream(&mut self) -> (r: Result<(), PlatformError>)
        ensures
            r is Ok,
            final(self).close_count == if old(self).close_count == u32::MAX {
                u32::MAX
            } else {
                (old(self).close_count + 1) as u32
            },
    {
        self.close_count = self.close_count.saturating_add(1);
        Ok(())
    }

    fn receive_pushed_signal(&mut self) -> (r: Result<Option<YouTubeStreamSignal>, PlatformError>)
        ensures
            old(self).pushed_signals@.len() > 0 ==> r == Ok::<Option<YouTubeStreamSignal>, PlatformError>(
                Some(old(self).pushed_signals@[0]),
            ) && final(self).pushed_signals@ == old(self).pushed_signals@.drop_first(),
            old(self).pushed_signals@.len() == 0 ==> r == Ok::<Option<YouTubeStreamSignal>, PlatformError>(None)
                && final(self).pushed_signals@.len() == 0,
    {
        if self.pushed_signals.len() == 0 {
            return Ok(None);
        }
        let s = self.pushed_signals.remove(0);
        assert(self.pushed_signals@ =~= old(self).pushed_signals@.drop_first());
        Ok(Some(s))
    }

    fn send_message(&mut self, request: YouTubeSendMessageRequest, auth: &YouTubeTransportAuth) -> (r: Result<
        String,
        PlatformError,
    >)
        ensures
            !(auth is Authenticated) ==> (r matches Err(e) && e.platform == Platform::Youtube && e.message@
                == "Cannot send YouTube message without authenticated transport"@) && final(self).sent_messages@
                == old(self).sent_messages@,
            auth is Authenticated ==> (r matches Ok(id) && id@ == decimal(old(self).next_sent_id as nat))
                && final(self).sent_messages@ == old(self).sent_messages@.push(
                SentYouTubeMessage {
                    channel_id: request.channel_id,
                    live_chat_id: request.live_chat_id,
                    text: request.text,
                    reply_to_message_id: request.reply_to_message_id,
                },
            ),
    {
        match auth {
            YouTubeTransportAuth::Authenticated { .. } => {},
            _ => {
                return Err(
                    PlatformError::new(
                        Platform::Youtube,
                        owned("Cannot send YouTube message without authenticated transport"),
                    ),
                );
            },
        }
        self.sent_messages.push(
            SentYouTubeMessage {
                channel_id: request.channel_id,
                live_chat_id: request.live_chat_id,
                text: request.text,
                reply_to_message_id: request.reply_to_message_id,
            },
        );
        let id = u64_to_string(self.next_sent_id);
        self.next_sent_id = self.next_sent_id.saturating_add(1);
        Ok(id)
    }
}

} // verus!
