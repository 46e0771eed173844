//! The YouTube adapter: auth state, connection state and message helpers.
use crate::platforms::youtube::transport::{
    YouTubeAccountHint, YouTubeAuthor, YouTubeBadge, YouTubeChannelResolutionRequest,
    YouTubeResolvedChannel, YouTubeStreamState, YouTubeStreamSubscription,
    YouTubeStreamingTransport, YouTubeTransportAuth, YouTubeTransportKind,
};
use crate::platforms::PlatformError;
use crate::protocol::types::{Badge, EventUser, Platform, PlatformStatusMode};
use crate::text::{decimal, owned, push_str, trim, trimmed, u64_to_string};
use crate::auth::{AuthError, AuthProvider, AuthenticatedAccount};
use vstd::prelude::*;

verus! {

/// Seconds before expiry at which a YouTube token is treated as expired.
pub const YOUTUBE_TOKEN_REFRESH_WINDOW_SECONDS: u64 = 300;

/// Whether the adapter may act as a YouTube user.
#[derive(Debug, Clone, PartialEq, Eq)]
pub enum YouTubeAuthState {
    Anonymous,
    Authenticated {
        account_id: String,
        platform_user_id: String,
        username: String,
        display_name: String,
        avatar_url: Option<String>,
        access_token: String,
    },
    ReauthRequired { account_id: String, reason: String },
}

impl YouTubeAuthState {
    pub fn mode(&self) -> (r: PlatformStatusMode)
        ensures
            r == (if self is Authenticated {
                PlatformStatusMode::Authenticated
            } else {
                PlatformStatusMode::Anonymous
            }),
    {
        match self {
            YouTubeAuthState::Authenticated { .. } => PlatformStatusMode::Authenticated,
            _ => PlatformStatusMode::Anonymous,
        }
    }

    pub fn is_authenticated(&self) -> (r: bool)
        ensures
            r == self is Authenticated,
    {
        match self {
            YouTubeAuthState::Authenticated { .. } => true,
            _ => false,
        }
    }
}

/// Whether a YouTube token expiring at `expires_at` needs reauthentication at `now` (seconds).
pub fn token_requires_reauth(expires_at: Option<u64>, now: u64) -> (r: bool)
    ensures
        r == match expires_at {
            Some(t) => t <= (if now + YOUTUBE_TOKEN_REFRESH_WINDOW_SECONDS > u64::MAX {
                u64::MAX as int
            } else {
                now + YOUTUBE_TOKEN_REFRESH_WINDOW_SECONDS
            }),
            None => false,
        },
{
    match expires_at {
        Some(t) => t <= now.saturating_add(YOUTUBE_TOKEN_REFRESH_WINDOW_SECONDS),
        None => false,
    }
}

/// The reason reauthentication is required, if it is.
pub fn reauth_reason(auth_state: &YouTubeAuthState) -> (r: Option<String>)
    ensures
        match auth_state {
            YouTubeAuthState::ReauthRequired { reason, .. } => r is Some && r->0@ == reason@,
            _ => r is None,
        },
{
    match auth_state {
        YouTubeAuthState::ReauthRequired { reason, .. } => Some(reason.clone()),
        _ => None,
    }
}

/// A YouTube channel input, trimmed.
pub fn normalize_channel_slug(channel: &str) -> (r: String)
    ensures
        r@ == trim(channel@),
{
    trimmed(channel)
}

/// The message timestamp, or the current time `now` (seconds) when it is empty.
pub fn non_empty_timestamp(timestamp: String, now: u64) -> (r: String)
    ensures
        r@ == (if timestamp@.len() == 0 {
            decimal(now as nat)
        } else {
            timestamp@
        }),
{
    if timestamp.as_str().is_empty() {
        u64_to_string(now)
    } else {
        timestamp
    }
}

/// The event user of a YouTube author.
pub fn event_user(author: YouTubeAuthor) -> (r: EventUser)
    ensures
        r.id == author.channel_id,
        r.display_name == author.display_name,
        r.avatar_url == author.avatar_url,
{
    EventUser { id: author.channel_id, display_name: author.display_name, avatar_url: author.avatar_url }
}

/// A badge as `(id, type, text, image address)`.
pub type BadgeView = (Seq<char>, Seq<char>, Seq<char>, Option<Seq<char>>);

/// The view of an optional string.
pub open spec fn opt_text(o: Option<String>) -> Option<Seq<char>> {
    match o {
        Some(s) => Some(s@),
        None => None,
    }
}

/// The badges a YouTube author shows: the explicit ones, then owner, moderator, verified and
/// member badges for the author's roles, in that order.
pub open spec fn youtube_badges_spec(author: YouTubeAuthor, explicit: Seq<BadgeView>) -> Seq<BadgeView> {
    explicit + (if author.is_chat_owner {
        seq![("owner"@, "broadcaster"@, "Owner"@, None::<Seq<char>>)]
    } else {
        Seq::empty()
    }) + (if author.is_chat_moderator {
        seq![("mod"@, "moderator"@, "Moderator"@, None::<Seq<char>>)]
    } else {
        Seq::empty()
    }) + (if author.is_verified {
        seq![("verified"@, "staff"@, "Verified"@, None::<Seq<char>>)]
    } else {
        Seq::empty()
    }) + (if author.is_chat_sponsor {
        seq![("member"@, "subscriber"@, "Member"@, None::<Seq<char>>)]
    } else {
        Seq::empty()
    })
}

/// The view of a list of protocol badges.
pub open spec fn badges_view(v: Seq<Badge>) -> Seq<BadgeView> {
    Seq::new(v.len(), |i: int| (v[i].id@, v[i].badge_type@, v[i].text@, opt_text(v[i].image_url)))
}

/// The view of a list of YouTube badges.
pub open spec fn yt_badges_view(v: Seq<YouTubeBadge>) -> Seq<BadgeView> {
    Seq::new(v.len(), |i: int| (v[i].id@, v[i].badge_type@, v[i].text@, opt_text(v[i].image_url)))
}

fn role_badge(id: &str, badge_type: &str, text: &str) -> (r: Badge)
    ensures
        (r.id@, r.badge_type@, r.text@, opt_text(r.image_url)) == (id@, badge_type@, text@, None::<Seq<char>>),
{
    Badge { id: owned(id), badge_type: owned(badge_type), text: owned(text), image_url: None }
}

/// The badges a YouTube author shows in chat.
pub fn youtube_badges(author: &YouTubeAuthor, explicit_badges: Vec<YouTubeBadge>) -> (r: Vec<Badge>)
    ensures
        badges_view(r@) == youtube_badges_spec(*author, yt_badges_view(explicit_badges@)),
{
    let mut out: Vec<Badge> = Vec::new();
    let ghost ex = yt_badges_view(explicit_badges@);
    let mut it = explicit_badges;
    let mut rev: Vec<YouTubeBadge> = Vec::new();
    while it.len() > 0
        invariant
            yt_badges_view(it@) + yt_badges_view(rev@).reverse() == ex,
        decreases it@.len(),
    {
        let b = it.pop().unwrap();
        let ghost old_rev = rev@;
        rev.push(b);
        proof {
            assert(yt_badges_view(rev@).reverse() =~= seq![yt_badges_view(rev@).last()] + yt_badges_view(old_rev).reverse());
        }
        assert(yt_badges_view(it@) + yt_badges_view(rev@).reverse() =~= ex) by {
            assert(yt_badges_view(it@).push((b.id@, b.badge_type@, b.text@, opt_text(b.image_url))) + yt_badges_view(old_rev).reverse() =~= ex);
        }
    }
    proof {
        assert(yt_badges_view(it@) =~= Seq::<BadgeView>::empty());
        assert(badges_view(out@) + yt_badges_view(rev@).reverse() =~= ex);
    }
    while rev.len() > 0
        invariant
            badges_view(out@) + yt_badges_view(rev@).reverse() == ex,
        decreases rev@.len(),
    {
        let b = rev.pop().unwrap();
        let ghost old_out = out@;
        out.push(Badge { id: b.id, badge_type: b.badge_type, text: b.text, image_url: b.image_url });
        proof {
            assert(badges_view(out@) =~= badges_view(old_out).push(
                (b.id@, b.badge_type@, b.text@, opt_text(b.image_url)),
            ));
        }
        assert(badges_view(out@) + yt_badges_view(rev@).reverse() =~= ex);
    }
    proof {
        assert(badges_view(out@) =~= ex);
    }
    if author.is_chat_owner {
        out.push(role_badge("owner", "broadcaster", "Owner"));
    }
    let ghost a1 = badges_view(out@);
    if author.is_chat_moderator {
        out.push(role_badge("mod", "moderator", "Moderator"));
    }
    let ghost a2 = badges_view(out@);
    if author.is_verified {
        out.push(role_badge("verified", "staff", "Verified"));
    }
    let ghost a3 = badges_view(out@);
    if author.is_chat_sponsor {
        out.push(role_badge("member", "subscriber", "Member"));
    }
    proof {
        assert(badges_view(out@) =~= youtube_badges_spec(*author, ex));
    }
    out
}

} // verus!

verus! {

/// The error for an action that needs an authenticated YouTube account, if it is refused.
pub open spec fn youtube_auth_refusal(auth_state: YouTubeAuthState, action: Seq<char>) -> Option<Seq<char>> {
    match auth_state {
        YouTubeAuthState::Authenticated { .. } => None,
        YouTubeAuthState::ReauthRequired { reason, .. } => Some(
            "Cannot "@ + action + "; YouTube account requires reauth: "@ + reason@,
        ),
        YouTubeAuthState::Anonymous => Some("Cannot "@ + action + " in anonymous YouTube mode"@),
    }
}

/// The identity a transport connects with, for an auth state.
pub open spec fn youtube_transport_auth_spec(auth: YouTubeAuthState) -> YouTubeTransportAuth {
    match auth {
        YouTubeAuthState::Anonymous => YouTubeTransportAuth::Anonymous,
        YouTubeAuthState::Authenticated {
            account_id,
            platform_user_id,
            username,
            display_name,
            access_token,
            ..
        } => YouTubeTransportAuth::Authenticated {
            account_id,
            platform_user_id,
            username,
            display_name,
            access_token,
        },
        YouTubeAuthState::ReauthRequired { account_id, reason } => YouTubeTransportAuth::ReauthRequired {
            account_id,
            reason,
        },
    }
}

/// The account hint sent with a channel lookup: the signed-in account, if any.
pub open spec fn account_hint_spec(auth: YouTubeAuthState) -> Option<YouTubeAccountHint> {
    match auth {
        YouTubeAuthState::Authenticated { account_id, platform_user_id, username, display_name, .. } => Some(
            YouTubeAccountHint { account_id, platform_user_id, username, display_name },
        ),
        _ => None,
    }
}

/// Connection state of the YouTube adapter around a streaming transport.
pub struct YouTubeAdapter<T> {
    pub transport: T,
    pub channel_slug: Option<String>,
    pub resolved_channel: Option<YouTubeResolvedChannel>,
    pub active_stream: Option<YouTubeStreamState>,
    pub is_connected: bool,
    pub should_reconnect: bool,
    pub reconnect_attempts: u32,
    pub auth_state: YouTubeAuthState,
}

impl<T> YouTubeAdapter<T> {
    /// A disconnected, anonymous adapter.
    pub fn new(transport: T) -> (r: Self)
        ensures
            r.transport == transport,
            r.channel_slug is None,
            r.resolved_channel is None,
            r.active_stream is None,
            !r.is_connected,
            r.should_reconnect,
            r.reconnect_attempts == 0,
            r.auth_state is Anonymous,
    {
        YouTubeAdapter {
            transport,
            channel_slug: None,
            resolved_channel: None,
            active_stream: None,
            is_connected: false,
            should_reconnect: true,
            reconnect_attempts: 0,
            auth_state: YouTubeAuthState::Anonymous,
        }
    }

    pub fn auth_state(&self) -> (r: &YouTubeAuthState)
        ensures
            *r == self.auth_state,
    {
        &self.auth_state
    }

    pub fn resolved_channel(&self) -> (r: Option<&YouTubeResolvedChannel>)
        ensures
            match self.resolved_channel {
                Some(c) => r == Some(&c),
                None => r is None,
            },
    {
        match &self.resolved_channel {
            Some(c) => Some(c),
            None => None,
        }
    }

    pub fn active_stream(&self) -> (r: Option<&YouTubeStreamState>)
        ensures
            match self.active_stream {
                Some(s) => r == Some(&s),
                None => r is None,
            },
    {
        match &self.active_stream {
            Some(s) => Some(s),
            None => None,
        }
    }

    pub fn reconnect_attempts(&self) -> (r: u32)
        ensures
            r == self.reconnect_attempts,
    {
        self.reconnect_attempts
    }

    pub fn transport(&self) -> (r: &T)
        ensures
            *r == self.transport,
    {
        &self.transport
    }

    pub fn transport_mut(&mut self) -> (r: &mut T)
        ensures
            *r == old(self).transport,
            final(self).transport == *final(r),
            final(self).channel_slug == old(self).channel_slug,
            final(self).resolved_channel == old(self).resolved_channel,
            final(self).active_stream == old(self).active_stream,
            final(self).is_connected == old(self).is_connected,
            final(self).should_reconnect == old(self).should_reconnect,
            final(self).reconnect_attempts == old(self).reconnect_attempts,
            final(self).auth_state == old(self).auth_state,
    {
        &mut self.transport
    }

    /// The id of the resolved channel, or empty text before resolution.
    pub fn current_channel_id(&self) -> (r: String)
        ensures
            r@ == match self.resolved_channel {
                Some(c) => c.channel_id@,
                None => Seq::empty(),
            },
    {
        match &self.resolved_channel {
            Some(c) => c.channel_id.clone(),
            None => String::new(),
        }
    }

    /// The live chat id of the resolved channel.
    pub fn current_live_chat_id(&self) -> (r: Option<String>)
        ensures
            r == match self.resolved_channel {
                Some(c) => Some(c.live_chat_id),
                None => None,
            },
    {
        match &self.resolved_channel {
            Some(c) => Some(c.live_chat_id.clone()),
            None => None,
        }
    }

    /// The account hint for a channel lookup.
    pub fn account_hint(&self) -> (r: Option<YouTubeAccountHint>)
        ensures
            r == account_hint_spec(self.auth_state),
    {
        match &self.auth_state {
            YouTubeAuthState::Authenticated { account_id, platform_user_id, username, display_name, .. } =>
                Some(
                YouTubeAccountHint {
                    account_id: account_id.clone(),
                    platform_user_id: platform_user_id.clone(),
                    username: username.clone(),
                    display_name: display_name.clone(),
                },
            ),
            _ => None,
        }
    }

    /// The identity the transport connects with.
    pub fn transport_auth(&self) -> (r: YouTubeTransportAuth)
        ensures
            r == youtube_transport_auth_spec(self.auth_state),
    {
        match &self.auth_state {
            YouTubeAuthState::Anonymous => YouTubeTransportAuth::Anonymous,
            YouTubeAuthState::Authenticated {
                account_id,
                platform_user_id,
                username,
                display_name,
                access_token,
                ..
            } => YouTubeTransportAuth::Authenticated {
                account_id: account_id.clone(),
                platform_user_id: platform_user_id.clone(),
                username: username.clone(),
                display_name: display_name.clone(),
                access_token: access_token.clone(),
            },
            YouTubeAuthState::ReauthRequired { account_id, reason } => YouTubeTransportAuth::ReauthRequired {
                account_id: account_id.clone(),
                reason: reason.clone(),
            },
        }
    }

    /// Refuses `action` unless the adapter is authenticated.
    pub fn require_authenticated(&self, action: &str) -> (r: Result<(), PlatformError>)
        ensures
            match youtube_auth_refusal(self.auth_state, action@) {
                None => r is Ok,
                Some(m) => r is Err && r->Err_0.platform == Platform::Youtube && r->Err_0.message@ == m,
            },
    {
        match &self.auth_state {
            YouTubeAuthState::Authenticated { .. } => Ok(()),
            YouTubeAuthState::ReauthRequired { reason, .. } => {
                let mut m = owned("Cannot ");
                push_str(&mut m, action);
                push_str(&mut m, "; YouTube account requires reauth: ");
                push_str(&mut m, reason.as_str());
                Err(PlatformError::new(Platform::Youtube, m))
            },
            YouTubeAuthState::Anonymous => {
                let mut m = owned("Cannot ");
                push_str(&mut m, action);
                push_str(&mut m, " in anonymous YouTube mode");
                Err(PlatformError::new(Platform::Youtube, m))
            },
        }
    }
}

/// What one connection attempt does from `a` to `b`, answering `r`: without a configured
/// channel it is refused; else the transport resolves the channel (with the account hint of
/// the auth state) and, in the state that left it, subscribes to the channel's chat (with the
/// transport identity of the auth state); a refusal of either is handed back with nothing
/// else changed; on success the resolved channel and its stream are kept and the adapter
/// counts as connected.
pub open spec fn yt_connect_outcome<T: YouTubeStreamingTransport>(
    a: YouTubeAdapter<T>,
    b: YouTubeAdapter<T>,
    r: Result<(), PlatformError>,
) -> bool {
    match a.channel_slug {
        None => r is Err && r->Err_0.platform == Platform::Youtube && r->Err_0.message@
            == "YouTube channel slug was not set"@ && b == a,
        Some(slug) => exists|resolved: Result<YouTubeResolvedChannel, PlatformError>, t1: T|
            #[trigger] a.transport.gives_channel(
                YouTubeChannelResolutionRequest { input: slug, account_hint: account_hint_spec(a.auth_state) },
                resolved,
                t1,
            ) && match resolved {
                Err(e) => r == Err::<(), PlatformError>(e) && b == (YouTubeAdapter { transport: t1, ..a }),
                Ok(c) => exists|opened: Result<YouTubeStreamState, PlatformError>|
                    #[trigger] t1.gives_stream(
                        YouTubeStreamSubscription {
                            channel_id: c.channel_id,
                            live_chat_id: c.live_chat_id,
                            video_id: c.video_id,
                        },
                        youtube_transport_auth_spec(a.auth_state),
                        opened,
                        b.transport,
                    ) && match opened {
                        Err(e) => r == Err::<(), PlatformError>(e) && b == (YouTubeAdapter { transport: b.transport, ..a }),
                        Ok(st) => r is Ok && b == (YouTubeAdapter {
                            transport: b.transport,
                            resolved_channel: Some(c),
                            active_stream: Some(st),
                            is_connected: true,
                            ..a
                        }),
                    },
            },
    }
}

impl<T: YouTubeStreamingTransport> YouTubeAdapter<T> {
    /// The kind of transport in use: server streaming, the only kind there is.
    pub fn transport_kind(&self) -> (r: YouTubeTransportKind)
        ensures
            r == YouTubeTransportKind::ServerStreaming,
    {
        self.transport.transport_kind()
    }

    /// One connection attempt: resolve the configured channel and subscribe to its chat
    /// ([`yt_connect_outcome`]).
    pub fn connect_once(&mut self) -> (r: Result<(), PlatformError>)
        ensures
            yt_connect_outcome(*old(self), *final(self), r),
            old(self).channel_slug is None ==> r is Err && r->Err_0.platform == Platform::Youtube
                && r->Err_0.message@ == "YouTube channel slug was not set"@,
            r is Ok ==> final(self).is_connected && final(self).resolved_channel is Some
                && final(self).active_stream is Some,
            r is Err ==> final(self).is_connected == old(self).is_connected && final(self).resolved_channel
                == old(self).resolved_channel && final(self).active_stream == old(self).active_stream,
            final(self).channel_slug == old(self).channel_slug,
            final(self).auth_state == old(self).auth_state,
            final(self).reconnect_attempts == old(self).reconnect_attempts,
    {
        let channel_slug = match &self.channel_slug {
            Some(s) => s.clone(),
            None => {
                return Err(PlatformError::new(Platform::Youtube, owned("YouTube channel slug was not set")));
            },
        };
        let request = YouTubeChannelResolutionRequest { input: channel_slug, account_hint: self.account_hint() };
        let ghost sent_request = request;
        let answer = self.transport.resolve_channel(request);
        let ghost resolved_answer = answer;
        let ghost t1 = self.transport;
        assert(old(self).transport.gives_channel(sent_request, resolved_answer, t1));
        let resolved = match answer {
            Ok(c) => c,
            Err(e) => {
                assert(*self == (YouTubeAdapter { transport: t1, ..*old(self) }));
                return Err(e);
            },
        };
        let subscription = YouTubeStreamSubscription {
            channel_id: resolved.channel_id.clone(),
            live_chat_id: resolved.live_chat_id.clone(),
            video_id: match &resolved.video_id {
                Some(v) => Some(v.clone()),
                None => None,
            },
        };
        let auth = self.transport_auth();
        let ghost sent_subscription = subscription;
        let opened = self.transport.subscribe(subscription, &auth);
        let ghost opened_answer = opened;
        let ghost t2 = self.transport;
        assert(t1.gives_stream(sent_subscription, youtube_transport_auth_spec(old(self).auth_state), opened_answer, t2));
        let stream = match opened {
            Ok(s) => s,
            Err(e) => {
                assert(*self == (YouTubeAdapter { transport: t2, ..*old(self) }));
                return Err(e);
            },
        };
        self.resolved_channel = Some(resolved);
        self.active_stream = Some(stream);
        self.is_connected = true;
        Ok(())
    }
}


/// The YouTube OAuth provider, sending the user back to `redirect_uri`.
#[derive(Debug, Clone, PartialEq, Eq)]
pub struct YouTubeAuthProvider {
    pub redirect_uri: String,
}

impl YouTubeAuthProvider {
    /// The provider that redirects to `redirect_uri`.
    pub fn new(redirect_uri: String) -> (r: Self)
        ensures
            r.redirect_uri == redirect_uri,
    {
        YouTubeAuthProvider { redirect_uri }
    }
}

/// The YouTube authorization URL for a PKCE challenge and state.
pub open spec fn youtubeauthprovider_url(redirect_uri: Seq<char>, code_challenge: Seq<char>, state: Seq<char>) -> Seq<char> {
    "https://accounts.google.com/o/oauth2/v2/auth?response_type=code&client_id=twirchat-desktop&redirect_uri="@ + redirect_uri + "&scope=openid%20profile%20https%3A%2F%2Fwww.googleapis.com%2Fauth%2Fyoutube.force-ssl&code_challenge="@ + code_challenge
        + "&code_challenge_method=S256&state="@ + state
}

impl AuthProvider for YouTubeAuthProvider {
    open spec fn provider_platform(&self) -> Platform {
        Platform::Youtube
    }

    open spec fn gives_authorization_url(&self, code_challenge: Seq<char>, state: Seq<char>, r: Result<Seq<char>, AuthError>) -> bool {
        r == Ok::<Seq<char>, AuthError>(youtubeauthprovider_url(self.redirect_uri@, code_challenge, state))
    }

    open spec fn gives_exchange(&self, code: Seq<char>, code_verifier: Seq<char>, r: Result<AuthenticatedAccount, AuthError>) -> bool {
        r matches Err(AuthError::Provider { platform, message }) && platform == Platform::Youtube && message@ == "native YouTube adapter does not perform network OAuth exchange"@
    }

    fn platform(&self) -> (r: Platform)
        ensures
            r == Platform::Youtube,
    {
        Platform::Youtube
    }

    fn display_name(&self) -> (r: &'static str)
        ensures
            r@ == "YouTube"@,
    {
        "YouTube"
    }

    fn redirect_uri(&self) -> (r: &str)
        ensures
            r@ == self.redirect_uri@,
    {
        self.redirect_uri.as_str()
    }

    fn build_authorization_url(&self, code_challenge: &str, state: &str) -> (r: Result<String, AuthError>)
        ensures
            r matches Ok(u) && u@ == youtubeauthprovider_url(self.redirect_uri@, code_challenge@, state@),
    {
        let mut u = owned("https://accounts.google.com/o/oauth2/v2/auth?response_type=code&client_id=twirchat-desktop&redirect_uri=");
        push_str(&mut u, self.redirect_uri.as_str());
        push_str(&mut u, "&scope=openid%20profile%20https%3A%2F%2Fwww.googleapis.com%2Fauth%2Fyoutube.force-ssl&code_challenge=");
        push_str(&mut u, code_challenge);
        push_str(&mut u, "&code_challenge_method=S256&state=");
        push_str(&mut u, state);
        Ok(u)
    }

    fn exchange_callback(&self, code: &str, code_verifier: &str) -> (r: Result<AuthenticatedAccount, AuthError>)
        ensures
            r matches Err(AuthError::Provider { platform, message }) && platform == Platform::Youtube
                && message@ == "native YouTube adapter does not perform network OAuth exchange"@,
    {
        Err(AuthError::Provider { platform: Platform::Youtube, message: owned("native YouTube adapter does not perform network OAuth exchange") })
    }
}

} // verus!
