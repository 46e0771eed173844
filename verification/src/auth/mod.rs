//! Account sign-in: OAuth errors, pending sessions and the sign-in service.
pub mod browser;
pub mod connect;
pub mod callback;
pub mod local_callback;
pub mod server;

use crate::protocol::types::Platform;
use crate::text::{push_str, owned};
use vstd::prelude::*;

verus! {

/// How long a started sign-in stays valid: ten minutes.
pub const DEFAULT_SESSION_TTL_MS: u64 = 600000;

/// Why a sign-in failed.
#[derive(Debug)]
pub enum AuthError {
    BrowserOpenFailed { url: String, message: String },
    MissingCallbackParam { name: &'static str },
    ProviderRejected { error: String, description: Option<String> },
    UnknownState,
    ExpiredState,
    StatePlatformMismatch { expected: Platform, actual: Platform },
    Provider { platform: Platform, message: String },
    Storage { message: String },
    StorageInvariant { message: String },
}

/// The name of a platform as `{:?}` writes it.
pub open spec fn platform_debug_name(p: Platform) -> Seq<char> {
    match p {
        Platform::Twitch => "Twitch"@,
        Platform::Youtube => "Youtube"@,
        Platform::Kick => "Kick"@,
    }
}

/// The user-facing text of an error.
pub open spec fn auth_error_text(e: AuthError) -> Seq<char> {
    match e {
        AuthError::BrowserOpenFailed { url, message } => "failed to open browser for "@ + url@ + ": "@ + message@,
        AuthError::MissingCallbackParam { name } => "missing "@ + name@ + " in OAuth callback"@,
        AuthError::ProviderRejected { error, description } => match description {
            Some(d) => "OAuth provider rejected auth: "@ + error@ + " \u{2014} "@ + d@,
            None => "OAuth provider rejected auth: "@ + error@,
        },
        AuthError::UnknownState => "unknown or expired OAuth state"@,
        AuthError::ExpiredState => "OAuth session expired"@,
        AuthError::StatePlatformMismatch { expected, actual } => "OAuth state belongs to "@ + platform_debug_name(
            actual,
        ) + ", not expected platform "@ + platform_debug_name(expected),
        AuthError::Provider { platform, message } => platform_debug_name(platform) + " auth provider error: "@
            + message@,
        AuthError::Storage { message } => "auth storage error: "@ + message@,
        AuthError::StorageInvariant { message } => "auth storage invariant failed: "@ + message@,
    }
}

/// The name of a platform as `{:?}` writes it.
pub fn platform_debug_str(p: Platform) -> (r: &'static str)
    ensures
        r@ == platform_debug_name(p),
{
    match p {
        Platform::Twitch => "Twitch",
        Platform::Youtube => "Youtube",
        Platform::Kick => "Kick",
    }
}

impl AuthError {
    /// The user-facing text of the error.
    pub fn message(&self) -> (r: String)
        ensures
            r@ == auth_error_text(*self),
    {
        match self {
            AuthError::BrowserOpenFailed { url, message } => {
                let mut s = owned("failed to open browser for ");
                push_str(&mut s, url.as_str());
                push_str(&mut s, ": ");
                push_str(&mut s, message.as_str());
                s
            },
            AuthError::MissingCallbackParam { name } => {
                let mut s = owned("missing ");
                push_str(&mut s, name);
                push_str(&mut s, " in OAuth callback");
                s
            },
            AuthError::ProviderRejected { error, description } => {
                let mut s = owned("OAuth provider rejected auth: ");
                push_str(&mut s, error.as_str());
                match description {
                    Some(d) => {
                        push_str(&mut s, " \u{2014} ");
                        push_str(&mut s, d.as_str());
                    },
                    None => {},
                }
                s
            },
            AuthError::UnknownState => owned("unknown or expired OAuth state"),
            AuthError::ExpiredState => owned("OAuth session expired"),
            AuthError::StatePlatformMismatch { expected, actual } => {
                let mut s = owned("OAuth state belongs to ");
                push_str(&mut s, platform_debug_str(*actual));
                push_str(&mut s, ", not expected platform ");
                push_str(&mut s, platform_debug_str(*expected));
                s
            },
            AuthError::Provider { platform, message } => {
                let mut s = owned(platform_debug_str(*platform));
                push_str(&mut s, " auth provider error: ");
                push_str(&mut s, message.as_str());
                s
            },
            AuthError::Storage { message } => {
                let mut s = owned("auth storage error: ");
                push_str(&mut s, message.as_str());
                s
            },
            AuthError::StorageInvariant { message } => {
                let mut s = owned("auth storage invariant failed: ");
                push_str(&mut s, message.as_str());
                s
            },
        }
    }
}

/// An account as the provider returned it after a successful exchange.
#[derive(Debug, Clone, PartialEq, Eq)]
pub struct AuthenticatedAccount {
    pub id: String,
    pub platform: Platform,
    pub platform_user_id: String,
    pub username: String,
    pub display_name: String,
    pub avatar_url: Option<String>,
    pub access_token: String,
    pub refresh_token: Option<String>,
    pub expires_at: Option<u64>,
    pub scopes: Vec<String>,
    pub channel_slug: String,
}

/// An OAuth provider of one platform.
pub trait AuthProvider {
    /// The platform the provider signs in to.
    spec fn provider_platform(&self) -> Platform;

    /// `r` is an answer the provider may give when asked for the authorization URL of a PKCE
    /// challenge and a state; a provider that does not say may give any answer.
    open spec fn gives_authorization_url(&self, code_challenge: Seq<char>, state: Seq<char>, r: Result<Seq<char>, AuthError>) -> bool {
        true
    }

    /// `r` is an answer the provider may give when asked to exchange an authorization code,
    /// with the PKCE verifier of its sign-in, for the account; a provider that does not say
    /// may give any answer.
    open spec fn gives_exchange(&self, code: Seq<char>, code_verifier: Seq<char>, r: Result<AuthenticatedAccount, AuthError>) -> bool {
        true
    }

    fn platform(&self) -> (r: Platform)
        ensures
            r == self.provider_platform(),
    ;

    fn display_name(&self) -> &'static str;

    fn redirect_uri(&self) -> &str;

    fn build_authorization_url(&self, code_challenge: &str, state: &str) -> (r: Result<String, AuthError>)
        ensures
            self.gives_authorization_url(code_challenge@, state@, url_answer(r)),
    ;

    fn exchange_callback(&self, code: &str, code_verifier: &str) -> (r: Result<AuthenticatedAccount, AuthError>)
        ensures
            self.gives_exchange(code@, code_verifier@, r),
    ;
}

/// An answer for an authorization URL, the URL taken by its characters.
pub open spec fn url_answer(r: Result<String, AuthError>) -> Result<Seq<char>, AuthError> {
    match r {
        Ok(u) => Ok(u@),
        Err(e) => Err(e),
    }
}

/// A sign-in that was started and waits for its callback.
#[derive(Debug, PartialEq, Eq)]
pub struct PendingAuthSession {
    pub platform: Platform,
    pub code_verifier: String,
    pub redirect_uri: String,
    pub expires_at_ms: u64,
}

impl Clone for PendingAuthSession {
    fn clone(&self) -> (r: Self)
        ensures
            r == *self,
    {
        PendingAuthSession {
            platform: self.platform,
            code_verifier: self.code_verifier.clone(),
            redirect_uri: self.redirect_uri.clone(),
            expires_at_ms: self.expires_at_ms,
        }
    }
}

/// Pending sign-ins by OAuth state, each valid until its expiry time.
#[derive(Debug, Clone)]
pub struct AuthSessionStore {
    ttl_ms: u64,
    sessions: Vec<(String, PendingAuthSession)>,
}

/// The sessions that a list of `(state, session)` entries stands for.
pub open spec fn sessions_map(s: Seq<(String, PendingAuthSession)>) -> Map<Seq<char>, PendingAuthSession>
    decreases s.len(),
{
    if s.len() == 0 {
        Map::empty()
    } else {
        sessions_map(s.drop_last()).insert(s.last().0@, s.last().1)
    }
}

/// No state occurs twice.
pub open spec fn sessions_wf(s: Seq<(String, PendingAuthSession)>) -> bool {
    forall|i: int, j: int| 0 <= i < s.len() && 0 <= j < s.len() && i != j ==> (#[trigger] s[i]).0@ != (#[trigger] s[j]).0@
}

proof fn lemma_sessions_map(s: Seq<(String, PendingAuthSession)>)
    requires
        sessions_wf(s),
    ensures
        forall|k: Seq<char>|
            #[trigger] sessions_map(s).contains_key(k) <==> exists|i: int| 0 <= i < s.len() && (#[trigger] s[i]).0@ == k,
        forall|i: int| 0 <= i < s.len() ==> sessions_map(s)[(#[trigger] s[i]).0@] == s[i].1,
    decreases s.len(),
{
    if s.len() > 0 {
        let p = s.drop_last();
        assert(sessions_wf(p)) by {
            assert forall|i: int, j: int| 0 <= i < p.len() && 0 <= j < p.len() && i != j implies (#[trigger] p[i]).0@
                != (#[trigger] p[j]).0@ by {
                assert(p[i] == s[i] && p[j] == s[j]);
            }
        }
        lemma_sessions_map(p);
        let last = s.len() - 1;
        assert forall|k: Seq<char>| #[trigger] sessions_map(s).contains_key(k) implies exists|i: int|
            0 <= i < s.len() && (#[trigger] s[i]).0@ == k by {
            if k == s[last].0@ {
                assert(s[last].0@ == k);
            } else {
                assert(sessions_map(p).contains_key(k));
                let i = choose|i: int| 0 <= i < p.len() && (#[trigger] p[i]).0@ == k;
                assert(s[i] == p[i]);
            }
        }
        assert forall|k: Seq<char>| (exists|i: int| 0 <= i < s.len() && (#[trigger] s[i]).0@ == k) implies #[trigger] sessions_map(
            s,
        ).contains_key(k) by {
            let i = choose|i: int| 0 <= i < s.len() && (#[trigger] s[i]).0@ == k;
            if i < last {
                assert(p[i] == s[i]);
            }
        }
        assert forall|i: int| 0 <= i < s.len() implies sessions_map(s)[(#[trigger] s[i]).0@] == s[i].1 by {
            if i < last {
                assert(p[i] == s[i]);
                assert(s[i].0@ != s[last].0@);
            }
        }
    }
}

/// The sessions of `m` that are still valid at `now_ms`.
pub open spec fn unexpired(m: Map<Seq<char>, PendingAuthSession>, now_ms: u64) -> Map<Seq<char>, PendingAuthSession> {
    Map::new(|k: Seq<char>| m.contains_key(k) && now_ms <= m[k].expires_at_ms, |k: Seq<char>| m[k])
}

/// `a + b`, or `u64::MAX` when that does not fit.
pub open spec fn saturating_add(a: u64, b: u64) -> u64 {
    if a + b > u64::MAX {
        u64::MAX
    } else {
        (a + b) as u64
    }
}

/// What taking the session of `state` gives when it was `entry`, at `now_ms`.
pub open spec fn take_outcome(entry: Option<PendingAuthSession>, expected: Platform, now_ms: u64) -> Result<
    PendingAuthSession,
    AuthError,
> {
    match entry {
        None => Err(AuthError::UnknownState),
        Some(s) => if s.platform != expected {
            Err(AuthError::StatePlatformMismatch { expected, actual: s.platform })
        } else if now_ms > s.expires_at_ms {
            Err(AuthError::ExpiredState)
        } else {
            Ok(s)
        },
    }
}

impl AuthSessionStore {
    /// The store's internal invariant.
    pub closed spec fn wf(&self) -> bool {
        sessions_wf(self.sessions@)
    }

    /// The pending sessions by state.
    pub closed spec fn sessions_view(&self) -> Map<Seq<char>, PendingAuthSession> {
        sessions_map(self.sessions@)
    }

    /// How long a new session stays valid.
    pub closed spec fn ttl(&self) -> u64 {
        self.ttl_ms
    }

    /// An empty store whose sessions last ten minutes.
    pub fn new() -> (r: Self)
        ensures
            r.wf(),
            r.sessions_view() == Map::<Seq<char>, PendingAuthSession>::empty(),
            r.ttl() == DEFAULT_SESSION_TTL_MS,
    {
        AuthSessionStore::with_ttl(DEFAULT_SESSION_TTL_MS)
    }

    /// An empty store whose sessions last `ttl_ms`.
    pub fn with_ttl(ttl_ms: u64) -> (r: Self)
        ensures
            r.wf(),
            r.sessions_view() == Map::<Seq<char>, PendingAuthSession>::empty(),
            r.ttl() == ttl_ms,
    {
        AuthSessionStore { ttl_ms, sessions: Vec::new() }
    }

    fn find(&self, state: &str) -> (r: Option<usize>)
        ensures
            match r {
                Some(i) => i < self.sessions@.len() && self.sessions@[i as int].0@ == state@,
                None => forall|i: int| 0 <= i < self.sessions@.len() ==> (#[trigger] self.sessions@[i]).0@ != state@,
            },
    {
        let mut i: usize = 0;
        while i < self.sessions.len()
            invariant
                i <= self.sessions@.len(),
                forall|j: int| 0 <= j < i ==> (#[trigger] self.sessions@[j]).0@ != state@,
            decreases self.sessions@.len() - i,
        {
            if crate::text::str_eq(self.sessions[i].0.as_str(), state) {
                return Some(i);
            }
            i = i + 1;
        }
        None
    }

    /// Removes the entry at `i`.
    fn remove_at(&mut self, i: usize) -> (r: PendingAuthSession)
        requires
            old(self).wf(),
            i < old(self).sessions@.len(),
        ensures
            final(self).wf(),
            final(self).ttl() == old(self).ttl(),
            r == old(self).sessions@[i as int].1,
            final(self).sessions_view() == old(self).sessions_view().remove(old(self).sessions@[i as int].0@),
    {
        let ghost old_s = self.sessions@;
        proof {
            lemma_sessions_map(old_s);
        }
        let (key, session) = self.sessions.remove(i);
        let ghost s = self.sessions@;
        proof {
            assert(s =~= old_s.remove(i as int));
            assert forall|a: int| 0 <= a < s.len() implies #[trigger] s[a] == old_s[if a < i {
                a
            } else {
                a + 1
            }] by {}
            assert(sessions_wf(s)) by {
                assert forall|a: int, b: int| 0 <= a < s.len() && 0 <= b < s.len() && a != b implies (#[trigger] s[a]).0@
                    != (#[trigger] s[b]).0@ by {
                    let a2 = if a < i { a } else { a + 1 };
                    let b2 = if b < i { b } else { b + 1 };
                    assert(s[a] == old_s[a2] && s[b] == old_s[b2]);
                }
            }
            lemma_sessions_map(s);
            let want = sessions_map(old_s).remove(old_s[i as int].0@);
            assert forall|k: Seq<char>| #[trigger] want.contains_key(k) implies sessions_map(s).contains_key(k) by {
                let j = choose|j: int| 0 <= j < old_s.len() && (#[trigger] old_s[j]).0@ == k;
                assert(j != i);
                let j2 = if j < i { j } else { j - 1 };
                assert(s[j2] == old_s[j]);
            }
            assert forall|k: Seq<char>| #[trigger] sessions_map(s).contains_key(k) implies want.contains_key(k)
                && sessions_map(s)[k] == want[k] by {
                let j = choose|j: int| 0 <= j < s.len() && (#[trigger] s[j]).0@ == k;
                let j2 = if j < i { j } else { j + 1 };
                assert(s[j] == old_s[j2]);
                assert(j2 != i);
            }
            assert(sessions_map(s) =~= want);
        }
        session
    }

    /// Records a started sign-in under `state`, valid until `now_ms` plus the store's time to
    /// live; a session already under that state is replaced.
    pub fn insert(&mut self, state: String, platform: Platform, code_verifier: String, redirect_uri: String, now_ms: u64)
        requires
            old(self).wf(),
        ensures
            final(self).wf(),
            final(self).ttl() == old(self).ttl(),
            final(self).sessions_view() == old(self).sessions_view().insert(
                state@,
                PendingAuthSession {
                    platform,
                    code_verifier,
                    redirect_uri,
                    expires_at_ms: saturating_add(now_ms, old(self).ttl()),
                },
            ),
    {
        let expires_at_ms = now_ms.saturating_add(self.ttl_ms);
        let session = PendingAuthSession { platform, code_verifier, redirect_uri, expires_at_ms };
        match self.find(state.as_str()) {
            Some(i) => {
                self.remove_at(i);
            },
            None => {},
        }
        let ghost mid = self.sessions@;
        proof {
            lemma_sessions_map(mid);
            assert(!sessions_map(mid).contains_key(state@)) by {
                if sessions_map(mid).contains_key(state@) {
                    let j = choose|j: int| 0 <= j < mid.len() && (#[trigger] mid[j]).0@ == state@;
                    assert(false);
                }
            }
        }
        self.sessions.push((state, session));
        proof {
            let s = self.sessions@;
            assert(s.drop_last() =~= mid);
            assert(sessions_wf(s)) by {
                assert forall|a: int, b: int| 0 <= a < s.len() && 0 <= b < s.len() && a != b implies (#[trigger] s[a]).0@
                    != (#[trigger] s[b]).0@ by {
                    if a < mid.len() && b < mid.len() {
                        assert(s[a] == mid[a] && s[b] == mid[b]);
                    } else if a < mid.len() {
                        assert(s[a] == mid[a]);
                        assert(sessions_map(mid).contains_key(mid[a].0@));
                    } else {
                        assert(s[b] == mid[b]);
                        assert(sessions_map(mid).contains_key(mid[b].0@));
                    }
                }
            }
            assert(self.sessions_view() =~= old(self).sessions_view().insert(state@, session));
        }
    }

    /// Takes the session of `state` out of the store (whatever follows) and checks it: it must
    /// exist, belong to `expected_platform` and not have expired at `now_ms`.
    pub fn take_valid(&mut self, state: &str, expected_platform: Platform, now_ms: u64) -> (r: Result<
        PendingAuthSession,
        AuthError,
    >)
        requires
            old(self).wf(),
        ensures
            final(self).wf(),
            final(self).ttl() == old(self).ttl(),
            final(self).sessions_view() == old(self).sessions_view().remove(state@),
            r == take_outcome(old(self).sessions_view().get(state@), expected_platform, now_ms),
    {
        proof {
            lemma_sessions_map(self.sessions@);
        }
        let session = match self.find(state) {
            Some(i) => self.remove_at(i),
            None => {
                proof {
                    assert(!self.sessions_view().contains_key(state@)) by {
                        if self.sessions_view().contains_key(state@) {
                            let j = choose|j: int| 0 <= j < self.sessions@.len() && (#[trigger] self.sessions@[j]).0@ == state@;
                            assert(false);
                        }
                    }
                    assert(self.sessions_view() =~= old(self).sessions_view().remove(state@));
                }
                return Err(AuthError::UnknownState);
            },
        };
        if session.platform != expected_platform {
            return Err(AuthError::StatePlatformMismatch { expected: expected_platform, actual: session.platform });
        }
        if now_ms > session.expires_at_ms {
            return Err(AuthError::ExpiredState);
        }
        Ok(session)
    }

    /// Drops every session that has expired at `now_ms`.
    pub fn cleanup_expired(&mut self, now_ms: u64)
        requires
            old(self).wf(),
        ensures
            final(self).wf(),
            final(self).ttl() == old(self).ttl(),
            final(self).sessions_view() == unexpired(old(self).sessions_view(), now_ms),
    {
        let ghost old_s = self.sessions@;
        let mut kept: Vec<(String, PendingAuthSession)> = Vec::new();
        let mut i: usize = 0;
        while i < self.sessions.len()
            invariant
                i <= old_s.len(),
                self.sessions@ == old_s,
                kept@ == unexpired_entries(old_s.take(i as int), now_ms),
            decreases old_s.len() - i,
        {
            proof {
                assert(old_s.take(i + 1).drop_last() =~= old_s.take(i as int));
                assert(old_s.take(i + 1).last() == old_s[i as int]);
            }
            if now_ms <= self.sessions[i].1.expires_at_ms {
                let copy = (self.sessions[i].0.clone(), self.sessions[i].1.clone());
                kept.push(copy);
            }
            i = i + 1;
        }
        proof {
            assert(old_s.take(old_s.len() as int) =~= old_s);
            lemma_unexpired_entries(old_s, now_ms);
        }
        self.sessions = kept;
    }
}

/// The entries of `s` still valid at `now_ms`, in order.
pub open spec fn unexpired_entries(s: Seq<(String, PendingAuthSession)>, now_ms: u64) -> Seq<(String, PendingAuthSession)>
    decreases s.len(),
{
    if s.len() == 0 {
        Seq::empty()
    } else if now_ms <= s.last().1.expires_at_ms {
        unexpired_entries(s.drop_last(), now_ms).push(s.last())
    } else {
        unexpired_entries(s.drop_last(), now_ms)
    }
}

proof fn lemma_unexpired_entries(s: Seq<(String, PendingAuthSession)>, now_ms: u64)
    requires
        sessions_wf(s),
    ensures
        sessions_wf(unexpired_entries(s, now_ms)),
        sessions_map(unexpired_entries(s, now_ms)) == unexpired(sessions_map(s), now_ms),
    decreases s.len(),
{
    if s.len() == 0 {
        assert(sessions_map(unexpired_entries(s, now_ms)) =~= unexpired(sessions_map(s), now_ms));
    } else {
        let p = s.drop_last();
        let last = s.last();
        assert(sessions_wf(p)) by {
            assert forall|i: int, j: int| 0 <= i < p.len() && 0 <= j < p.len() && i != j implies (#[trigger] p[i]).0@
                != (#[trigger] p[j]).0@ by {
                assert(p[i] == s[i] && p[j] == s[j]);
            }
        }
        lemma_unexpired_entries(p, now_ms);
        lemma_sessions_map(p);
        let fp = unexpired_entries(p, now_ms);
        lemma_sessions_map(fp);
        assert(!sessions_map(p).contains_key(last.0@)) by {
            if sessions_map(p).contains_key(last.0@) {
                let j = choose|j: int| 0 <= j < p.len() && (#[trigger] p[j]).0@ == last.0@;
                assert(p[j] == s[j]);
                assert(s[s.len() - 1] == last);
            }
        }
        if now_ms <= last.1.expires_at_ms {
            let f = fp.push(last);
            assert(sessions_wf(f)) by {
                assert forall|x: int, y: int| 0 <= x < f.len() && 0 <= y < f.len() && x != y implies (#[trigger] f[x]).0@
                    != (#[trigger] f[y]).0@ by {
                    if x < fp.len() && y < fp.len() {
                        assert(f[x] == fp[x] && f[y] == fp[y]);
                    } else if x < fp.len() {
                        assert(f[x] == fp[x]);
                        assert(sessions_map(fp).contains_key(fp[x].0@));
                    } else {
                        assert(f[y] == fp[y]);
                        assert(sessions_map(fp).contains_key(fp[y].0@));
                    }
                }
            }
            assert(f.drop_last() =~= fp);
            assert(sessions_map(f) == sessions_map(fp).insert(last.0@, last.1));
            assert(sessions_map(f) =~= unexpired(sessions_map(s), now_ms));
        } else {
            assert(sessions_map(fp) =~= unexpired(sessions_map(s), now_ms));
        }
    }
}

/// Taking a session right after starting it, for the same platform and before it expires,
/// gives back exactly what was recorded; any take removes the state for good.
pub proof fn take_after_insert(
    m: Map<Seq<char>, PendingAuthSession>,
    state: Seq<char>,
    session: PendingAuthSession,
    now_ms: u64,
)
    requires
        now_ms <= session.expires_at_ms,
    ensures
        take_outcome(m.insert(state, session).get(state), session.platform, now_ms) == Ok::<
            PendingAuthSession,
            AuthError,
        >(session),
        !m.insert(state, session).remove(state).contains_key(state),
{
}

/// A state can be taken once: a second take finds nothing.
pub proof fn take_is_single_use(m: Map<Seq<char>, PendingAuthSession>, state: Seq<char>, platform: Platform, now_ms: u64)
    ensures
        take_outcome(m.remove(state).get(state), platform, now_ms) == Err::<PendingAuthSession, AuthError>(
            AuthError::UnknownState,
        ),
{
}

} // verus!
