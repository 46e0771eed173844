//! The sign-in service: starting an OAuth flow and handling its callback.
use crate::auth::browser::BrowserOpener;
use crate::auth::callback::{error_body, error_page, success_body, success_page, AuthCallback, CallbackPage};
use crate::auth::{
    auth_error_text, saturating_add, take_outcome, unexpired, AuthError, AuthProvider, AuthSessionStore,
    AuthenticatedAccount, PendingAuthSession,
};
use crate::protocol::rpc::{AuthErrorPayload, AuthSuccessPayload, AuthUrlPayload};
use crate::protocol::types::{Account, Platform};
use crate::text::{opt_chars, owned, push_str, str_eq, strings_view};
use vstd::prelude::*;

verus! {

/// A started sign-in: the URL the user was sent to and what it was made from.
#[derive(Debug, Clone, PartialEq)]
pub struct AuthStartOutcome {
    pub platform: Platform,
    pub state: String,
    pub code_challenge: String,
    pub auth_url: String,
    pub event: AuthUrlPayload,
}

/// A finished sign-in: the stored account and the page to show.
#[derive(Debug, Clone, PartialEq)]
pub struct AuthSuccessOutcome {
    pub platform: Platform,
    pub account: Account,
    pub channel_slug: String,
    pub event: AuthSuccessPayload,
    pub page: CallbackPage,
}

/// A failed sign-in: the event to report and the page to show.
#[derive(Debug, Clone, PartialEq)]
pub struct AuthErrorOutcome {
    pub platform: Platform,
    pub event: AuthErrorPayload,
    pub page: CallbackPage,
}

/// What a start gives, as [`AuthService::start`] describes it: for some answer of the provider
/// to the challenge and state, its error with no session stored; or the session stored under
/// the state (the provider's platform, the verifier, the expiry) and, for some
/// answer of the browser to the URL, its error, or the outcome naming the URL.
pub open spec fn started<P: AuthProvider, B: BrowserOpener>(
    provider: &P,
    browser: &B,
    code_verifier: String,
    code_challenge: Seq<char>,
    state: Seq<char>,
    now_ms: u64,
    ttl: u64,
    before: Map<Seq<char>, PendingAuthSession>,
    after: Map<Seq<char>, PendingAuthSession>,
    r: Result<AuthStartOutcome, AuthError>,
) -> bool {
    exists|answer: Result<Seq<char>, AuthError>|
        #[trigger] provider.gives_authorization_url(code_challenge, state, answer) && match answer {
            Err(e) => r == Err::<AuthStartOutcome, AuthError>(e) && after == unexpired(before, now_ms),
            Ok(url) => {
                &&& after.contains_key(state)
                &&& after == unexpired(before, now_ms).insert(state, after[state])
                &&& after[state].platform == provider.provider_platform()
                &&& after[state].code_verifier == code_verifier
                &&& after[state].expires_at_ms == saturating_add(now_ms, ttl)
                &&& exists|opened: Result<(), AuthError>|
                    #[trigger] browser.opens(url, opened) && match opened {
                        Err(e) => r == Err::<AuthStartOutcome, AuthError>(e),
                        Ok(_) => r matches Ok(o) && o.platform == provider.provider_platform() && o.state@ == state
                            && o.code_challenge@ == code_challenge && o.auth_url@ == url && o.event.platform == o.platform
                            && o.event.url@ == url,
                    }
            },
        }
}

/// Starts sign-ins and checks their callbacks against the sessions it started.
pub struct AuthService {
    sessions: AuthSessionStore,
}

impl AuthService {
    /// The service's internal invariant.
    pub closed spec fn wf(&self) -> bool {
        self.sessions.wf()
    }

    /// The pending sign-ins by state.
    pub closed spec fn sessions_view(&self) -> Map<Seq<char>, PendingAuthSession> {
        self.sessions.sessions_view()
    }

    /// How long a started sign-in stays valid.
    pub closed spec fn ttl(&self) -> u64 {
        self.sessions.ttl()
    }

    /// A service with no pending sign-in, whose sign-ins last ten minutes.
    pub fn new() -> (r: Self)
        ensures
            r.wf(),
            r.sessions_view() == Map::<Seq<char>, PendingAuthSession>::empty(),
            r.ttl() == crate::auth::DEFAULT_SESSION_TTL_MS,
    {
        AuthService { sessions: AuthSessionStore::new() }
    }

    /// A service with no pending sign-in, whose sign-ins last `ttl_ms`.
    pub fn with_session_ttl(ttl_ms: u64) -> (r: Self)
        ensures
            r.wf(),
            r.sessions_view() == Map::<Seq<char>, PendingAuthSession>::empty(),
            r.ttl() == ttl_ms,
    {
        AuthService { sessions: AuthSessionStore::with_ttl(ttl_ms) }
    }

    /// Starts a sign-in at `now_ms` with a fresh PKCE pair and state: drops expired sessions,
    /// asks the provider for the authorization URL of `code_challenge` and `state` (its error
    /// is handed back, and no session is stored), records the session under `state`, and
    /// opens the URL in the browser (its error is handed back, and the session stays).
    pub fn start<P: AuthProvider, B: BrowserOpener>(
        &mut self,
        provider: &P,
        browser: &B,
        code_verifier: String,
        code_challenge: String,
        state: String,
        now_ms: u64,
    ) -> (r: Result<AuthStartOutcome, AuthError>)
        requires
            old(self).wf(),
        ensures
            final(self).wf(),
            final(self).ttl() == old(self).ttl(),
            final(self).sessions_view().remove(state@) == unexpired(old(self).sessions_view(), now_ms).remove(
                state@,
            ),
            started(provider, browser, code_verifier, code_challenge@, state@, now_ms, old(self).ttl(), old(self).sessions_view(), final(self).sessions_view(), r),
    {
        self.sessions.cleanup_expired(now_ms);
        let ghost code_verifier_view = code_verifier;
        let ghost code_challenge_view = code_challenge@;
        let ghost state_view = state@;
        let platform = provider.platform();
        let built = provider.build_authorization_url(code_challenge.as_str(), state.as_str());
        let ghost answer = crate::auth::url_answer(built);
        proof {
            assert(provider.gives_authorization_url(code_challenge@, state@, answer));
        }
        let auth_url = match built {
            Ok(u) => u,
            Err(e) => {
                let result = Err(e);
                proof {
                    assert(answer == Err::<Seq<char>, AuthError>(e));
                    assert(started(provider, browser, code_verifier, code_challenge@, state@, now_ms, old(self).ttl(), old(self).sessions_view(), self.sessions_view(), result));
                }
                return result;
            },
        };
        let redirect_uri = owned(provider.redirect_uri());
        let state_copy = state.clone();
        self.sessions.insert(state_copy, platform, code_verifier, redirect_uri, now_ms);
        let opened = browser.open(auth_url.as_str());
        let ghost auth_url_view = auth_url@;
        proof {
            assert(browser.opens(auth_url@, opened));
            assert(self.sessions_view() =~= unexpired(old(self).sessions_view(), now_ms).insert(
                state@,
                self.sessions_view()[state@],
            ));
        }
        proof {
            assert(answer == Ok::<Seq<char>, AuthError>(auth_url@));
            assert(self.sessions_view().contains_key(state@));
            let sv = self.sessions_view()[state@];
            assert(sv.platform == provider.provider_platform());
            assert(sv.expires_at_ms == saturating_add(now_ms, old(self).ttl()));
        }
        let ghost opened_answer = opened;
        match opened {
            Ok(()) => {
                proof {
                    assert(opened_answer is Ok);
                }
            },
            Err(e) => {
                let result = Err(e);
                proof {
                    assert(opened_answer == Err::<(), AuthError>(e));
                    assert(browser.opens(auth_url_view, opened_answer));
                    assert(answer->Ok_0 == auth_url_view);
                    assert(browser.opens(answer->Ok_0, opened_answer));
                    assert(started(provider, browser, code_verifier_view, code_challenge@, state@, now_ms, old(self).ttl(), old(self).sessions_view(), self.sessions_view(), result));
                }
                return result;
            },
        }
        let url_copy = auth_url.clone();
        let r = AuthStartOutcome {
            platform,
            state,
            code_challenge,
            auth_url,
            event: AuthUrlPayload { platform, url: url_copy },
        };
        proof {
            assert(r.auth_url@ == auth_url_view);
            assert(browser.opens(auth_url_view, opened_answer));
        }
        let result = Ok(r);
        proof {
            let after = self.sessions_view();
            assert(provider.gives_authorization_url(code_challenge_view, state_view, answer));
            assert(answer == Ok::<Seq<char>, AuthError>(auth_url_view));
            assert(answer->Ok_0 == auth_url_view);
            assert(browser.opens(answer->Ok_0, opened_answer));
            assert(started(provider, browser, code_verifier_view, code_challenge_view, state_view, now_ms, old(self).ttl(), old(self).sessions_view(), self.sessions_view(), result));
        }
        result
    }

    /// Checks a callback at `now_ms` against its session, which is used up either way: an
    /// unknown state, a session of another platform, or an expired one is refused
    /// ([`take_outcome`]); else the callback's code and the session's PKCE verifier are
    /// exchanged with the provider for the account, and its answer is handed back.
    pub fn handle_callback<P: AuthProvider>(&mut self, provider: &P, callback: AuthCallback, now_ms: u64) -> (r: Result<
        AuthenticatedAccount,
        AuthError,
    >)
        requires
            old(self).wf(),
        ensures
            final(self).wf(),
            final(self).ttl() == old(self).ttl(),
            final(self).sessions_view() == old(self).sessions_view().remove(callback.state@),
            match take_outcome(old(self).sessions_view().get(callback.state@), provider.provider_platform(), now_ms) {
                Err(e) => r == Err::<AuthenticatedAccount, AuthError>(e),
                Ok(session) => provider.gives_exchange(callback.code@, session.code_verifier@, r),
            },
    {
        let platform = provider.platform();
        let session = match self.sessions.take_valid(callback.state.as_str(), platform, now_ms) {
            Ok(s) => s,
            Err(e) => return Err(e),
        };
        provider.exchange_callback(callback.code.as_str(), session.code_verifier.as_str())
    }
}

/// `a` holds the same values as `b`.
pub open spec fn same_account(a: Account, b: Account) -> bool {
    &&& a.id@ == b.id@
    &&& a.platform == b.platform
    &&& a.platform_user_id@ == b.platform_user_id@
    &&& a.username@ == b.username@
    &&& a.display_name@ == b.display_name@
    &&& opt_chars(a.avatar_url) == opt_chars(b.avatar_url)
    &&& strings_view(a.scopes@) == strings_view(b.scopes@)
    &&& a.created_at == b.created_at
    &&& a.updated_at == b.updated_at
}

/// A copy of a stored account.
fn copy_account(a: &Account) -> (r: Account)
    ensures
        same_account(r, *a),
{
    let mut scopes: Vec<String> = Vec::new();
    let mut i: usize = 0;
    while i < a.scopes.len()
        invariant
            i <= a.scopes@.len(),
            strings_view(scopes@) == strings_view(a.scopes@).take(i as int),
        decreases a.scopes@.len() - i,
    {
        let ghost before = scopes@;
        scopes.push(a.scopes[i].clone());
        proof {
            assert(strings_view(scopes@) =~= strings_view(before).push(a.scopes@[i as int]@));
            assert(strings_view(a.scopes@).take(i + 1) =~= strings_view(a.scopes@).take(i as int).push(
                a.scopes@[i as int]@,
            ));
        }
        i = i + 1;
    }
    proof {
        assert(strings_view(a.scopes@).take(a.scopes@.len() as int) =~= strings_view(a.scopes@));
    }
    let avatar_url = match &a.avatar_url {
        Some(u) => Some(u.clone()),
        None => None,
    };
    Account {
        id: a.id.clone(),
        platform: a.platform,
        platform_user_id: a.platform_user_id.clone(),
        username: a.username.clone(),
        display_name: a.display_name.clone(),
        avatar_url,
        scopes,
        created_at: a.created_at,
        updated_at: a.updated_at,
    }
}

/// The outcome of a callback once the account was stored: the first stored account whose id
/// is the signed-in account's, with its event and the success page of `provider_display_name`;
/// an invariant failure when the store does not hold it.
pub fn complete_callback(account: &AuthenticatedAccount, stored: &Vec<Account>, provider_display_name: &str) -> (r: Result<
    AuthSuccessOutcome,
    AuthError,
>)
    ensures
        match r {
            Ok(o) => {
                &&& exists|i: int|
                    0 <= i < stored@.len() && (#[trigger] stored@[i]).id@ == account.id@ && same_account(o.account, stored@[i])
                        && forall|j: int| 0 <= j < i ==> (#[trigger] stored@[j]).id@ != account.id@
                &&& o.platform == o.account.platform
                &&& o.channel_slug@ == account.channel_slug@
                &&& o.event.platform == o.account.platform
                &&& o.event.username@ == o.account.username@
                &&& o.event.display_name@ == o.account.display_name@
                &&& o.page.status == 200
                &&& o.page.body@ == success_body(provider_display_name@)
            },
            Err(e) => {
                &&& forall|i: int| 0 <= i < stored@.len() ==> (#[trigger] stored@[i]).id@ != account.id@
                &&& e matches AuthError::StorageInvariant { message } && message@ == "account "@ + account.id@
                    + " was not persisted"@
            },
        },
{
    let mut i: usize = 0;
    while i < stored.len()
        invariant
            i <= stored@.len(),
            forall|j: int| 0 <= j < i ==> (#[trigger] stored@[j]).id@ != account.id@,
        decreases stored@.len() - i,
    {
        if str_eq(stored[i].id.as_str(), account.id.as_str()) {
            let persisted = copy_account(&stored[i]);
            let page = success_page(provider_display_name);
            let event = AuthSuccessPayload {
                platform: persisted.platform,
                username: persisted.username.clone(),
                display_name: persisted.display_name.clone(),
            };
            let o = AuthSuccessOutcome {
                platform: persisted.platform,
                channel_slug: account.channel_slug.clone(),
                event,
                account: persisted,
                page,
            };
            assert(stored@[i as int].id@ == account.id@);
            return Ok(o);
        }
        i = i + 1;
    }
    let mut message = owned("account ");
    push_str(&mut message, account.id.as_str());
    push_str(&mut message, " was not persisted");
    Err(AuthError::StorageInvariant { message })
}

/// The outcome reported when a sign-in with `platform` failed with `error`: the error's text
/// in the event and on the error page.
pub fn error_outcome(platform: Platform, error: &AuthError) -> (r: AuthErrorOutcome)
    ensures
        r.platform == platform,
        r.event.platform == platform,
        r.event.error@ == auth_error_text(*error),
        r.page.status == 500,
        r.page.body@ == error_body(auth_error_text(*error)),
{
    let text = error.message();
    let page = error_page(text.as_str());
    AuthErrorOutcome { platform, event: AuthErrorPayload { platform, error: text }, page }
}


} // verus!
