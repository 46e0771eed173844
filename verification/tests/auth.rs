use std::cell::RefCell;
use twirchat::auth::browser::BrowserOpener;
use twirchat::auth::callback::{error_page, success_page, AuthCallback};
use twirchat::auth::connect::{kick_account_record, request_failure_message, token_expiry, twitch_account_record};
use twirchat::auth::local_callback::{callback_from_request, callback_response_text, status_reason, CallbackRequestError};
use twirchat::auth::server::AuthService;
use twirchat::auth::{AuthError, AuthProvider, AuthSessionStore, AuthenticatedAccount, DEFAULT_SESSION_TTL_MS};
use twirchat::protocol::types::Platform;

struct TestProvider;

impl AuthProvider for TestProvider {
    fn provider_platform(&self) -> Platform {
        Platform::Twitch
    }

    fn platform(&self) -> Platform {
        Platform::Twitch
    }

    fn display_name(&self) -> &'static str {
        "Twitch"
    }

    fn redirect_uri(&self) -> &str {
        "http://localhost:45821/callback"
    }

    fn build_authorization_url(&self, code_challenge: &str, state: &str) -> Result<String, AuthError> {
        Ok(format!("https://id.example/authorize?challenge={code_challenge}&state={state}"))
    }

    fn exchange_callback(&self, code: &str, code_verifier: &str) -> Result<AuthenticatedAccount, AuthError> {
        if code == "bad" {
            return Err(AuthError::Provider { platform: Platform::Twitch, message: "rejected".to_string() });
        }
        Ok(AuthenticatedAccount {
            id: format!("acc-{code_verifier}"),
            platform: Platform::Twitch,
            platform_user_id: "42".to_string(),
            username: "viewer".to_string(),
            display_name: "Viewer".to_string(),
            avatar_url: None,
            access_token: "token".to_string(),
            refresh_token: None,
            expires_at: None,
            scopes: vec![],
            channel_slug: "viewer".to_string(),
        })
    }
}

struct RecordingBrowser {
    opened: RefCell<Vec<String>>,
}

impl BrowserOpener for RecordingBrowser {
    fn open(&self, url: &str) -> Result<(), AuthError> {
        self.opened.borrow_mut().push(url.to_string());
        Ok(())
    }
}

#[test]
fn sessions_are_single_use_and_expire() {
    let mut store = AuthSessionStore::with_ttl(1000);
    store.insert("s1".to_string(), Platform::Kick, "verifier".to_string(), "uri".to_string(), 10);
    let taken = store.take_valid("s1", Platform::Kick, 500).expect("session should be valid");
    assert_eq!(taken.code_verifier, "verifier");
    assert_eq!(taken.expires_at_ms, 1010);
    assert!(matches!(store.take_valid("s1", Platform::Kick, 500), Err(AuthError::UnknownState)));

    store.insert("s2".to_string(), Platform::Kick, "v".to_string(), "uri".to_string(), 10);
    assert!(matches!(store.take_valid("s2", Platform::Kick, 1011), Err(AuthError::ExpiredState)));

    store.insert("s3".to_string(), Platform::Kick, "v".to_string(), "uri".to_string(), 10);
    assert!(matches!(
        store.take_valid("s3", Platform::Twitch, 20),
        Err(AuthError::StatePlatformMismatch { expected: Platform::Twitch, actual: Platform::Kick })
    ));

    store.insert("s4".to_string(), Platform::Kick, "v".to_string(), "uri".to_string(), 10);
    store.cleanup_expired(5000);
    assert!(matches!(store.take_valid("s4", Platform::Kick, 20), Err(AuthError::UnknownState)));
    assert_eq!(DEFAULT_SESSION_TTL_MS, 600_000);
}

#[test]
fn callback_needs_code_and_state_unless_the_provider_refused() {
    let ok = AuthCallback::from_query_pairs(&vec![
        ("state".to_string(), "s".to_string()),
        ("code".to_string(), "c".to_string()),
        ("code".to_string(), "ignored".to_string()),
    ])
    .expect("callback should parse");
    assert_eq!(ok, AuthCallback { code: "c".to_string(), state: "s".to_string() });
    assert!(matches!(
        AuthCallback::from_query_pairs(&vec![("code".to_string(), "c".to_string())]),
        Err(AuthError::MissingCallbackParam { name: "state" })
    ));
    match AuthCallback::from_query_pairs(&vec![
        ("error".to_string(), "access_denied".to_string()),
        ("error_description".to_string(), "no".to_string()),
    ]) {
        Err(AuthError::ProviderRejected { error, description }) => {
            assert_eq!(error, "access_denied");
            assert_eq!(description.as_deref(), Some("no"));
        }
        other => panic!("unexpected {other:?}"),
    }
    let from_url = AuthCallback::from_url_text("http://localhost:45821/callback?code=a%20b&state=x")
        .expect("url should parse")
        .expect("callback should parse");
    assert_eq!(from_url.code, "a b");
    assert!(AuthCallback::from_url_text("not a url").is_none());
}

#[test]
fn service_runs_a_sign_in() {
    let provider = TestProvider;
    let browser = RecordingBrowser { opened: RefCell::new(vec![]) };
    let mut service = AuthService::new();
    let started = service
        .start(&provider, &browser, "ver".to_string(), "chal".to_string(), "st".to_string(), 100)
        .expect("start should succeed");
    assert_eq!(started.auth_url, "https://id.example/authorize?challenge=chal&state=st");
    assert_eq!(browser.opened.borrow().as_slice(), &[started.auth_url.clone()]);

    let account = service
        .handle_callback(&provider, AuthCallback { code: "ok".to_string(), state: "st".to_string() }, 200)
        .expect("callback should succeed");
    assert_eq!(account.id, "acc-ver");
    assert!(matches!(
        service.handle_callback(&provider, AuthCallback { code: "ok".to_string(), state: "st".to_string() }, 200),
        Err(AuthError::UnknownState)
    ));
}

#[test]
fn callback_pages_and_responses() {
    let page = success_page("Kick");
    assert_eq!(page.status, 200);
    assert!(page.body.contains("Successfully connected to Kick!"));
    let page = error_page("boom");
    assert_eq!(page.status, 500);
    assert!(page.body.contains("<p>boom</p>"));
    assert_eq!(status_reason(400), "Bad Request");
    assert_eq!(status_reason(404), "OK");
    let text = callback_response_text(200, "text/plain", "hi");
    assert!(text.starts_with("HTTP/1.1 200 OK\r\n"));
    assert!(text.ends_with("\r\n\r\nhi"));
    assert_eq!(AuthError::UnknownState.message(), "unknown or expired OAuth state");
}

#[test]
fn connected_accounts_are_recorded() {
    assert_eq!(token_expiry(Some(3600), 1_700_000_000_123), Some(1_700_003_600));
    assert_eq!(token_expiry(Some(u64::MAX), 5000), Some(u64::MAX));
    assert_eq!(token_expiry(None, 5000), None);

    let twitch = twitch_account_record("at", Some("rt"), Some(10), "99", "login", vec!["chat:read".to_string()], Some("  "), None, 2000);
    assert_eq!(twitch.id, "twitch:99");
    assert_eq!(twitch.display_name, "login");
    assert_eq!(twitch.expires_at, Some(12));
    let named = twitch_account_record("at", None, None, "99", "login", vec![], Some("Shown"), Some("img"), 0);
    assert_eq!(named.display_name, "Shown");
    assert_eq!(named.avatar_url.as_deref(), Some("img"));

    let kick = kick_account_record("at", None, None, None, "7", "name", None, 0);
    assert_eq!(kick.id, "kick:7");
    assert_eq!(kick.display_name, "name");
    assert!(kick.scopes.is_empty());

    assert_eq!(
        request_failure_message("Kick token exchange", "400 Bad Request", "  nope \n"),
        "Kick token exchange failed with 400 Bad Request: nope"
    );
}

#[test]
fn callback_requests_are_read_and_checked() {
    let base = "http://localhost:45821";
    let ok = callback_from_request("GET /callback?code=c&state=s HTTP/1.1\r\nHost: x\r\n\r\n", base, "s")
        .expect("callback should be accepted");
    assert_eq!(ok, AuthCallback { code: "c".to_string(), state: "s".to_string() });
    assert!(matches!(
        callback_from_request("GET /callback?code=c&state=other HTTP/1.1\r\n", base, "s"),
        Err(CallbackRequestError::StateMismatch)
    ));
    assert!(matches!(callback_from_request("GET\r\n/x y\r\n", base, "s"), Err(CallbackRequestError::Invalid)));
    assert!(matches!(callback_from_request("", base, "s"), Err(CallbackRequestError::Invalid)));
    assert!(matches!(
        callback_from_request("GET /callback?state=s HTTP/1.1", base, "s"),
        Err(CallbackRequestError::Callback(AuthError::MissingCallbackParam { name: "code" }))
    ));
    assert!(matches!(callback_from_request("GET /x HTTP/1.1", "not a base", "s"), Err(CallbackRequestError::Url)));
}

struct RefusingProvider;

impl AuthProvider for RefusingProvider {
    fn provider_platform(&self) -> Platform {
        Platform::Kick
    }

    fn platform(&self) -> Platform {
        Platform::Kick
    }

    fn display_name(&self) -> &'static str {
        "Kick"
    }

    fn redirect_uri(&self) -> &str {
        "http://localhost:45821/callback"
    }

    fn build_authorization_url(&self, _code_challenge: &str, _state: &str) -> Result<String, AuthError> {
        Err(AuthError::Provider { platform: Platform::Kick, message: "no client id".to_string() })
    }

    fn exchange_callback(&self, _code: &str, _code_verifier: &str) -> Result<AuthenticatedAccount, AuthError> {
        Err(AuthError::UnknownState)
    }
}

struct BrokenBrowser;

impl BrowserOpener for BrokenBrowser {
    fn open(&self, url: &str) -> Result<(), AuthError> {
        Err(AuthError::BrowserOpenFailed { url: url.to_string(), message: "no browser".to_string() })
    }
}

#[test]
fn failed_starts_store_a_session_only_after_the_provider() {
    let browser = RecordingBrowser { opened: RefCell::new(vec![]) };
    let mut service = AuthService::new();
    let refused = service.start(&RefusingProvider, &browser, "v".to_string(), "c".to_string(), "s1".to_string(), 1);
    assert!(matches!(refused, Err(AuthError::Provider { .. })));
    assert!(browser.opened.borrow().is_empty());
    assert!(matches!(
        service.handle_callback(&TestProvider, AuthCallback { code: "ok".to_string(), state: "s1".to_string() }, 2),
        Err(AuthError::UnknownState)
    ));

    let failed = service.start(&TestProvider, &BrokenBrowser, "v2".to_string(), "c".to_string(), "s2".to_string(), 1);
    assert!(matches!(failed, Err(AuthError::BrowserOpenFailed { .. })));
    let account = service
        .handle_callback(&TestProvider, AuthCallback { code: "ok".to_string(), state: "s2".to_string() }, 2)
        .expect("the session stays after a browser error");
    assert_eq!(account.id, "acc-v2");
}
