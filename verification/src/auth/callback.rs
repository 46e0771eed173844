//! The OAuth callback: reading `code` and `state` from its query, and the pages shown after it.
use crate::auth::AuthError;
use crate::platforms::twitch::client::pairs_view;
use crate::text::{opt_chars, owned, push_str, str_eq};
use vstd::prelude::*;

verus! {

/// The `code` and `state` of an OAuth callback.
#[derive(Debug, Clone, PartialEq, Eq)]
pub struct AuthCallback {
    pub code: String,
    pub state: String,
}

/// The value of the first pair whose key is `key`.
pub open spec fn first_value(pairs: Seq<(Seq<char>, Seq<char>)>, key: Seq<char>) -> Option<Seq<char>>
    decreases pairs.len(),
{
    if pairs.len() == 0 {
        None
    } else if pairs[0].0 == key {
        Some(pairs[0].1)
    } else {
        first_value(pairs.drop_first(), key)
    }
}

/// `r` is what the query pairs of a callback give: the provider's refusal when there is an
/// `error` (with its `error_description`, if any), else the `code` and `state`, each of which
/// must be present and non-empty (`code` is checked first).
pub open spec fn callback_result_is(r: Result<AuthCallback, AuthError>, pairs: Seq<(Seq<char>, Seq<char>)>) -> bool {
    match first_value(pairs, "error"@) {
        Some(e) => match r {
            Err(AuthError::ProviderRejected { error, description }) => error@ == e && opt_chars(description)
                == first_value(pairs, "error_description"@),
            _ => false,
        },
        None => if !(first_value(pairs, "code"@) matches Some(c) && c.len() > 0) {
            r == Err::<AuthCallback, AuthError>(AuthError::MissingCallbackParam { name: "code" })
        } else if !(first_value(pairs, "state"@) matches Some(st) && st.len() > 0) {
            r == Err::<AuthCallback, AuthError>(AuthError::MissingCallbackParam { name: "state" })
        } else {
            r matches Ok(cb) && Some(cb.code@) == first_value(pairs, "code"@) && Some(cb.state@) == first_value(
                pairs,
                "state"@,
            )
        },
    }
}

/// The value of the first pair whose key is `key`.
fn find_value(pairs: &Vec<(String, String)>, key: &str) -> (r: Option<String>)
    ensures
        opt_chars(r) == first_value(pairs_view(pairs@), key@),
{
    let mut i: usize = 0;
    proof {
        assert(pairs_view(pairs@).skip(0) =~= pairs_view(pairs@));
    }
    while i < pairs.len()
        invariant
            i <= pairs@.len(),
            first_value(pairs_view(pairs@), key@) == first_value(pairs_view(pairs@).skip(i as int), key@),
        decreases pairs@.len() - i,
    {
        proof {
            assert(pairs_view(pairs@).skip(i as int).drop_first() =~= pairs_view(pairs@).skip(i + 1));
            assert(pairs_view(pairs@).skip(i as int)[0] == (pairs@[i as int].0@, pairs@[i as int].1@));
        }
        if str_eq(pairs[i].0.as_str(), key) {
            return Some(pairs[i].1.clone());
        }
        i = i + 1;
    }
    None
}

/// A required query parameter: present and non-empty.
fn query_param(pairs: &Vec<(String, String)>, name: &'static str) -> (r: Result<String, AuthError>)
    ensures
        match first_value(pairs_view(pairs@), name@) {
            Some(v) if v.len() > 0 => r matches Ok(s) && s@ == v,
            _ => r == Err::<String, AuthError>(AuthError::MissingCallbackParam { name }),
        },
{
    match find_value(pairs, name) {
        Some(v) => if v.as_str().is_empty() {
            Err(AuthError::MissingCallbackParam { name })
        } else {
            Ok(v)
        },
        None => Err(AuthError::MissingCallbackParam { name }),
    }
}

impl AuthCallback {
    /// Reads a callback from the decoded query pairs of its URL.
    pub fn from_query_pairs(pairs: &Vec<(String, String)>) -> (r: Result<AuthCallback, AuthError>)
        ensures
            callback_result_is(r, pairs_view(pairs@)),
    {
        match find_value(pairs, "error") {
            Some(error) => {
                let description = find_value(pairs, "error_description");
                return Err(AuthError::ProviderRejected { error, description });
            },
            None => {},
        }
        let code = match query_param(pairs, "code") {
            Ok(c) => c,
            Err(e) => return Err(e),
        };
        let state = match query_param(pairs, "state") {
            Ok(s) => s,
            Err(e) => return Err(e),
        };
        Ok(AuthCallback { code, state })
    }

    /// Reads a callback from its URL; `None` when the URL does not parse.
    pub fn from_url_text(url: &str) -> (r: Option<Result<AuthCallback, AuthError>>)
        ensures
            match url_query_pairs(url@) {
                Some(pairs) => r matches Some(res) && callback_result_is(res, pairs),
                None => r is None,
            },
    {
        match parse_query_pairs(url) {
            Some(pairs) => Some(AuthCallback::from_query_pairs(&pairs)),
            None => None,
        }
    }
}

/// The decoded query pairs of a URL, as the `url` crate parses it; `None` when it does not
/// parse.
pub uninterp spec fn url_query_pairs(url: Seq<char>) -> Option<Seq<(Seq<char>, Seq<char>)>>;

/// Parses `url` with `url::Url::parse` and collects its `query_pairs()` as owned strings. The
/// result is named by `url_query_pairs`: a function of the text alone.
#[verifier::external_body]
fn parse_query_pairs(url: &str) -> (r: Option<Vec<(String, String)>>)
    ensures
        match r {
            Some(v) => url_query_pairs(url@) == Some(pairs_view(v@)),
            None => url_query_pairs(url@) is None,
        },
{
    let parsed = url::Url::parse(url).ok()?;
    Some(parsed.query_pairs().map(|(k, v)| (k.into_owned(), v.into_owned())).collect())
}

/// A page served to the browser once the callback is handled.
#[derive(Debug, Clone, PartialEq, Eq)]
pub struct CallbackPage {
    pub status: u16,
    pub content_type: &'static str,
    pub body: String,
}

/// The content type of the callback pages.
pub open spec fn html_content_type() -> Seq<char> {
    "text/html; charset=utf-8"@
}

/// The body of the page telling the user that `platform_name` is connected.
pub open spec fn success_body(platform_name: Seq<char>) -> Seq<char> {
    "<!DOCTYPE html><html><head><title>Authentication Successful</title></head><body><h1>Successfully connected to "@
        + platform_name + "!</h1><p>You can close this window and return to TwirChat.</p></body></html>"@
}

/// The body of the page telling the user that sign-in failed with `message`.
pub open spec fn error_body(message: Seq<char>) -> Seq<char> {
    "<!DOCTYPE html><html><head><title>Auth Error</title></head><body><h1>Authentication Error</h1><p>"@ + message
        + "</p><p>You can close this window.</p></body></html>"@
}

/// The page telling the user that `platform_name` is connected.
pub fn success_page(platform_name: &str) -> (r: CallbackPage)
    ensures
        r.status == 200,
        r.content_type@ == html_content_type(),
        r.body@ == success_body(platform_name@),
{
    let mut body = owned(
        "<!DOCTYPE html><html><head><title>Authentication Successful</title></head><body><h1>Successfully connected to ",
    );
    push_str(&mut body, platform_name);
    push_str(&mut body, "!</h1><p>You can close this window and return to TwirChat.</p></body></html>");
    CallbackPage { status: 200, content_type: "text/html; charset=utf-8", body }
}

/// The page telling the user that sign-in failed with `message`.
pub fn error_page(message: &str) -> (r: CallbackPage)
    ensures
        r.status == 500,
        r.content_type@ == html_content_type(),
        r.body@ == error_body(message@),
{
    let mut body = owned(
        "<!DOCTYPE html><html><head><title>Auth Error</title></head><body><h1>Authentication Error</h1><p>",
    );
    push_str(&mut body, message);
    push_str(&mut body, "</p><p>You can close this window.</p></body></html>");
    CallbackPage { status: 500, content_type: "text/html; charset=utf-8", body }
}

} // verus!
