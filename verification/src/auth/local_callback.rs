//! The local HTTP endpoint that receives the OAuth redirect: reading its request, and the text
//! of its response.
use crate::auth::callback::{callback_result_is, url_query_pairs, AuthCallback};
use crate::auth::AuthError;
use crate::text::{byte_len, chars_of, decimal, owned, push_decimal, push_str, str_byte_len, str_eq, string_from_range};
use vstd::prelude::*;

verus! {

/// The reason phrase sent with a status code.
pub open spec fn reason_phrase(status: u16) -> Seq<char> {
    if status == 200 {
        "OK"@
    } else if status == 400 {
        "Bad Request"@
    } else if status == 500 {
        "Internal Server Error"@
    } else {
        "OK"@
    }
}

/// The reason phrase sent with a status code.
pub fn status_reason(status: u16) -> (r: &'static str)
    ensures
        r@ == reason_phrase(status),
{
    match status {
        200 => "OK",
        400 => "Bad Request",
        500 => "Internal Server Error",
        _ => "OK",
    }
}

/// The full HTTP response carrying a callback page, its length counted in bytes.
pub open spec fn callback_response(status: u16, content_type: Seq<char>, body: Seq<char>) -> Seq<char> {
    "HTTP/1.1 "@ + decimal(status as nat) + " "@ + reason_phrase(status) + "\r\nContent-Type: "@ + content_type
        + "\r\nContent-Length: "@ + decimal(byte_len(body)) + "\r\nConnection: close\r\n\r\n"@ + body
}

/// The full HTTP response carrying a callback page.
pub fn callback_response_text(status: u16, content_type: &str, body: &str) -> (r: String)
    ensures
        r@ == callback_response(status, content_type@, body@),
{
    let mut s = owned("HTTP/1.1 ");
    push_decimal(&mut s, status as u64);
    push_str(&mut s, " ");
    push_str(&mut s, status_reason(status));
    push_str(&mut s, "\r\nContent-Type: ");
    push_str(&mut s, content_type);
    push_str(&mut s, "\r\nContent-Length: ");
    let n = str_byte_len(body);
    push_decimal(&mut s, n as u64);
    push_str(&mut s, "\r\nConnection: close\r\n\r\n");
    push_str(&mut s, body);
    s
}

/// Why the request that reached the local callback server gave no usable callback.
#[derive(Debug)]
pub enum CallbackRequestError {
    /// The request has no target (`Invalid callback request`).
    Invalid,
    /// The callback address does not parse as a URL.
    Url,
    /// The provider refused, or a parameter is missing.
    Callback(AuthError),
    /// The callback's state is not the one the sign-in started with.
    StateMismatch,
}

/// The first line of `s` (without its `\n`).
pub open spec fn first_line(s: Seq<char>) -> Seq<char> {
    match crate::text::first_index(s, '\n') {
        Some(i) => s.take(i),
        None => s,
    }
}

/// What the local callback server makes of a request: its target (the second word of its first
/// line) appended to `callback_base` must parse as a URL whose query is a callback, and the
/// callback's state must be `expected_state`.
pub fn callback_from_request(request: &str, callback_base: &str, expected_state: &str) -> (r: Result<
    AuthCallback,
    CallbackRequestError,
>)
    ensures
        match crate::text::second_word(first_line(request@)) {
            None => r matches Err(CallbackRequestError::Invalid),
            Some(path) => match url_query_pairs(callback_base@ + path) {
                None => r matches Err(CallbackRequestError::Url),
                Some(pairs) => match r {
                    Ok(cb) => callback_result_is(Ok(cb), pairs) && cb.state@ == expected_state@,
                    Err(CallbackRequestError::Callback(e)) => callback_result_is(Err(e), pairs),
                    Err(CallbackRequestError::StateMismatch) => exists|cb: AuthCallback|
                        callback_result_is(Ok(cb), pairs) && cb.state@ != expected_state@,
                    _ => false,
                },
            },
        },
{
    let v = chars_of(request);
    let n = v.len();
    let end = match crate::text::find_char(&v, 0, n, '\n') {
        Some(k) => k,
        None => n,
    };
    proof {
        assert(v@.subrange(0, n as int) =~= v@);
        assert(first_line(v@) =~= v@.subrange(0, end as int));
    }
    let (a, b) = crate::text::word_bounds(&v, 0, end);
    let (c, d) = crate::text::word_bounds(&v, b, end);
    if c == end {
        return Err(CallbackRequestError::Invalid);
    }
    let path = string_from_range(&v, c, d);
    let mut url = owned(callback_base);
    push_str(&mut url, path.as_str());
    match AuthCallback::from_url_text(url.as_str()) {
        None => Err(CallbackRequestError::Url),
        Some(Err(e)) => Err(CallbackRequestError::Callback(e)),
        Some(Ok(cb)) => if str_eq(cb.state.as_str(), expected_state) {
            Ok(cb)
        } else {
            Err(CallbackRequestError::StateMismatch)
        },
    }
}

} // verus!
