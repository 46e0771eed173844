//! Opening the sign-in page in the user's browser.
use crate::auth::AuthError;
use crate::text::{owned, str_eq, strings_view};
use vstd::prelude::*;

verus! {

/// Something that opens a URL for the user.
pub trait BrowserOpener {
    /// `r` is an answer the opener may give when asked to open `url`; an opener that does not
    /// say may give any answer.
    open spec fn opens(&self, url: Seq<char>, r: Result<(), AuthError>) -> bool {
        true
    }

    fn open(&self, url: &str) -> (r: Result<(), AuthError>)
        ensures
            self.opens(url@, r),
    ;
}

/// The system's default browser, opened with the platform's own launcher.
#[derive(Debug, Clone, Copy, Default)]
pub struct SystemBrowser;

/// The program to run, and its arguments, to open a URL.
#[derive(Debug, Clone, PartialEq, Eq)]
pub struct BrowserOpenCommand {
    pub program: &'static str,
    pub args: Vec<String>,
}

/// The launcher for `target_os` (as `std::env::consts::OS` names it): `open` on macOS,
/// `rundll32 url.dll,FileProtocolHandler` on Windows (no shell parses the URL there), and
/// `xdg-open` elsewhere; the URL is always passed as one argument.
pub fn browser_open_command_for_target(url: &str, target_os: &str) -> (r: BrowserOpenCommand)
    ensures
        target_os@ == "macos"@ ==> r.program@ == "open"@ && strings_view(r.args@) == seq![url@],
        target_os@ == "windows"@ ==> r.program@ == "rundll32"@ && strings_view(r.args@) == seq![
            "url.dll,FileProtocolHandler"@,
            url@,
        ],
        target_os@ != "macos"@ && target_os@ != "windows"@ ==> r.program@ == "xdg-open"@ && strings_view(r.args@)
            == seq![url@],
{
    proof {
        reveal_strlit("macos");
        reveal_strlit("windows");
        assert("macos"@.len() == 5);
        assert("windows"@.len() == 7);
    }
    if str_eq(target_os, "macos") {
        let mut args: Vec<String> = Vec::new();
        args.push(owned(url));
        assert(strings_view(args@) =~= seq![url@]);
        BrowserOpenCommand { program: "open", args }
    } else if str_eq(target_os, "windows") {
        let mut args: Vec<String> = Vec::new();
        args.push(owned("url.dll,FileProtocolHandler"));
        args.push(owned(url));
        assert(strings_view(args@) =~= seq!["url.dll,FileProtocolHandler"@, url@]);
        BrowserOpenCommand { program: "rundll32", args }
    } else {
        let mut args: Vec<String> = Vec::new();
        args.push(owned(url));
        assert(strings_view(args@) =~= seq![url@]);
        BrowserOpenCommand { program: "xdg-open", args }
    }
}

} // verus!
