//! The overlay server's logic: configuration, asset paths, HTTP request handling and the
//! WebSocket handshake and framing.
use crate::text::{
    ascii_lower_seq, chars_of, decimal, first_word, opt_chars, owned, push_decimal, push_str, rest_after_word,
    second_word, split_all, str_eq, string_from_range, to_ascii_lowercase, trim, trimmed, word_bounds,
};
use vstd::prelude::*;

verus! {

/// Directories of the overlay page's files and of its fonts, where found.
#[derive(Debug, Clone, PartialEq, Eq)]
pub struct OverlayRuntimePaths {
    pub fonts_dir: Option<String>,
    pub overlay_dir: Option<String>,
}

/// Where the overlay server listens and what it serves.
#[derive(Debug, Clone)]
pub struct OverlayServerConfig {
    pub address: String,
    pub runtime_paths: OverlayRuntimePaths,
}

impl OverlayServerConfig {
    /// Listening on `127.0.0.1:port`, serving from `runtime_paths`.
    pub fn new(port: u16, runtime_paths: OverlayRuntimePaths) -> (r: Self)
        ensures
            r.address@ == "127.0.0.1:"@ + decimal(port as nat),
            r.runtime_paths == runtime_paths,
    {
        let mut address = owned("127.0.0.1:");
        push_decimal(&mut address, port as u64);
        OverlayServerConfig { address, runtime_paths }
    }

    /// The same configuration serving from `runtime_paths`.
    pub fn with_runtime_paths(self, runtime_paths: OverlayRuntimePaths) -> (r: Self)
        ensures
            r.address == self.address,
            r.runtime_paths == runtime_paths,
    {
        OverlayServerConfig { address: self.address, runtime_paths }
    }
}

/// `PathBuf::push` of a relative part: a `/` is put between unless the path is empty or
/// already ends with one.
pub open spec fn path_push(base: Seq<char>, part: Seq<char>) -> Seq<char> {
    if base.len() == 0 || base.last() == '/' {
        base + part
    } else {
        base + "/"@ + part
    }
}

/// `base` joined with each of `parts` in turn.
pub open spec fn path_join_all(base: Seq<char>, parts: Seq<Seq<char>>) -> Seq<char>
    decreases parts.len(),
{
    if parts.len() == 0 {
        base
    } else {
        path_push(path_join_all(base, parts.drop_last()), parts.last())
    }
}

/// Where the overlay page may be, in the order tried: next to the executable (the views and
/// the dist layouts), then in the source tree.
pub open spec fn overlay_candidates(base: Seq<char>, manifest: Seq<char>, workspace: Option<Seq<char>>) -> Seq<Seq<char>> {
    let c = seq![
        path_join_all(base, seq![".."@, "views"@, "overlay"@]),
        path_join_all(base, seq![".."@, "dist"@, "overlay"@]),
        path_join_all(manifest, seq![".."@, "desktop"@, "dist"@, "overlay"@]),
    ];
    match workspace {
        Some(w) => c.push(path_join_all(w, seq!["packages"@, "desktop"@, "dist"@, "overlay"@])),
        None => c,
    }
}

/// Where the fonts may be, in the order tried.
pub open spec fn font_candidates(base: Seq<char>, manifest: Seq<char>, workspace: Option<Seq<char>>) -> Seq<Seq<char>> {
    let c = seq![
        path_join_all(base, seq![".."@, "views"@, "fonts"@]),
        path_join_all(base, seq![".."@, "public"@, "fonts"@]),
        path_join_all(manifest, seq![".."@, "desktop"@, "public"@, "fonts"@]),
    ];
    match workspace {
        Some(w) => c.push(path_join_all(w, seq!["packages"@, "desktop"@, "public"@, "fonts"@])),
        None => c,
    }
}

/// `base` with the relative `part` pushed on.
fn push_path(base: &mut String, part: &str)
    ensures
        final(base)@ == path_push(old(base)@, part@),
{
    let v = chars_of(base.as_str());
    if v.len() > 0 && v[v.len() - 1] != '/' {
        push_str(base, "/");
    }
    push_str(base, part);
}

/// `base` joined with three parts.
fn join3(base: &str, a: &str, b: &str, c: &str) -> (r: String)
    ensures
        r@ == path_join_all(base@, seq![a@, b@, c@]),
{
    let mut r = owned(base);
    push_path(&mut r, a);
    proof {
        assert(seq![a@].drop_last() =~= Seq::<Seq<char>>::empty());
        assert(path_join_all(base@, Seq::<Seq<char>>::empty()) == base@);
        assert(seq![a@].last() == a@);
        assert(r@ == path_join_all(base@, seq![a@]));
    }
    push_path(&mut r, b);
    proof {
        assert(seq![a@, b@].drop_last() =~= seq![a@]);
        assert(r@ == path_join_all(base@, seq![a@, b@]));
    }
    push_path(&mut r, c);
    proof {
        assert(seq![a@, b@, c@].drop_last() =~= seq![a@, b@]);
    }
    r
}

/// `base` joined with four parts.
fn join4(base: &str, a: &str, b: &str, c: &str, d: &str) -> (r: String)
    ensures
        r@ == path_join_all(base@, seq![a@, b@, c@, d@]),
{
    let mut r = join3(base, a, b, c);
    push_path(&mut r, d);
    proof {
        assert(seq![a@, b@, c@, d@].drop_last() =~= seq![a@, b@, c@]);
    }
    r
}

/// The places tried for the overlay page.
pub fn overlay_dir_candidates(base_dir: &str, manifest_dir: &str, workspace_dir: Option<&str>) -> (r: Vec<String>)
    ensures
        Seq::new(r@.len(), |i: int| r@[i]@) == overlay_candidates(
            base_dir@,
            manifest_dir@,
            match workspace_dir {
                Some(w) => Some(w@),
                None => None,
            },
        ),
{
    let mut r: Vec<String> = Vec::new();
    r.push(join3(base_dir, "..", "views", "overlay"));
    r.push(join3(base_dir, "..", "dist", "overlay"));
    r.push(join4(manifest_dir, "..", "desktop", "dist", "overlay"));
    match workspace_dir {
        Some(w) => r.push(join4(w, "packages", "desktop", "dist", "overlay")),
        None => {},
    }
    proof {
        let ws = match workspace_dir {
            Some(w) => Some(w@),
            None => None::<Seq<char>>,
        };
        assert(Seq::new(r@.len(), |i: int| r@[i]@) =~= overlay_candidates(base_dir@, manifest_dir@, ws));
    }
    r
}

/// The places tried for the fonts.
pub fn font_dir_candidates(base_dir: &str, manifest_dir: &str, workspace_dir: Option<&str>) -> (r: Vec<String>)
    ensures
        Seq::new(r@.len(), |i: int| r@[i]@) == font_candidates(
            base_dir@,
            manifest_dir@,
            match workspace_dir {
                Some(w) => Some(w@),
                None => None,
            },
        ),
{
    let mut r: Vec<String> = Vec::new();
    r.push(join3(base_dir, "..", "views", "fonts"));
    r.push(join3(base_dir, "..", "public", "fonts"));
    r.push(join4(manifest_dir, "..", "desktop", "public", "fonts"));
    match workspace_dir {
        Some(w) => r.push(join4(w, "packages", "desktop", "public", "fonts")),
        None => {},
    }
    proof {
        let ws = match workspace_dir {
            Some(w) => Some(w@),
            None => None::<Seq<char>>,
        };
        assert(Seq::new(r@.len(), |i: int| r@[i]@) =~= font_candidates(base_dir@, manifest_dir@, ws));
    }
    r
}

/// `f` was asked about the path `c` and answered `b`.
pub open spec fn answered<F: Fn(&str) -> bool>(f: F, c: Seq<char>, b: bool) -> bool {
    exists|x: &str| x@ == c && #[trigger] call_ensures(f, (x,), b)
}

/// `choice` is the first of `candidates` for which `path_exists` answered yes, every earlier one
/// having been answered no; or none at all, every candidate having been answered no.
pub open spec fn first_accepted<F: Fn(&str) -> bool>(choice: Option<String>, candidates: Seq<Seq<char>>, path_exists: F) -> bool {
    match choice {
        Some(p) => exists|k: int|
            0 <= k < candidates.len() && p@ == candidates[k] && answered(path_exists, candidates[k], true) && forall|j: int|
                0 <= j < k ==> answered(path_exists, #[trigger] candidates[j], false),
        None => forall|j: int| 0 <= j < candidates.len() ==> answered(path_exists, #[trigger] candidates[j], false),
    }
}

/// The first of `candidates` that `path_exists` accepts, asking in order.
fn first_existing<F: Fn(&str) -> bool>(candidates: &Vec<String>, path_exists: &F) -> (r: Option<String>)
    requires
        forall|x: &str| #[trigger] path_exists.requires((x,)),
    ensures
        first_accepted(r, Seq::new(candidates@.len(), |i: int| candidates@[i]@), *path_exists),
{
    let ghost cs = Seq::new(candidates@.len(), |i: int| candidates@[i]@);
    let mut i: usize = 0;
    while i < candidates.len()
        invariant
            i <= candidates@.len(),
            cs == Seq::new(candidates@.len(), |i: int| candidates@[i]@),
            forall|x: &str| #[trigger] path_exists.requires((x,)),
            forall|j: int| 0 <= j < i ==> answered(*path_exists, #[trigger] cs[j], false),
        decreases candidates@.len() - i,
    {
        let c = candidates[i].as_str();
        let found = path_exists(c);
        proof {
            assert(cs[i as int] == c@);
            assert(call_ensures(*path_exists, (c,), found));
        }
        if found {
            let r = candidates[i].clone();
            proof {
                assert(answered(*path_exists, cs[i as int], true));
            }
            return Some(r);
        }
        proof {
            assert(answered(*path_exists, cs[i as int], false));
        }
        i = i + 1;
    }
    None
}

/// Finds the overlay page and the fonts: for each, the first candidate place (see
/// `overlay_candidates` and `font_candidates`) that `path_exists` accepts. `manifest_dir` is the
/// crate's source directory and `workspace_dir` the repository root above it, if any.
pub fn resolve_overlay_runtime_paths_with<F: Fn(&str) -> bool>(
    base_dir: &str,
    manifest_dir: &str,
    workspace_dir: Option<&str>,
    path_exists: F,
) -> (r: OverlayRuntimePaths)
    requires
        forall|x: &str| #[trigger] path_exists.requires((x,)),
    ensures
        first_accepted(
            r.overlay_dir,
            overlay_candidates(
                base_dir@,
                manifest_dir@,
                match workspace_dir {
                    Some(w) => Some(w@),
                    None => None,
                },
            ),
            path_exists,
        ),
        first_accepted(
            r.fonts_dir,
            font_candidates(
                base_dir@,
                manifest_dir@,
                match workspace_dir {
                    Some(w) => Some(w@),
                    None => None,
                },
            ),
            path_exists,
        ),
{
    let overlay = overlay_dir_candidates(base_dir, manifest_dir, workspace_dir);
    let fonts = font_dir_candidates(base_dir, manifest_dir, workspace_dir);
    let overlay_dir = first_existing(&overlay, &path_exists);
    let fonts_dir = first_existing(&fonts, &path_exists);
    OverlayRuntimePaths { fonts_dir, overlay_dir }
}

/// A parsed HTTP request: method, path without its query, and header fields in order.
#[derive(Debug, Clone, PartialEq, Eq)]
pub struct HttpRequest {
    pub method: String,
    pub path: String,
    pub headers: Vec<(String, String)>,
}

/// The part of `target` before its first `?`.
pub open spec fn without_query(target: Seq<char>) -> Seq<char> {
    split_all(target, '?')[0]
}

/// The method and path of a request line: its first word (or nothing) and its second word
/// (or `/`) without the query.
pub open spec fn request_line_parts(line: Seq<char>) -> (Seq<char>, Seq<char>) {
    (
        match first_word(line) {
            Some(m) => m,
            None => Seq::empty(),
        },
        without_query(
            match second_word(line) {
                Some(t) => t,
                None => "/"@,
            },
        ),
    )
}

/// Index of the first `c` in `v[lo..hi]`, or `hi`.
fn find_or_end(v: &Vec<char>, lo: usize, hi: usize, c: char) -> (r: usize)
    requires
        lo <= hi <= v@.len(),
    ensures
        lo <= r <= hi,
        forall|j: int| lo <= j < r ==> v@[j] != c,
        r < hi ==> v@[r as int] == c,
{
    let mut i = lo;
    while i < hi && v[i] != c
        invariant
            lo <= i <= hi <= v@.len(),
            forall|j: int| lo <= j < i ==> v@[j] != c,
        decreases hi - i,
    {
        i = i + 1;
    }
    i
}

proof fn lemma_split_first_piece(s: Seq<char>, c: char, i: int)
    requires
        0 <= i <= s.len(),
        forall|j: int| 0 <= j < i ==> s[j] != c,
        i < s.len() ==> s[i] == c,
    ensures
        split_all(s, c)[0] == s.take(i),
    decreases s.len(),
{
    crate::text::lemma_split_all_nonempty(s, c);
    if s.len() > 0 {
        if i == s.len() {
            lemma_split_first_piece(s.drop_last(), c, i - 1);
            crate::text::lemma_split_all_nonempty(s.drop_last(), c);
            let prev = split_all(s.drop_last(), c);
            if prev.len() == 1 {
                assert(s.drop_last().take(i - 1).push(s.last()) =~= s.take(i));
            } else {
                assert(s.drop_last().take(i - 1) =~= s.drop_last());
                lemma_split_first_piece_len(s.drop_last(), c);
            }
        } else if i == s.len() - 1 {
            assert forall|j: int| 0 <= j < s.len() - 1 implies s.drop_last()[j] != c by {
                assert(s.drop_last()[j] == s[j]);
            }
            lemma_split_first_piece_len(s.drop_last(), c);
            lemma_split_one_piece(s.drop_last(), c);
            assert(s.drop_last() =~= s.take(i));
        } else {
            assert(s.drop_last()[i] == s[i]);
            lemma_split_first_piece(s.drop_last(), c, i);
            crate::text::lemma_split_all_nonempty(s.drop_last(), c);
            assert(s.drop_last().take(i) =~= s.take(i));
            let prev = split_all(s.drop_last(), c);
            if prev.len() == 1 {
                lemma_split_one_piece(s.drop_last(), c);
            }
        }
    }
}

proof fn lemma_split_one_piece(s: Seq<char>, c: char)
    requires
        split_all(s, c).len() == 1,
    ensures
        forall|j: int| 0 <= j < s.len() ==> s[j] != c,
        split_all(s, c)[0] == s,
    decreases s.len(),
{
    if s.len() > 0 {
        crate::text::lemma_split_all_nonempty(s.drop_last(), c);
        if s.last() == c {
            assert(false);
        }
        lemma_split_one_piece(s.drop_last(), c);
        assert forall|j: int| 0 <= j < s.len() implies s[j] != c by {
            if j < s.len() - 1 {
                assert(s[j] == s.drop_last()[j]);
            }
        }
        assert(s.drop_last().push(s.last()) =~= s);
    }
}

proof fn lemma_split_first_piece_len(s: Seq<char>, c: char)
    requires
        forall|j: int| 0 <= j < s.len() ==> s[j] != c,
    ensures
        split_all(s, c).len() == 1,
    decreases s.len(),
{
    if s.len() > 0 {
        assert forall|j: int| 0 <= j < s.len() - 1 implies s.drop_last()[j] != c by {
            assert(s.drop_last()[j] == s[j]);
        }
        lemma_split_first_piece_len(s.drop_last(), c);
    }
}

/// The method and path of an HTTP request line.
pub fn parse_request_line(line: &str) -> (r: (String, String))
    ensures
        (r.0@, r.1@) == request_line_parts(line@),
{
    let v = chars_of(line);
    let n = v.len();
    let (a, b) = word_bounds(&v, 0, n);
    let (c, d) = word_bounds(&v, b, n);
    proof {
        assert(v@.subrange(0, n as int) =~= v@);
    }
    let method = string_from_range(&v, a, b);
    let path = if c == n {
        proof {
            reveal_strlit("/");
            lemma_split_first_piece_len("/"@, '?');
            lemma_split_first_piece("/"@, '?', 1);
            assert("/"@.take(1) =~= "/"@);
        }
        owned("/")
    } else {
        let q = find_or_end(&v, c, d, '?');
        proof {
            let t = v@.subrange(c as int, d as int);
            lemma_split_first_piece(t, '?', q - c);
            assert(t.take(q - c) =~= v@.subrange(c as int, q as int));
        }
        string_from_range(&v, c, q)
    };
    proof {
        if a == n {
            assert(method@ =~= Seq::<char>::empty());
        }
    }
    (method, path)
}

/// `s` without its trailing `\r` and `\n` characters.
pub open spec fn strip_line_end(s: Seq<char>) -> Seq<char>
    decreases s.len(),
{
    if s.len() > 0 && (s.last() == '\r' || s.last() == '\n') {
        strip_line_end(s.drop_last())
    } else {
        s
    }
}

/// One line of a request's header block.
#[derive(Debug, Clone, PartialEq, Eq)]
pub enum HeaderLine {
    /// The empty line that ends the header block.
    End,
    /// A line without a `:`, which is skipped.
    Ignored,
    /// A field: its trimmed name and value.
    Field(String, String),
}

/// What a header line is: the end of the block when it is empty once its line ending is
/// removed, a field split at its first `:` (both sides trimmed), or a line to skip.
pub open spec fn header_line_is(r: HeaderLine, line: Seq<char>) -> bool {
    let t = strip_line_end(line);
    if t.len() == 0 {
        r == HeaderLine::End
    } else {
        match crate::text::split_once(t, ':') {
            Some(p) => r matches HeaderLine::Field(n, v) && n@ == trim(p.0) && v@ == trim(p.1),
            None => r == HeaderLine::Ignored,
        }
    }
}

/// Reads one line of a request's header block.
pub fn parse_header_line(line: &str) -> (r: HeaderLine)
    ensures
        header_line_is(r, line@),
{
    let v = chars_of(line);
    let mut e = v.len();
    proof {
        assert(v@.take(e as int) =~= v@);
    }
    while e > 0 && (v[e - 1] == '\r' || v[e - 1] == '\n')
        invariant
            e <= v@.len(),
            strip_line_end(v@) == strip_line_end(v@.take(e as int)),
        decreases e,
    {
        proof {
            assert(v@.take(e as int).drop_last() =~= v@.take(e - 1));
        }
        e = e - 1;
    }
    proof {
        if e > 0 {
            assert(v@.take(e as int).last() == v@[e - 1]);
        }
        assert(v@.subrange(0, e as int) =~= v@.take(e as int));
    }
    if e == 0 {
        return HeaderLine::End;
    }
    match crate::text::find_char(&v, 0, e, ':') {
        Some(k) => {
            let name_raw = string_from_range(&v, 0, k);
            let value_raw = string_from_range(&v, k + 1, e);
            proof {
                let t = v@.take(e as int);
                assert(t.take(k as int) =~= v@.subrange(0, k as int));
                assert(t.skip(k + 1) =~= v@.subrange(k + 1, e as int));
            }
            HeaderLine::Field(trimmed(name_raw.as_str()), trimmed(value_raw.as_str()))
        },
        None => HeaderLine::Ignored,
    }
}

/// `str::eq_ignore_ascii_case`.
pub open spec fn eq_ignore_ascii_case(a: Seq<char>, b: Seq<char>) -> bool {
    ascii_lower_seq(a) == ascii_lower_seq(b)
}

/// `str::eq_ignore_ascii_case`.
pub fn str_eq_ignore_ascii_case(a: &str, b: &str) -> (r: bool)
    ensures
        r == eq_ignore_ascii_case(a@, b@),
{
    let la = to_ascii_lowercase(a);
    let lb = to_ascii_lowercase(b);
    str_eq(la.as_str(), lb.as_str())
}

/// The value of the first header field whose name is `name`, ignoring ASCII case.
pub open spec fn header_value(headers: Seq<(String, String)>, name: Seq<char>) -> Option<Seq<char>>
    decreases headers.len(),
{
    if headers.len() == 0 {
        None
    } else if eq_ignore_ascii_case(headers[0].0@, name) {
        Some(headers[0].1@)
    } else {
        header_value(headers.drop_first(), name)
    }
}

/// The value of the first header field named `name`, ignoring ASCII case.
pub fn header<'a>(request: &'a HttpRequest, name: &str) -> (r: Option<&'a str>)
    ensures
        match r {
            Some(v) => header_value(request.headers@, name@) == Some(v@),
            None => header_value(request.headers@, name@) is None,
        },
{
    let hs = &request.headers;
    let mut i: usize = 0;
    proof {
        assert(hs@.skip(0) =~= hs@);
    }
    while i < hs.len()
        invariant
            i <= hs@.len(),
            hs@ == request.headers@,
            header_value(hs@, name@) == header_value(hs@.skip(i as int), name@),
        decreases hs@.len() - i,
    {
        proof {
            assert(hs@.skip(i as int).drop_first() =~= hs@.skip(i + 1));
            assert(hs@.skip(i as int)[0] == hs@[i as int]);
        }
        if str_eq_ignore_ascii_case(hs[i].0.as_str(), name) {
            assert(header_value(hs@.skip(i as int), name@) == Some(hs@[i as int].1@));
            return Some(hs[i].1.as_str());
        }
        i = i + 1;
    }
    None
}

/// The named header is present and equals `expected`, ignoring ASCII case.
pub fn header_eq(request: &HttpRequest, name: &str, expected: &str) -> (r: bool)
    ensures
        r == (header_value(request.headers@, name@) matches Some(v) && eq_ignore_ascii_case(v, expected@)),
{
    match header(request, name) {
        Some(v) => str_eq_ignore_ascii_case(v, expected),
        None => false,
    }
}

/// Some `,`-separated item of `value`, trimmed, equals `expected` ignoring ASCII case.
pub open spec fn list_contains(value: Seq<char>, expected: Seq<char>) -> bool {
    exists|i: int|
        0 <= i < split_all(value, ',').len() && eq_ignore_ascii_case(trim(#[trigger] split_all(value, ',')[i]), expected)
}

/// The named header is present and one of its `,`-separated items equals `expected`,
/// ignoring ASCII case.
pub fn header_contains(request: &HttpRequest, name: &str, expected: &str) -> (r: bool)
    ensures
        r == (header_value(request.headers@, name@) matches Some(v) && list_contains(v, expected@)),
{
    match header(request, name) {
        Some(value) => {
            let v = chars_of(value);
            let rs = crate::text::split_ranges(&v, 0, v.len(), ',');
            let ghost pieces = crate::text::pieces_of(v@, rs@);
            proof {
                assert(v@.subrange(0, v@.len() as int) =~= v@);
            }
            let mut k: usize = 0;
            while k < rs.len()
                invariant
                    k <= rs@.len(),
                    header_value(request.headers@, name@) == Some(value@),
                    pieces == crate::text::pieces_of(v@, rs@),
                    pieces == split_all(value@, ','),
                    forall|j: int| 0 <= j < rs@.len() ==> (#[trigger] rs@[j]).0 <= rs@[j].1 <= v@.len(),
                    forall|j: int| 0 <= j < k ==> !eq_ignore_ascii_case(trim(#[trigger] pieces[j]), expected@),
                decreases rs@.len() - k,
            {
                let (lo, hi) = rs[k];
                let piece = string_from_range(&v, lo, hi);
                let t = trimmed(piece.as_str());
                assert(pieces[k as int] == piece@);
                if str_eq_ignore_ascii_case(t.as_str(), expected) {
                    assert(eq_ignore_ascii_case(trim(split_all(value@, ',')[k as int]), expected@));
                    return true;
                }
                k = k + 1;
            }
            false
        },
        None => false,
    }
}

/// A request asks to switch to the WebSocket protocol: its `Connection` lists `upgrade`, its
/// `Upgrade` is `websocket` and it carries a `Sec-WebSocket-Key`.
pub fn is_websocket_upgrade(request: &HttpRequest) -> (r: bool)
    ensures
        r == ((header_value(request.headers@, "connection"@) matches Some(v) && list_contains(v, "upgrade"@))
            && (header_value(request.headers@, "upgrade"@) matches Some(v) && eq_ignore_ascii_case(v, "websocket"@))
            && header_value(request.headers@, "sec-websocket-key"@) is Some),
{
    header_contains(request, "connection", "upgrade") && header_eq(request, "upgrade", "websocket") && header(
        request,
        "sec-websocket-key",
    ).is_some()
}

/// `Path::file_name` of a `/`-separated path: its last component, skipping empty and `.`
/// components; none when that is `..` or there is no component.
pub open spec fn last_component(ps: Seq<Seq<char>>) -> Option<Seq<char>>
    decreases ps.len(),
{
    if ps.len() == 0 {
        None
    } else if ps.last().len() == 0 || ps.last() == "."@ {
        last_component(ps.drop_last())
    } else if ps.last() == ".."@ {
        None
    } else {
        Some(ps.last())
    }
}

/// Index of the last `.` of `s`.
pub open spec fn last_dot(s: Seq<char>) -> Option<int>
    decreases s.len(),
{
    if s.len() == 0 {
        None
    } else if s.last() == '.' {
        Some(s.len() - 1)
    } else {
        last_dot(s.drop_last())
    }
}

/// `Path::extension` of a path: what follows the last `.` of its file name, unless that dot
/// starts the name.
pub open spec fn path_extension(path: Seq<char>) -> Option<Seq<char>> {
    match last_component(split_all(path, '/')) {
        Some(f) => match last_dot(f) {
            Some(i) => if i > 0 {
                Some(f.skip(i + 1))
            } else {
                None
            },
            None => None,
        },
        None => None,
    }
}

/// The range of the file name among the `/`-separated pieces `rs` of `v`.
fn file_name_range(v: &Vec<char>, rs: &Vec<(usize, usize)>) -> (r: Option<(usize, usize)>)
    requires
        forall|j: int| 0 <= j < rs@.len() ==> (#[trigger] rs@[j]).0 <= rs@[j].1 <= v@.len(),
    ensures
        match r {
            Some(b) => b.0 <= b.1 <= v@.len() && last_component(crate::text::pieces_of(v@, rs@)) == Some(
                v@.subrange(b.0 as int, b.1 as int),
            ),
            None => last_component(crate::text::pieces_of(v@, rs@)) is None,
        },
{
    let ghost pieces = crate::text::pieces_of(v@, rs@);
    let mut k = rs.len();
    proof {
        assert(pieces.take(k as int) =~= pieces);
    }
    while k > 0
        invariant
            k <= rs@.len(),
            pieces == crate::text::pieces_of(v@, rs@),
            forall|j: int| 0 <= j < rs@.len() ==> (#[trigger] rs@[j]).0 <= rs@[j].1 <= v@.len(),
            last_component(pieces) == last_component(pieces.take(k as int)),
        decreases k,
    {
        let (lo, hi) = rs[k - 1];
        let piece = string_from_range(v, lo, hi);
        proof {
            assert(pieces.take(k as int).drop_last() =~= pieces.take(k - 1));
            assert(pieces.take(k as int).last() == piece@);
        }
        let p = piece.as_str();
        if p.is_empty() || str_eq(p, ".") {
            k = k - 1;
        } else if str_eq(p, "..") {
            return None;
        } else {
            return Some((lo, hi));
        }
    }
    proof {
        assert(pieces.take(0) =~= Seq::<Seq<char>>::empty());
    }
    None
}

/// The extension of `path`, if it has one.
pub fn extension_of(path: &str) -> (r: Option<String>)
    ensures
        opt_chars(r) == path_extension(path@),
{
    let v = chars_of(path);
    let rs = crate::text::split_ranges(&v, 0, v.len(), '/');
    proof {
        assert(v@.subrange(0, v@.len() as int) =~= v@);
    }
    match file_name_range(&v, &rs) {
        None => None,
        Some((lo, hi)) => {
            let ghost f = v@.subrange(lo as int, hi as int);
            let mut d = hi;
            proof {
                assert(f =~= v@.subrange(lo as int, d as int));
            }
            while d > lo && v[d - 1] != '.'
                invariant
                    lo <= d <= hi <= v@.len(),
                    f == v@.subrange(lo as int, hi as int),
                    last_dot(f) == last_dot(v@.subrange(lo as int, d as int)),
                decreases d,
            {
                proof {
                    assert(v@.subrange(lo as int, d as int).drop_last() =~= v@.subrange(lo as int, d - 1));
                }
                d = d - 1;
            }
            if d == lo {
                None
            } else if d - 1 == lo {
                proof {
                    assert(v@.subrange(lo as int, d as int).last() == v@[d - 1]);
                }
                None
            } else {
                proof {
                    assert(v@.subrange(lo as int, d as int).last() == v@[d - 1]);
                    assert(f.skip(d - lo) =~= v@.subrange(d as int, hi as int));
                }
                Some(string_from_range(&v, d, hi))
            }
        },
    }
}

/// The content type served for a file, by its extension.
pub open spec fn content_type_of(path: Seq<char>) -> Seq<char> {
    match path_extension(path) {
        Some(e) => if e == "css"@ {
            "text/css; charset=utf-8"@
        } else if e == "html"@ {
            "text/html; charset=utf-8"@
        } else if e == "js"@ || e == "mjs"@ {
            "text/javascript; charset=utf-8"@
        } else if e == "json"@ {
            "application/json; charset=utf-8"@
        } else if e == "png"@ {
            "image/png"@
        } else if e == "svg"@ {
            "image/svg+xml"@
        } else if e == "webp"@ {
            "image/webp"@
        } else if e == "woff"@ {
            "font/woff"@
        } else if e == "woff2"@ {
            "font/woff2"@
        } else {
            "application/octet-stream"@
        },
        None => "application/octet-stream"@,
    }
}

/// Each file is served with the content type of its extension: stylesheets as `text/css`,
/// pages as `text/html`, scripts as `text/javascript`, and so on; a file without a known
/// extension as `application/octet-stream`.
pub proof fn files_are_served_by_their_extension(path: Seq<char>)
    ensures
        path_extension(path) == Some("css"@) ==> content_type_of(path) == "text/css; charset=utf-8"@,
        path_extension(path) == Some("html"@) ==> content_type_of(path) == "text/html; charset=utf-8"@,
        path_extension(path) == Some("js"@) ==> content_type_of(path) == "text/javascript; charset=utf-8"@,
        path_extension(path) == Some("mjs"@) ==> content_type_of(path) == "text/javascript; charset=utf-8"@,
        path_extension(path) == Some("json"@) ==> content_type_of(path) == "application/json; charset=utf-8"@,
        path_extension(path) == Some("png"@) ==> content_type_of(path) == "image/png"@,
        path_extension(path) == Some("svg"@) ==> content_type_of(path) == "image/svg+xml"@,
        path_extension(path) == Some("webp"@) ==> content_type_of(path) == "image/webp"@,
        path_extension(path) == Some("woff"@) ==> content_type_of(path) == "font/woff"@,
        path_extension(path) == Some("woff2"@) ==> content_type_of(path) == "font/woff2"@,
        path_extension(path) is None ==> content_type_of(path) == "application/octet-stream"@,
{
    reveal_strlit("css");
    reveal_strlit("html");
    reveal_strlit("js");
    reveal_strlit("mjs");
    reveal_strlit("json");
    reveal_strlit("png");
    reveal_strlit("svg");
    reveal_strlit("webp");
    reveal_strlit("woff");
    reveal_strlit("woff2");
    assert("css"@[0] != "js"@[0] && "css"@[0] != "png"@[0] && "css"@[0] != "svg"@[0] && "css"@[0] != "mjs"@[0]);
    assert("js"@[0] != "png"@[0] && "js"@[0] != "svg"@[0]);
    assert("png"@[0] != "svg"@[0] && "mjs"@[0] != "png"@[0] && "mjs"@[0] != "svg"@[0]);
    assert("html"@[0] != "json"@[0] && "html"@[0] != "webp"@[0] && "html"@[0] != "woff"@[0]);
    assert("json"@[0] != "webp"@[0] && "json"@[0] != "woff"@[0] && "webp"@[1] != "woff"@[1]);
    assert("json"@.len() != "css"@.len() && "json"@.len() != "js"@.len() && "json"@.len() != "mjs"@.len());
    assert("json"@ != "css"@ && "json"@ != "html"@ && "json"@ != "js"@ && "json"@ != "mjs"@);
    assert("woff2"@.len() == 5);
    assert("woff2"@ != "css"@ && "woff2"@ != "html"@ && "woff2"@ != "js"@ && "woff2"@ != "mjs"@);
    assert("woff2"@ != "json"@ && "woff2"@ != "png"@ && "woff2"@ != "svg"@ && "woff2"@ != "webp"@ && "woff2"@ != "woff"@);
}

/// The content type served for a file, by its extension.
pub fn content_type_for(path: &str) -> (r: &'static str)
    ensures
        r@ == content_type_of(path@),
{
    match extension_of(path) {
        Some(e) => {
            let x = e.as_str();
            if str_eq(x, "css") {
                "text/css; charset=utf-8"
            } else if str_eq(x, "html") {
                "text/html; charset=utf-8"
            } else if str_eq(x, "js") || str_eq(x, "mjs") {
                "text/javascript; charset=utf-8"
            } else if str_eq(x, "json") {
                "application/json; charset=utf-8"
            } else if str_eq(x, "png") {
                "image/png"
            } else if str_eq(x, "svg") {
                "image/svg+xml"
            } else if str_eq(x, "webp") {
                "image/webp"
            } else if str_eq(x, "woff") {
                "font/woff"
            } else if str_eq(x, "woff2") {
                "font/woff2"
            } else {
                "application/octet-stream"
            }
        },
        None => "application/octet-stream",
    }
}

/// A relative path joined onto `root`, component by component: empty and `.` components are
/// skipped and a `..` component refuses the whole path.
pub open spec fn safe_join_parts(root: Seq<char>, ps: Seq<Seq<char>>) -> Option<Seq<char>>
    decreases ps.len(),
{
    if ps.len() == 0 {
        Some(root)
    } else {
        match safe_join_parts(root, ps.drop_last()) {
            None => None,
            Some(p) => if ps.last().len() == 0 || ps.last() == "."@ {
                Some(p)
            } else if ps.last() == ".."@ {
                None
            } else {
                Some(path_push(p, ps.last()))
            },
        }
    }
}

/// `relative` (leading `/`s removed) joined onto `root`, or `None` when it climbs out with `..`.
pub fn safe_join(root: &str, relative: &str) -> (r: Option<String>)
    ensures
        opt_chars(r) == safe_join_parts(root@, split_all(crate::text::trim_start_char(relative@, '/'), '/')),
{
    let rel = crate::text::trim_start_matches(relative, '/');
    let v = chars_of(rel.as_str());
    let rs = crate::text::split_ranges(&v, 0, v.len(), '/');
    let ghost pieces = crate::text::pieces_of(v@, rs@);
    proof {
        assert(v@.subrange(0, v@.len() as int) =~= v@);
    }
    let mut path = owned(root);
    let mut k: usize = 0;
    while k < rs.len()
        invariant
            k <= rs@.len(),
            pieces == crate::text::pieces_of(v@, rs@),
            pieces == split_all(crate::text::trim_start_char(relative@, '/'), '/'),
            forall|j: int| 0 <= j < rs@.len() ==> (#[trigger] rs@[j]).0 <= rs@[j].1 <= v@.len(),
            safe_join_parts(root@, pieces.take(k as int)) == Some(path@),
        decreases rs@.len() - k,
    {
        let (lo, hi) = rs[k];
        let piece = string_from_range(&v, lo, hi);
        proof {
            assert(pieces.take(k + 1).drop_last() =~= pieces.take(k as int));
            assert(pieces.take(k + 1).last() == piece@);
        }
        let p = piece.as_str();
        if p.is_empty() || str_eq(p, ".") {
        } else if str_eq(p, "..") {
            proof {
                lemma_safe_join_stays_none(root@, pieces, k + 1);
                assert(pieces.take(rs@.len() as int) =~= pieces);
            }
            return None;
        } else {
            push_path(&mut path, p);
        }
        k = k + 1;
    }
    proof {
        assert(pieces.take(rs@.len() as int) =~= pieces);
    }
    Some(path)
}

proof fn lemma_safe_join_stays_none(root: Seq<char>, ps: Seq<Seq<char>>, k: int)
    requires
        0 <= k <= ps.len(),
        safe_join_parts(root, ps.take(k)) is None,
    ensures
        safe_join_parts(root, ps) is None,
    decreases ps.len() - k,
{
    if k < ps.len() {
        assert(ps.take(k + 1).drop_last() =~= ps.take(k));
        lemma_safe_join_stays_none(root, ps, k + 1);
    } else {
        assert(ps.take(k) =~= ps);
    }
}

/// What the server answers an HTTP request with.
#[derive(Debug, Clone, PartialEq, Eq)]
pub enum HttpRoute {
    /// `405`: only `GET` and `HEAD` are served.
    MethodNotAllowed,
    /// `500`: the asset root of this kind (`fonts` or `overlay`) was not found.
    MissingRoot(&'static str),
    /// `404`.
    NotFound,
    /// A file under `root`, with a fixed content type or one chosen by its extension.
    File { root: String, relative_path: String, content_type: Option<&'static str> },
}

/// `r` is the route of a request for `path` by `method`: fonts under `/fonts/`, page assets
/// under `/assets/`, `404` for other paths with an extension, and the overlay page otherwise.
pub open spec fn route_is(r: HttpRoute, method: Seq<char>, path: Seq<char>, paths: OverlayRuntimePaths) -> bool {
    if method != "GET"@ && method != "HEAD"@ {
        r == HttpRoute::MethodNotAllowed
    } else if crate::text::has_prefix(path, "/fonts/"@) {
        match paths.fonts_dir {
            None => r == HttpRoute::MissingRoot("fonts"),
            Some(d) => r matches HttpRoute::File { root, relative_path, content_type } && root@ == d@
                && relative_path@ == path.skip(7) && content_type is None,
        }
    } else if crate::text::has_prefix(path, "/assets/"@) {
        match paths.overlay_dir {
            None => r == HttpRoute::MissingRoot("overlay"),
            Some(d) => r matches HttpRoute::File { root, relative_path, content_type } && root@ == d@
                && relative_path@ == crate::text::trim_start_char(path, '/') && content_type is None,
        }
    } else if path != "/"@ && path != "/index.html"@ && path_extension(path) is Some {
        r == HttpRoute::NotFound
    } else {
        match paths.overlay_dir {
            None => r == HttpRoute::MissingRoot("overlay"),
            Some(d) => r matches HttpRoute::File { root, relative_path, content_type } && root@ == d@
                && relative_path@ == "index.html"@ && (content_type matches Some(t) && t@ == "text/html; charset=utf-8"@),
        }
    }
}

/// Decides what an HTTP request is answered with.
pub fn route_request(request: &HttpRequest, paths: &OverlayRuntimePaths) -> (r: HttpRoute)
    ensures
        route_is(r, request.method@, request.path@, *paths),
{
    let m = request.method.as_str();
    if !str_eq(m, "GET") && !str_eq(m, "HEAD") {
        return HttpRoute::MethodNotAllowed;
    }
    let p = request.path.as_str();
    let v = chars_of(p);
    let fonts = chars_of("/fonts/");
    let assets = chars_of("/assets/");
    proof {
        reveal_strlit("/fonts/");
        reveal_strlit("/assets/");
    }
    if crate::text::range_has_prefix(&v, 0, v.len(), &fonts) {
        proof {
            assert(v@.subrange(0, v@.len() as int) =~= v@);
        }
        return match &paths.fonts_dir {
            None => HttpRoute::MissingRoot("fonts"),
            Some(d) => {
                let rel = string_from_range(&v, 7, v.len());
                proof {
                    assert(v@.subrange(7, v@.len() as int) =~= p@.skip(7));
                }
                HttpRoute::File { root: d.clone(), relative_path: rel, content_type: None }
            },
        };
    }
    proof {
        assert(v@.subrange(0, v@.len() as int) =~= v@);
    }
    if crate::text::range_has_prefix(&v, 0, v.len(), &assets) {
        return match &paths.overlay_dir {
            None => HttpRoute::MissingRoot("overlay"),
            Some(d) => HttpRoute::File {
                root: d.clone(),
                relative_path: crate::text::trim_start_matches(p, '/'),
                content_type: None,
            },
        };
    }
    if !str_eq(p, "/") && !str_eq(p, "/index.html") && extension_of(p).is_some() {
        return HttpRoute::NotFound;
    }
    match &paths.overlay_dir {
        None => HttpRoute::MissingRoot("overlay"),
        Some(d) => HttpRoute::File {
            root: d.clone(),
            relative_path: owned("index.html"),
            content_type: Some("text/html; charset=utf-8"),
        },
    }
}

/// The body of the `500` answer for a missing asset root.
pub fn missing_root_message(kind: &str) -> (r: String)
    ensures
        r@ == "Missing "@ + kind@ + " asset root"@,
{
    let mut s = owned("Missing ");
    push_str(&mut s, kind);
    push_str(&mut s, " asset root");
    s
}

/// The status line and headers of an answer whose body has `body_len` bytes.
pub open spec fn response_head_text(status: u16, reason: Seq<char>, content_type: Seq<char>, body_len: nat) -> Seq<char> {
    "HTTP/1.1 "@ + decimal(status as nat) + " "@ + reason + "\r\nContent-Type: "@ + content_type
        + "\r\nContent-Length: "@ + decimal(body_len) + "\r\nConnection: close\r\n\r\n"@
}

/// The status line and headers of an answer whose body has `body_len` bytes.
pub fn response_head(status: u16, reason: &str, content_type: &str, body_len: usize) -> (r: String)
    ensures
        r@ == response_head_text(status, reason@, content_type@, body_len as nat),
{
    let mut s = owned("HTTP/1.1 ");
    push_decimal(&mut s, status as u64);
    push_str(&mut s, " ");
    push_str(&mut s, reason);
    push_str(&mut s, "\r\nContent-Type: ");
    push_str(&mut s, content_type);
    push_str(&mut s, "\r\nContent-Length: ");
    push_decimal(&mut s, body_len as u64);
    push_str(&mut s, "\r\nConnection: close\r\n\r\n");
    s
}

/// `256` to the power `k`.
pub open spec fn pow256(k: nat) -> nat
    decreases k,
{
    if k == 0 {
        1
    } else {
        256 * pow256((k - 1) as nat)
    }
}

/// The last `k` bytes of `n` in big-endian order (`to_be_bytes` for `n < 256^k`).
pub open spec fn be_bytes(n: nat, k: nat) -> Seq<u8>
    decreases k,
{
    if k == 0 {
        Seq::empty()
    } else {
        be_bytes(n / 256, (k - 1) as nat).push((n % 256) as u8)
    }
}

/// The number that big-endian bytes stand for.
pub open spec fn be_value(s: Seq<u8>) -> nat
    decreases s.len(),
{
    if s.len() == 0 {
        0
    } else {
        be_value(s.drop_last()) * 256 + s.last() as nat
    }
}

/// The length field of a WebSocket frame carrying `n` bytes: the length itself below 126,
/// else 126 and two bytes up to `0xffff`, else 127 and eight bytes.
pub open spec fn frame_length_field(n: nat) -> Seq<u8> {
    if n < 126 {
        seq![n as u8]
    } else if n <= 0xffff {
        seq![126u8] + be_bytes(n, 2)
    } else {
        seq![127u8] + be_bytes(n, 8)
    }
}

/// An unmasked, final WebSocket text frame carrying `payload`.
pub open spec fn text_frame_bytes(payload: Seq<u8>) -> Seq<u8> {
    seq![0x81u8] + frame_length_field(payload.len()) + payload
}

/// Appends the last `k` bytes of `n`, big-endian.
fn push_be(frame: &mut Vec<u8>, n: u64, k: usize)
    ensures
        final(frame)@ == old(frame)@ + be_bytes(n as nat, k as nat),
    decreases k,
{
    if k == 0 {
        assert(old(frame)@ + be_bytes(n as nat, 0) =~= old(frame)@);
        return;
    }
    push_be(frame, n / 256, k - 1);
    frame.push((n % 256) as u8);
    assert(old(frame)@ + be_bytes(n as nat, k as nat) =~= old(frame)@ + be_bytes((n / 256) as nat, (k - 1) as nat)
        + seq![(n % 256) as u8]);
}

/// The WebSocket text frame carrying `payload` (as the server sends it to overlay clients).
pub fn text_frame(payload: &str) -> (r: Vec<u8>)
    ensures
        r@ == text_frame_bytes(vstd::utf8::encode_utf8(payload@)),
{
    let bytes = payload.as_bytes();
    let n = bytes.len();
    let mut frame: Vec<u8> = Vec::new();
    frame.push(0x81);
    if n < 126 {
        frame.push(n as u8);
    } else if n <= 0xffff {
        frame.push(126);
        push_be(&mut frame, n as u64, 2);
    } else {
        frame.push(127);
        push_be(&mut frame, n as u64, 8);
    }
    let ghost head = frame@;
    assert(head =~= seq![0x81u8] + frame_length_field(n as nat));
    let mut i: usize = 0;
    while i < n
        invariant
            i <= n == bytes@.len(),
            frame@ == head + bytes@.take(i as int),
        decreases n - i,
    {
        frame.push(bytes[i]);
        i = i + 1;
        assert(frame@ =~= head + bytes@.take(i as int));
    }
    assert(bytes@.take(n as int) =~= bytes@);
    frame
}

/// Where a frame's payload starts and how long it is, read from its first bytes: the opcode,
/// whether it is masked, the length and the offsets of the mask and of the payload.
pub open spec fn frame_layout(b: Seq<u8>) -> Option<(u8, bool, nat, int, int)> {
    if b.len() < 2 {
        None
    } else {
        let code = b[1] % 128;
        let ext: int = if code == 126 {
            2
        } else if code == 127 {
            8
        } else {
            0
        };
        if b.len() < 2 + ext {
            None
        } else {
            let len = if code == 126 || code == 127 {
                be_value(b.subrange(2, 2 + ext))
            } else {
                code as nat
            };
            let data = 2 + ext + if b[1] >= 128 {
                4int
            } else {
                0int
            };
            Some(((b[0] % 16) as u8, b[1] >= 128, len, 2 + ext, data))
        }
    }
}

/// A frame read from the start of `b`: its opcode and its (unmasked) payload; none when `b`
/// is too short to hold it.
pub open spec fn frame_decode(b: Seq<u8>) -> Option<(u8, Seq<u8>)> {
    match frame_layout(b) {
        None => None,
        Some(l) => if b.len() < l.4 + l.2 {
            None
        } else {
            Some(
                (
                    l.0,
                    Seq::new(
                        l.2,
                        |i: int|
                            if l.1 {
                                b[l.4 + i] ^ b[l.3 + i % 4]
                            } else {
                                b[l.4 + i]
                            },
                    ),
                ),
            )
        },
    }
}

/// The number that the big-endian bytes `b[lo..hi]` stand for (at most eight of them).
fn read_be(b: &Vec<u8>, lo: usize, hi: usize) -> (r: u64)
    requires
        lo <= hi <= b@.len(),
        hi - lo <= 8,
    ensures
        r == be_value(b@.subrange(lo as int, hi as int)),
{
    let mut acc: u64 = 0;
    let mut i = lo;
    proof {
        assert(b@.subrange(lo as int, lo as int) =~= Seq::<u8>::empty());
        reveal_with_fuel(pow256, 9);
    }
    while i < hi
        invariant
            lo <= i <= hi <= b@.len(),
            hi - lo <= 8,
            acc == be_value(b@.subrange(lo as int, i as int)),
            acc < pow256((i - lo) as nat),
            pow256(8) == 0x1_0000_0000_0000_0000,
        decreases hi - i,
    {
        proof {
            assert(b@.subrange(lo as int, i + 1).drop_last() =~= b@.subrange(lo as int, i as int));
            lemma_pow256_mono((i - lo + 1) as nat, 8);
            assert(acc * 256 + b@[i as int] < pow256((i - lo + 1) as nat)) by (nonlinear_arith)
                requires
                    acc < pow256((i - lo) as nat),
                    pow256((i - lo + 1) as nat) == 256 * pow256((i - lo) as nat),
                    b@[i as int] < 256,
            ;
        }
        acc = acc * 256 + b[i] as u64;
        i = i + 1;
    }
    acc
}

pub proof fn lemma_pow256_mono(a: nat, b: nat)
    requires
        a <= b,
    ensures
        pow256(a) <= pow256(b),
        pow256(a) > 0,
    decreases b,
{
    if b > 0 && a < b {
        lemma_pow256_mono(a, (b - 1) as nat);
    } else if b > 0 {
        lemma_pow256_mono((a - 1) as nat, (b - 1) as nat);
    }
}

/// Reads one WebSocket frame from the start of `bytes`: its opcode and its payload, unmasked
/// with the frame's key when it has one; `None` when `bytes` is too short.
pub fn decode_frame(bytes: &Vec<u8>) -> (r: Option<(u8, Vec<u8>)>)
    ensures
        match r {
            Some(f) => frame_decode(bytes@) == Some((f.0, f.1@)),
            None => frame_decode(bytes@) is None,
        },
{
    let n = bytes.len();
    if n < 2 {
        return None;
    }
    let b0 = bytes[0];
    let b1 = bytes[1];
    let code = b1 % 128;
    let masked = b1 >= 128;
    let ext: usize = if code == 126 {
        2
    } else if code == 127 {
        8
    } else {
        0
    };
    if n < 2 + ext {
        return None;
    }
    let len: u64 = if code == 126 || code == 127 {
        read_be(bytes, 2, 2 + ext)
    } else {
        code as u64
    };
    let mask_at = 2 + ext;
    let data = if masked {
        mask_at + 4
    } else {
        mask_at
    };
    if n < data || ((n - data) as u64) < len {
        return None;
    }
    let len = len as usize;
    let mut payload: Vec<u8> = Vec::new();
    let mut i: usize = 0;
    while i < len
        invariant
            i <= len,
            data + len <= n == bytes@.len(),
            mask_at + 4 <= n || !masked,
            frame_layout(bytes@) == Some(((b0 % 16) as u8, masked, len as nat, mask_at as int, data as int)),
            b0 == bytes@[0],
            payload@.len() == i,
            forall|j: int|
                0 <= j < i ==> payload@[j] == if masked {
                    bytes@[data + j] ^ bytes@[mask_at + j % 4]
                } else {
                    bytes@[data + j]
                },
        decreases len - i,
    {
        let x = if masked {
            bytes[data + i] ^ bytes[mask_at + i % 4]
        } else {
            bytes[data + i]
        };
        payload.push(x);
        i = i + 1;
    }
    proof {
        let l = frame_layout(bytes@).unwrap();
        assert(payload@ =~= Seq::new(
            l.2,
            |i: int|
                if l.1 {
                    bytes@[l.4 + i] ^ bytes@[l.3 + i % 4]
                } else {
                    bytes@[l.4 + i]
                },
        ));
    }
    Some(((b0 % 16) as u8, payload))
}

/// The number of bytes the frame at the start of `b` takes (header, mask and payload), when
/// `b` holds all of it.
pub open spec fn frame_size(b: Seq<u8>) -> Option<int> {
    match frame_layout(b) {
        None => None,
        Some(l) => if b.len() < l.4 + l.2 {
            None
        } else {
            Some(l.4 + l.2)
        },
    }
}

/// How many bytes the frame at the start of `bytes` takes, once `bytes` holds all of it
/// ([`frame_size`]); with [`decode_frame`], a reader can take frames off a buffer.
pub fn frame_len(bytes: &Vec<u8>) -> (r: Option<usize>)
    ensures
        match r {
            Some(n) => frame_size(bytes@) == Some(n as int),
            None => frame_size(bytes@) is None,
        },
{
    let n = bytes.len();
    if n < 2 {
        return None;
    }
    let b1 = bytes[1];
    let code = b1 % 128;
    let masked = b1 >= 128;
    let ext: usize = if code == 126 {
        2
    } else if code == 127 {
        8
    } else {
        0
    };
    if n < 2 + ext {
        return None;
    }
    let len: u64 = if code == 126 || code == 127 {
        read_be(bytes, 2, 2 + ext)
    } else {
        code as u64
    };
    let data = if masked {
        2 + ext + 4
    } else {
        2 + ext
    };
    if n < data || ((n - data) as u64) < len {
        return None;
    }
    Some(data + len as usize)
}

/// Whether a frame's opcode closes the connection.
pub fn is_close_opcode(opcode: u8) -> (r: bool)
    ensures
        r == (opcode == 8),
{
    opcode == 8
}

proof fn lemma_be_roundtrip(n: nat, k: nat)
    requires
        n < pow256(k),
    ensures
        be_bytes(n, k).len() == k,
        be_value(be_bytes(n, k)) == n,
    decreases k,
{
    if k > 0 {
        assert(n / 256 < pow256((k - 1) as nat)) by (nonlinear_arith)
            requires
                n < pow256(k),
                pow256(k) == 256 * pow256((k - 1) as nat),
        ;
        lemma_be_roundtrip(n / 256, (k - 1) as nat);
        let s = be_bytes(n, k);
        assert(s.drop_last() =~= be_bytes(n / 256, (k - 1) as nat));
        assert((n / 256) * 256 + n % 256 == n) by (nonlinear_arith);
    }
}

/// Reading back a text frame that the server writes gives its payload with the text opcode.
pub proof fn text_frame_reads_back(payload: Seq<u8>)
    requires
        payload.len() < 0x1_0000_0000_0000_0000,
    ensures
        frame_decode(text_frame_bytes(payload)) == Some((1u8, payload)),
{
    let n = payload.len();
    let b = text_frame_bytes(payload);
    reveal_with_fuel(pow256, 9);
    if n < 126 {
        assert(b[1] == n as u8);
        assert(b.subrange(2, 2 + n as int) =~= payload);
        assert(Seq::new(n, |i: int| b[2 + i]) =~= payload);
    } else if n <= 0xffff {
        lemma_be_roundtrip(n, 2);
        assert(b[1] == 126u8);
        assert(b.subrange(2, 4) =~= be_bytes(n, 2));
        assert(Seq::new(n, |i: int| b[4 + i]) =~= payload);
    } else {
        lemma_be_roundtrip(n, 8);
        assert(b[1] == 127u8);
        assert(b.subrange(2, 10) =~= be_bytes(n, 8));
        assert(Seq::new(n, |i: int| b[10 + i]) =~= payload);
    }
    assert(b[0] == 0x81u8);
    assert(0x81u8 % 16 == 1);
}

/// The key that every WebSocket server appends to the client's key before hashing.
pub open spec fn websocket_guid() -> Seq<char> {
    "258EAFA5-E914-47DA-95CA-C5AB0DC85B11"@
}

/// The SHA-1 digest of `data`.
pub uninterp spec fn sha1_of(data: Seq<u8>) -> Seq<u8>;

/// Hashes `data` with `sha1_smol` (`Sha1::from`, `digest`, `bytes`). The digest is named by
/// `sha1_of`, a function of the bytes alone; the crate documents it as 20 bytes long.
#[verifier::external_body]
fn sha1_digest(data: &Vec<u8>) -> (r: Vec<u8>)
    ensures
        r@ == sha1_of(data@),
        r@.len() == 20,
{
    sha1_smol::Sha1::from(data.as_slice()).digest().bytes().to_vec()
}

/// The character of the standard base64 alphabet (`A`-`Z`, `a`-`z`, `0`-`9`, `+`, `/`) for a
/// six-bit value.
pub open spec fn base64_char(v: int) -> char {
    if v < 26 {
        ((65 + v) as u32) as char
    } else if v < 52 {
        ((97 + v - 26) as u32) as char
    } else if v < 62 {
        ((48 + v - 52) as u32) as char
    } else if v == 62 {
        '+'
    } else {
        '/'
    }
}

/// Standard base64 (RFC 4648, with `=` padding) of `data`: each group of three bytes becomes
/// four characters of six bits each; a last group of one or two bytes is padded with `=`.
pub open spec fn base64_standard(data: Seq<u8>) -> Seq<char>
    decreases data.len(),
{
    if data.len() == 0 {
        Seq::empty()
    } else if data.len() == 1 {
        let a = data[0] as int;
        seq![base64_char(a / 4), base64_char((a % 4) * 16), '=', '=']
    } else if data.len() == 2 {
        let a = data[0] as int;
        let b = data[1] as int;
        seq![base64_char(a / 4), base64_char((a % 4) * 16 + b / 16), base64_char((b % 16) * 4), '=']
    } else {
        let a = data[0] as int;
        let b = data[1] as int;
        let c = data[2] as int;
        seq![base64_char(a / 4), base64_char((a % 4) * 16 + b / 16), base64_char((b % 16) * 4 + c / 64), base64_char(c % 64)]
            + base64_standard(data.subrange(3, data.len() as int))
    }
}

/// Encodes `data` with the `base64` crate's `STANDARD` engine, which writes standard base64
/// with padding ([`base64_standard`]); as the crate's `encoded_len` computes, that is four
/// characters per started group of three bytes. The crate panics only when that length does
/// not fit in `usize`, which the bound on `data` rules out.
#[verifier::external_body]
fn base64_encode(data: &Vec<u8>) -> (r: String)
    requires
        data@.len() <= usize::MAX / 2,
    ensures
        r@ == base64_standard(data@),
        r@.len() == 4 * ((data@.len() + 2) / 3),
{
    base64::Engine::encode(&base64::engine::general_purpose::STANDARD, data.as_slice())
}

/// The `Sec-WebSocket-Accept` value answering the client's `Sec-WebSocket-Key`: base64 of
/// the SHA-1 of the key followed by the WebSocket GUID.
pub open spec fn websocket_accept_value(key: Seq<char>) -> Seq<char> {
    base64_standard(sha1_of(vstd::utf8::encode_utf8(key) + vstd::utf8::encode_utf8(websocket_guid())))
}

/// The `Sec-WebSocket-Accept` value answering the client's `Sec-WebSocket-Key`.
pub fn websocket_accept(key: &str) -> (r: String)
    ensures
        r@ == websocket_accept_value(key@),
{
    let kb = key.as_bytes();
    let gb = "258EAFA5-E914-47DA-95CA-C5AB0DC85B11".as_bytes();
    let mut data: Vec<u8> = Vec::new();
    let mut i: usize = 0;
    while i < kb.len()
        invariant
            i <= kb@.len(),
            data@ == kb@.take(i as int),
        decreases kb@.len() - i,
    {
        data.push(kb[i]);
        i = i + 1;
        assert(data@ =~= kb@.take(i as int));
    }
    let mut j: usize = 0;
    while j < gb.len()
        invariant
            j <= gb@.len(),
            i == kb@.len(),
            data@ == kb@.take(i as int) + gb@.take(j as int),
        decreases gb@.len() - j,
    {
        data.push(gb[j]);
        j = j + 1;
        assert(data@ =~= kb@.take(i as int) + gb@.take(j as int));
    }
    proof {
        assert(kb@.take(i as int) =~= kb@);
        assert(gb@.take(j as int) =~= gb@);
    }
    let digest = sha1_digest(&data);
    base64_encode(&digest)
}

/// The answer that switches a connection to the WebSocket protocol.
pub fn handshake_response(accept: &str) -> (r: String)
    ensures
        r@ == "HTTP/1.1 101 Switching Protocols\r\nUpgrade: websocket\r\nConnection: Upgrade\r\nSec-WebSocket-Accept: "@
            + accept@ + "\r\n\r\n"@,
{
    let mut s = owned("HTTP/1.1 101 Switching Protocols\r\nUpgrade: websocket\r\nConnection: Upgrade\r\nSec-WebSocket-Accept: ");
    push_str(&mut s, accept);
    push_str(&mut s, "\r\n\r\n");
    s
}

} // verus!
