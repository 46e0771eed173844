//! Twitch IRC line parsing and outbound command checks.
use crate::platforms::twitch::adapter::{
    opt_str, EmoteSpanView, TwitchChatEvent, TwitchChatEventView, TwitchChatMessage,
    TwitchChatMessageView, TwitchEmoteSpan,
};
use crate::platforms::PlatformError;
use crate::protocol::types::{ChatReply, ChatReplyView, Platform, ReplyAuthor};
use crate::text::{
    byte_len, byte_offsets, char_index_at_byte, index_of_offset, chars_of, char_width, find_char, first_index, lemma_byte_len_prefix_mono,
    lemma_byte_len_push, lemma_split_all_nonempty, owned, parse_u64_range, parse_u64_spec,
    pieces_of, push_char, push_str, str_byte_len, decimal, first_word, first_word_of,
    split_once_seq, split_once_str, str_contains, contains_seq, to_lowercase, trim, trimmed,
    trim_start_char, trim_start_matches, u64_to_string, unicode_lowercase, parse_u64,
    split_all, split_once, split_ranges, string_from_range, str_eq,
};
use vstd::prelude::*;

verus! {

/// The character an IRC tag escape `\x` stands for.
pub open spec fn unescape_char(c: char) -> char {
    if c == 's' {
        ' '
    } else if c == ':' {
        ';'
    } else if c == 'r' {
        '\r'
    } else if c == 'n' {
        '\n'
    } else {
        c
    }
}

/// IRCv3 tag value unescaping; a trailing lone `\` is kept.
pub open spec fn irc_unescape(s: Seq<char>) -> Seq<char>
    decreases s.len(),
{
    if s.len() == 0 {
        Seq::<char>::empty()
    } else if s[0] == '\\' {
        if s.len() == 1 {
            seq!['\\']
        } else {
            seq![unescape_char(s[1])] + irc_unescape(s.skip(2))
        }
    } else {
        seq![s[0]] + irc_unescape(s.drop_first())
    }
}

/// The IRCv3 escape of one character.
pub open spec fn escape_char(c: char) -> Seq<char> {
    if c == '\\' {
        seq!['\\', '\\']
    } else if c == ';' {
        seq!['\\', ':']
    } else if c == ' ' {
        seq!['\\', 's']
    } else if c == '\r' {
        seq!['\\', 'r']
    } else if c == '\n' {
        seq!['\\', 'n']
    } else {
        seq![c]
    }
}

/// IRCv3 tag value escaping, character by character.
pub open spec fn irc_escape(s: Seq<char>) -> Seq<char>
    decreases s.len(),
{
    if s.len() == 0 {
        Seq::<char>::empty()
    } else {
        escape_char(s[0]) + irc_escape(s.drop_first())
    }
}

/// Unescaping an escaped tag value gives the value back.
pub proof fn lemma_unescape_escape(s: Seq<char>)
    ensures
        irc_unescape(irc_escape(s)) == s,
    decreases s.len(),
{
    if s.len() > 0 {
        lemma_unescape_escape(s.drop_first());
        let e = irc_escape(s);
        let rest = irc_escape(s.drop_first());
        assert(e == escape_char(s[0]) + rest);
        let c = s[0];
        if c == '\\' || c == ';' || c == ' ' || c == '\r' || c == '\n' {
            assert(e[0] == '\\');
            assert(e.skip(2) =~= rest);
            assert(unescape_char(e[1]) == c);
            assert(irc_unescape(e) == seq![c] + irc_unescape(rest));
        } else {
            assert(e.drop_first() =~= rest);
            assert(irc_unescape(e) == seq![c] + irc_unescape(rest));
        }
        assert(seq![c] + s.drop_first() =~= s);
    }
}

/// Law: a value escaped for an outbound tag reads back unchanged.
pub proof fn escape_then_unescape_is_identity(s: Seq<char>)
    ensures
        irc_unescape(irc_escape(s)) == s,
{
    lemma_unescape_escape(s);
}

fn unescape_char_exec(c: char) -> (r: char)
    ensures
        r == unescape_char(c),
{
    if c == 's' {
        ' '
    } else if c == ':' {
        ';'
    } else if c == 'r' {
        '\r'
    } else if c == 'n' {
        '\n'
    } else {
        c
    }
}

/// Unescapes the characters `v[lo..hi]` of an IRCv3 tag value.
fn unescape_range(v: &Vec<char>, lo: usize, hi: usize) -> (r: String)
    requires
        lo <= hi <= v@.len(),
    ensures
        r@ == irc_unescape(v@.subrange(lo as int, hi as int)),
{
    let ghost s = v@.subrange(lo as int, hi as int);
    let mut r = String::new();
    let mut i = lo;
    proof {
        assert(s.skip(0) =~= s);
    }
    while i < hi
        invariant
            lo <= i <= hi <= v@.len(),
            s == v@.subrange(lo as int, hi as int),
            irc_unescape(s) == r@ + irc_unescape(s.skip(i - lo)),
        decreases hi - i,
    {
        let ghost t = s.skip(i - lo);
        let ghost before = r@;
        assert(t[0] == v@[i as int]);
        if v[i] == '\\' {
            if i + 1 < hi {
                push_char(&mut r, unescape_char_exec(v[i + 1]));
                proof {
                    assert(t[1] == v@[i + 1]);
                    assert(t.skip(2) =~= s.skip(i + 2 - lo));
                    assert(before + (seq![unescape_char(t[1])] + irc_unescape(t.skip(2))) =~= r@
                        + irc_unescape(s.skip(i + 2 - lo)));
                }
                i = i + 2;
            } else {
                push_char(&mut r, '\\');
                proof {
                    assert(t.len() == 1);
                    assert(s.skip(i + 1 - lo) =~= Seq::<char>::empty());
                    assert(r@ =~= r@ + irc_unescape(s.skip(i + 1 - lo)));
                }
                i = i + 1;
            }
        } else {
            push_char(&mut r, v[i]);
            proof {
                assert(t.drop_first() =~= s.skip(i + 1 - lo));
                assert(before + (seq![t[0]] + irc_unescape(t.drop_first())) =~= r@ + irc_unescape(
                    s.skip(i + 1 - lo),
                ));
            }
            i = i + 1;
        }
    }
    proof {
        assert(s.skip(hi - lo) =~= Seq::<char>::empty());
        assert(r@ + Seq::<char>::empty() =~= r@);
    }
    r
}

/// Unescapes an IRCv3 tag value (`\s`, `\:`, `\r`, `\n`, `\\`).
pub fn unescape_irc_tag_value(value: &str) -> (r: String)
    ensures
        r@ == irc_unescape(value@),
{
    let v = chars_of(value);
    assert(v@.subrange(0, v@.len() as int) =~= v@);
    unescape_range(&v, 0, v.len())
}

/// Escapes a value for an IRCv3 tag: `\` `;` space CR LF become `\\` `\:` `\s` `\r` `\n`.
pub fn escape_irc_tag_value(value: &str) -> (r: String)
    ensures
        r@ == irc_escape(value@),
{
    let v = chars_of(value);
    let mut r = String::new();
    let mut i: usize = 0;
    proof {
        assert(v@.skip(0) =~= v@);
    }
    while i < v.len()
        invariant
            i <= v@.len(),
            v@ == value@,
            irc_escape(v@) == r@ + irc_escape(v@.skip(i as int)),
        decreases v@.len() - i,
    {
        let c = v[i];
        let ghost before = r@;
        let ghost t = v@.skip(i as int);
        if c == '\\' {
            push_char(&mut r, '\\');
            push_char(&mut r, '\\');
        } else if c == ';' {
            push_char(&mut r, '\\');
            push_char(&mut r, ':');
        } else if c == ' ' {
            push_char(&mut r, '\\');
            push_char(&mut r, 's');
        } else if c == '\r' {
            push_char(&mut r, '\\');
            push_char(&mut r, 'r');
        } else if c == '\n' {
            push_char(&mut r, '\\');
            push_char(&mut r, 'n');
        } else {
            push_char(&mut r, c);
        }
        proof {
            assert(t[0] == c);
            assert(t.drop_first() =~= v@.skip(i + 1));
            assert(r@ =~= before + escape_char(c));
            assert(before + (escape_char(c) + irc_escape(t.drop_first())) =~= r@ + irc_escape(
                v@.skip(i + 1),
            ));
        }
        i = i + 1;
    }
    proof {
        assert(v@.skip(v@.len() as int) =~= Seq::<char>::empty());
        assert(r@ + Seq::<char>::empty() =~= r@);
    }
    r
}

/// The view of a list of string pairs.
pub open spec fn pairs_view(v: Seq<(String, String)>) -> Seq<(Seq<char>, Seq<char>)> {
    Seq::new(v.len(), |i: int| (v[i].0@, v[i].1@))
}

/// The view of an optional string.
pub open spec fn opt_view(o: Option<String>) -> Option<Seq<char>> {
    match o {
        Some(s) => Some(s@),
        None => None,
    }
}

/// One `key=value` tag; a piece without `=` is dropped.
pub open spec fn tag_entry(piece: Seq<char>) -> Option<(Seq<char>, Seq<char>)> {
    match split_once(piece, '=') {
        Some(kv) => Some((kv.0, irc_unescape(kv.1))),
        None => None,
    }
}

/// The tag entries of the `;`-separated pieces, in order.
pub open spec fn tag_entries(pieces: Seq<Seq<char>>) -> Seq<(Seq<char>, Seq<char>)>
    decreases pieces.len(),
{
    if pieces.len() == 0 {
        Seq::empty()
    } else {
        let prev = tag_entries(pieces.drop_last());
        match tag_entry(pieces.last()) {
            Some(e) => prev.push(e),
            None => prev,
        }
    }
}

/// The value of tag `key`; a later occurrence overrides an earlier one.
pub open spec fn tag_get(tags: Seq<(Seq<char>, Seq<char>)>, key: Seq<char>) -> Option<Seq<char>>
    decreases tags.len(),
{
    if tags.len() == 0 {
        None
    } else if tags.last().0 == key {
        Some(tags.last().1)
    } else {
        tag_get(tags.drop_last(), key)
    }
}

/// Splits an IRC line into its tags and the rest of the line.
pub open spec fn parse_tags_spec(line: Seq<char>) -> (Seq<(Seq<char>, Seq<char>)>, Seq<char>) {
    if line.len() > 0 && line[0] == '@' {
        match split_once(line.drop_first(), ' ') {
            Some(tr) => (tag_entries(split_all(tr.0, ';')), tr.1),
            None => (Seq::empty(), line),
        }
    } else {
        (Seq::empty(), line)
    }
}

/// The value of tag `key` in `tags`.
pub fn tag_value(tags: &Vec<(String, String)>, key: &str) -> (r: Option<String>)
    ensures
        opt_view(r) == tag_get(pairs_view(tags@), key@),
{
    let mut i = tags.len();
    assert(tags@.take(i as int) =~= tags@);
    while i > 0
        invariant
            i <= tags@.len(),
            tag_get(pairs_view(tags@), key@) == tag_get(pairs_view(tags@.take(i as int)), key@),
        decreases i,
    {
        let ghost p = pairs_view(tags@.take(i as int));
        proof {
            assert(p.drop_last() =~= pairs_view(tags@.take(i - 1)));
            assert(p.last() == (tags@[i - 1].0@, tags@[i - 1].1@));
        }
        if str_eq(tags[i - 1].0.as_str(), key) {
            return Some(tags[i - 1].1.clone());
        }
        i = i - 1;
    }
    assert(pairs_view(tags@.take(0)) =~= Seq::<(Seq<char>, Seq<char>)>::empty());
    None
}

/// Parses one `key=value` tag from `v[a..b]`.
fn parse_tag_entry(v: &Vec<char>, a: usize, b: usize) -> (r: Option<(String, String)>)
    requires
        a <= b <= v@.len(),
    ensures
        match r {
            Some(e) => tag_entry(v@.subrange(a as int, b as int)) == Some((e.0@, e.1@)),
            None => tag_entry(v@.subrange(a as int, b as int)) is None,
        },
{
    let ghost piece = v@.subrange(a as int, b as int);
    match find_char(v, a, b, '=') {
        Some(e) => {
            let key = string_from_range(v, a, e);
            let value = unescape_range(v, e + 1, b);
            proof {
                assert(piece.take(e - a) =~= v@.subrange(a as int, e as int));
                assert(piece.skip(e - a + 1) =~= v@.subrange(e + 1, b as int));
            }
            Some((key, value))
        },
        None => None,
    }
}

/// Parses the `;`-separated tag entries of `v[lo..hi]`.
fn parse_tag_entries(v: &Vec<char>, lo: usize, hi: usize) -> (r: Vec<(String, String)>)
    requires
        lo <= hi <= v@.len(),
    ensures
        pairs_view(r@) == tag_entries(split_all(v@.subrange(lo as int, hi as int), ';')),
{
    let ranges = split_ranges(v, lo, hi, ';');
    let ghost pieces = pieces_of(v@, ranges@);
    let mut r: Vec<(String, String)> = Vec::new();
    let mut k: usize = 0;
    while k < ranges.len()
        invariant
            k <= ranges@.len(),
            pieces == pieces_of(v@, ranges@),
            forall|j: int| 0 <= j < ranges@.len() ==> lo <= (#[trigger] ranges@[j]).0 <= ranges@[j].1 <= hi,
            hi <= v@.len(),
            pairs_view(r@) == tag_entries(pieces.take(k as int)),
        decreases ranges@.len() - k,
    {
        let (a, b) = ranges[k];
        proof {
            assert(pieces.take(k + 1).drop_last() =~= pieces.take(k as int));
            assert(pieces.take(k + 1).last() == v@.subrange(a as int, b as int));
        }
        let ghost old_r = r@;
        match parse_tag_entry(v, a, b) {
            Some(e) => {
                r.push(e);
                proof {
                    assert(pairs_view(r@) =~= pairs_view(old_r).push((e.0@, e.1@)));
                }
            },
            None => {},
        }
        k = k + 1;
    }
    assert(pieces.take(ranges@.len() as int) =~= pieces);
    r
}

/// Splits an IRC line into its tags and the rest of the line.
pub fn parse_tags(line: &str) -> (r: (Vec<(String, String)>, String))
    ensures
        (pairs_view(r.0@), r.1@) == parse_tags_spec(line@),
{
    let v = chars_of(line);
    if v.len() > 0 && v[0] == '@' {
        match find_char(&v, 1, v.len(), ' ') {
            Some(sp) => {
                let tags = parse_tag_entries(&v, 1, sp);
                let rest = string_from_range(&v, sp + 1, v.len());
                proof {
                    assert(v@.drop_first() =~= v@.subrange(1, v@.len() as int));
                    assert(v@.drop_first().take(sp - 1) =~= v@.subrange(1, sp as int));
                    assert(v@.drop_first().skip(sp - 1 + 1) =~= v@.subrange(sp + 1, v@.len() as int));
                }
                (tags, rest)
            },
            None => {
                proof {
                    assert(v@.drop_first() =~= v@.subrange(1, v@.len() as int));
                    assert(pairs_view(Seq::<(String, String)>::empty()) =~= Seq::<(Seq<char>, Seq<char>)>::empty());
                }
                (Vec::new(), owned(line))
            },
        }
    } else {
        assert(pairs_view(Seq::<(String, String)>::empty()) =~= Seq::<(Seq<char>, Seq<char>)>::empty());
        (Vec::new(), owned(line))
    }
}

} // verus!

verus! {

/// `str::strip_prefix` with a character pattern.
pub open spec fn strip_char(s: Seq<char>, c: char) -> Option<Seq<char>> {
    if s.len() > 0 && s[0] == c {
        Some(s.drop_first())
    } else {
        None
    }
}

/// `:prefix command params` split into its three parts.
pub open spec fn prefix_command_params(rest: Seq<char>) -> Option<(Seq<char>, Seq<char>, Seq<char>)> {
    match strip_char(rest, ':') {
        Some(r1) => match split_once(r1, ' ') {
            Some(pr) => match split_once(pr.1, ' ') {
                Some(cp) => Some((pr.0, cp.0, cp.1)),
                None => None,
            },
            None => None,
        },
        None => None,
    }
}

/// The part of `s` before the first `c`, or all of `s`.
pub open spec fn before_char(s: Seq<char>, c: char) -> Seq<char> {
    match first_index(s, c) {
        Some(i) => s.take(i),
        None => s,
    }
}

/// The nickname of the `:nick!user@host` prefix.
pub open spec fn prefix_username(rest: Seq<char>) -> Option<Seq<char>> {
    match strip_char(rest, ':') {
        Some(r1) => match split_once(r1, ' ') {
            Some(pr) => Some(before_char(pr.0, '!')),
            None => None,
        },
        None => None,
    }
}

/// Positions `(sp1, sp2)` of the two separating spaces of `:prefix command params` in `v`.
fn prefix_command_params_at(v: &Vec<char>) -> (r: Option<(usize, usize)>)
    ensures
        match r {
            Some(p) => 1 <= p.0 < p.1 < v@.len() && prefix_command_params(v@) == Some(
                (
                    v@.subrange(1, p.0 as int),
                    v@.subrange(p.0 + 1, p.1 as int),
                    v@.subrange(p.1 + 1, v@.len() as int),
                ),
            ),
            None => prefix_command_params(v@) is None,
        },
{
    if v.len() == 0 || v[0] != ':' {
        return None;
    }
    let ghost r1 = v@.drop_first();
    proof {
        assert(r1 =~= v@.subrange(1, v@.len() as int));
    }
    match find_char(v, 1, v.len(), ' ') {
        None => None,
        Some(sp1) => {
            proof {
                assert(r1.take(sp1 - 1) =~= v@.subrange(1, sp1 as int));
                assert(r1.skip(sp1 - 1 + 1) =~= v@.subrange(sp1 + 1, v@.len() as int));
            }
            match find_char(v, sp1 + 1, v.len(), ' ') {
                None => None,
                Some(sp2) => {
                    proof {
                        let t = v@.subrange(sp1 + 1, v@.len() as int);
                        assert(t.take(sp2 - (sp1 + 1)) =~= v@.subrange(sp1 + 1, sp2 as int));
                        assert(t.skip(sp2 - (sp1 + 1) + 1) =~= v@.subrange(sp2 + 1, v@.len() as int));
                    }
                    Some((sp1, sp2))
                },
            }
        },
    }
}

/// Splits `:prefix command params` into its three parts.
pub fn parse_prefix_command_params(rest: &str) -> (r: Option<(String, String, String)>)
    ensures
        match r {
            Some(t) => prefix_command_params(rest@) == Some((t.0@, t.1@, t.2@)),
            None => prefix_command_params(rest@) is None,
        },
{
    let v = chars_of(rest);
    let found = prefix_command_params_at(&v);
    match found {
        Some(p) => {
            let a = p.0;
            let b = p.1;
            let n = v.len();
            Some(
            (
                string_from_range(&v, 1, a),
                string_from_range(&v, a + 1, b),
                string_from_range(&v, b + 1, n),
            ),
        )
        },
        None => None,
    }
}

/// The nickname of the `:nick!user@host` prefix of `rest`.
pub fn parse_prefix_username(rest: &str) -> (r: Option<String>)
    ensures
        opt_view(r) == prefix_username(rest@),
{
    let v = chars_of(rest);
    if v.len() == 0 || v[0] != ':' {
        return None;
    }
    let ghost r1 = v@.drop_first();
    proof {
        assert(r1 =~= v@.subrange(1, v@.len() as int));
    }
    match find_char(&v, 1, v.len(), ' ') {
        None => None,
        Some(sp) => {
            let ghost prefix = v@.subrange(1, sp as int);
            proof {
                assert(r1.take(sp - 1) =~= prefix);
            }
            match find_char(&v, 1, sp, '!') {
                Some(bang) => {
                    proof {
                        assert(prefix.take(bang - 1) =~= v@.subrange(1, bang as int));
                    }
                    Some(string_from_range(&v, 1, bang))
                },
                None => Some(string_from_range(&v, 1, sp)),
            }
        },
    }
}

/// One badge of the `badges` tag: `id/version`, or `id` with version `1`.
pub open spec fn badge_entry(piece: Seq<char>) -> (Seq<char>, Seq<char>) {
    match split_once(piece, '/') {
        Some(iv) => iv,
        None => (piece, "1"@),
    }
}

/// The badges of the `,`-separated pieces; empty pieces are skipped.
pub open spec fn badge_entries(pieces: Seq<Seq<char>>) -> Seq<(Seq<char>, Seq<char>)>
    decreases pieces.len(),
{
    if pieces.len() == 0 {
        Seq::empty()
    } else {
        let prev = badge_entries(pieces.drop_last());
        if pieces.last().len() == 0 {
            prev
        } else {
            prev.push(badge_entry(pieces.last()))
        }
    }
}

/// The text of an optional tag value, empty when absent.
pub open spec fn or_empty(o: Option<Seq<char>>) -> Seq<char> {
    match o {
        Some(s) => s,
        None => Seq::empty(),
    }
}

/// The characters of an optional string slice, empty when absent.
fn chars_or_empty(value: Option<&str>) -> (v: Vec<char>)
    ensures
        v@ == or_empty(
            match value {
                Some(s) => Some(s@),
                None => None,
            },
        ),
{
    match value {
        Some(s) => chars_of(s),
        None => Vec::new(),
    }
}

/// Parses the `badges` tag into `(id, version)` pairs.
pub fn parse_badges_tag(value: Option<&str>) -> (r: Vec<(String, String)>)
    ensures
        pairs_view(r@) == badge_entries(
            split_all(
                or_empty(
                    match value {
                        Some(s) => Some(s@),
                        None => None,
                    },
                ),
                ',',
            ),
        ),
{
    let v = chars_or_empty(value);
    let ranges = split_ranges(&v, 0, v.len(), ',');
    proof {
        assert(v@.subrange(0, v@.len() as int) =~= v@);
    }
    let ghost pieces = pieces_of(v@, ranges@);
    let mut r: Vec<(String, String)> = Vec::new();
    let mut k: usize = 0;
    while k < ranges.len()
        invariant
            k <= ranges@.len(),
            pieces == pieces_of(v@, ranges@),
            forall|j: int| 0 <= j < ranges@.len() ==> 0 <= (#[trigger] ranges@[j]).0 <= ranges@[j].1 <= v@.len(),
            pairs_view(r@) == badge_entries(pieces.take(k as int)),
        decreases ranges@.len() - k,
    {
        let (a, b) = ranges[k];
        let ghost piece = v@.subrange(a as int, b as int);
        proof {
            assert(pieces.take(k + 1).drop_last() =~= pieces.take(k as int));
            assert(pieces.take(k + 1).last() == piece);
        }
        if a < b {
            let ghost old_r = r@;
            match find_char(&v, a, b, '/') {
                Some(sl) => {
                    r.push((string_from_range(&v, a, sl), string_from_range(&v, sl + 1, b)));
                    proof {
                        assert(piece.take(sl - a) =~= v@.subrange(a as int, sl as int));
                        assert(piece.skip(sl - a + 1) =~= v@.subrange(sl + 1, b as int));
                        assert(pairs_view(r@) =~= pairs_view(old_r).push(badge_entry(piece)));
                    }
                },
                None => {
                    r.push((string_from_range(&v, a, b), owned("1")));
                    proof {
                        assert(pairs_view(r@) =~= pairs_view(old_r).push(badge_entry(piece)));
                    }
                },
            }
        }
        k = k + 1;
    }
    assert(pieces.take(ranges@.len() as int) =~= pieces);
    r
}

} // verus!

verus! {

/// The characters of `text` covered by Twitch's inclusive emote range `start..=end`: taken as
/// byte offsets when both ends are character boundaries, else as character indices.
pub open spec fn twitch_slice(s: Seq<char>, start: int, end: int) -> Option<Seq<char>> {
    if end + 1 > usize::MAX {
        None
    } else if end + 1 <= byte_len(s) && char_index_at_byte(s, start) is Some && char_index_at_byte(
        s,
        end + 1,
    ) is Some {
        if char_index_at_byte(s, start)->0 <= char_index_at_byte(s, end + 1)->0 {
            Some(s.subrange(char_index_at_byte(s, start)->0, char_index_at_byte(s, end + 1)->0))
        } else {
            None
        }
    } else if start >= s.len() {
        None
    } else if start <= end + 1 {
        Some(s.subrange(start, if end + 1 < s.len() { end + 1 } else { s.len() as int }))
    } else {
        None
    }
}

/// The text of Twitch's inclusive emote range `start..=end` in `text`.
pub fn slice_inclusive_twitch_range(text: &str, start: usize, end: usize) -> (r: Option<String>)
    ensures
        opt_view(r) == twitch_slice(text@, start as int, end as int),
{
    if end == usize::MAX {
        return None;
    }
    let excl = end + 1;
    let v = chars_of(text);
    let total = str_byte_len(text);
    let offs = byte_offsets(&v, total);
    let n = v.len();
    if excl <= total {
        let a = index_of_offset(&v, &offs, start);
        let b = index_of_offset(&v, &offs, excl);
        if a.is_some() && b.is_some() {
            let a = a.unwrap();
            let b = b.unwrap();
            if a <= b {
                return Some(string_from_range(&v, a, b));
            } else {
                return None;
            }
        }
    }
    if start >= n {
        return None;
    }
    if start <= excl {
        let hi = if excl < n {
            excl
        } else {
            n
        };
        Some(string_from_range(&v, start, hi))
    } else {
        None
    }
}

/// `str::parse::<u32>`.
pub open spec fn parse_u32_spec(s: Seq<char>) -> Option<u32> {
    match parse_u64_spec(s) {
        Some(x) => if x <= u32::MAX {
            Some(x as u32)
        } else {
            None
        },
        None => None,
    }
}

fn parse_u32_range(v: &Vec<char>, lo: usize, hi: usize) -> (r: Option<u32>)
    requires
        lo <= hi <= v@.len(),
    ensures
        r == parse_u32_spec(v@.subrange(lo as int, hi as int)),
{
    match parse_u64_range(v, lo, hi) {
        Some(x) => if x <= 0xffff_ffff {
            Some(x as u32)
        } else {
            None
        },
        None => None,
    }
}

/// The spans named by the `,`-separated offset pieces of one emote.
pub open spec fn offset_spans(id: Seq<char>, offsets: Seq<Seq<char>>, text: Seq<char>) -> Seq<
    EmoteSpanView,
>
    decreases offsets.len(),
{
    if offsets.len() == 0 {
        Seq::empty()
    } else {
        let prev = offset_spans(id, offsets.drop_last(), text);
        match split_once(offsets.last(), '-') {
            Some(se) => match (parse_u32_spec(se.0), parse_u32_spec(se.1)) {
                (Some(a), Some(b)) => prev.push(
                    (id, or_empty(twitch_slice(text, a as int, b as int)), a, b),
                ),
                _ => prev,
            },
            None => prev,
        }
    }
}

/// The spans named by the `/`-separated emote groups `id:ranges`.
pub open spec fn group_spans(groups: Seq<Seq<char>>, text: Seq<char>) -> Seq<EmoteSpanView>
    decreases groups.len(),
{
    if groups.len() == 0 {
        Seq::empty()
    } else {
        let prev = group_spans(groups.drop_last(), text);
        if groups.last().len() == 0 {
            prev
        } else {
            match split_once(groups.last(), ':') {
                Some(io) => prev + offset_spans(io.0, split_all(io.1, ','), text),
                None => prev,
            }
        }
    }
}

/// The view of a list of emote spans.
pub open spec fn spans_view(v: Seq<TwitchEmoteSpan>) -> Seq<EmoteSpanView> {
    Seq::new(v.len(), |i: int| v[i]@)
}

/// The spans of one emote whose offsets are `v[lo..hi]`.
fn parse_offset_spans(v: &Vec<char>, id_lo: usize, id_hi: usize, lo: usize, hi: usize, text: &str) -> (r: Vec<
    TwitchEmoteSpan,
>)
    requires
        id_lo <= id_hi <= v@.len(),
        lo <= hi <= v@.len(),
    ensures
        spans_view(r@) == offset_spans(
            v@.subrange(id_lo as int, id_hi as int),
            split_all(v@.subrange(lo as int, hi as int), ','),
            text@,
        ),
{
    let ghost id = v@.subrange(id_lo as int, id_hi as int);
    let ranges = split_ranges(v, lo, hi, ',');
    let ghost pieces = pieces_of(v@, ranges@);
    let mut r: Vec<TwitchEmoteSpan> = Vec::new();
    let mut k: usize = 0;
    while k < ranges.len()
        invariant
            k <= ranges@.len(),
            id_lo <= id_hi <= v@.len(),
            id == v@.subrange(id_lo as int, id_hi as int),
            pieces == pieces_of(v@, ranges@),
            forall|j: int| 0 <= j < ranges@.len() ==> lo <= (#[trigger] ranges@[j]).0 <= ranges@[j].1 <= hi,
            hi <= v@.len(),
            spans_view(r@) == offset_spans(id, pieces.take(k as int), text@),
        decreases ranges@.len() - k,
    {
        let (a, b) = ranges[k];
        let ghost piece = v@.subrange(a as int, b as int);
        proof {
            assert(pieces.take(k + 1).drop_last() =~= pieces.take(k as int));
            assert(pieces.take(k + 1).last() == piece);
        }
        let ghost old_r = r@;
        match find_char(v, a, b, '-') {
            Some(d) => {
                proof {
                    assert(piece.take(d - a) =~= v@.subrange(a as int, d as int));
                    assert(piece.skip(d - a + 1) =~= v@.subrange(d + 1, b as int));
                }
                let s = parse_u32_range(v, a, d);
                let e = parse_u32_range(v, d + 1, b);
                if s.is_some() && e.is_some() {
                    let s = s.unwrap();
                    let e = e.unwrap();
                    let name = match slice_inclusive_twitch_range(text, s as usize, e as usize) {
                        Some(n) => n,
                        None => String::new(),
                    };
                    r.push(
                        TwitchEmoteSpan { id: string_from_range(v, id_lo, id_hi), name, start: s, end: e },
                    );
                    proof {
                        assert(spans_view(r@) =~= spans_view(old_r).push(
                            (id, or_empty(twitch_slice(text@, s as int, e as int)), s, e),
                        ));
                    }
                }
            },
            None => {},
        }
        k = k + 1;
    }
    assert(pieces.take(ranges@.len() as int) =~= pieces);
    r
}

/// Parses the `emotes` tag (`id:start-end,start-end/id:...`) against the message text.
pub fn parse_emotes_tag(value: Option<&str>, text: &str) -> (r: Vec<TwitchEmoteSpan>)
    ensures
        spans_view(r@) == group_spans(
            split_all(
                or_empty(
                    match value {
                        Some(s) => Some(s@),
                        None => None,
                    },
                ),
                '/',
            ),
            text@,
        ),
{
    let v = chars_or_empty(value);
    let ranges = split_ranges(&v, 0, v.len(), '/');
    proof {
        assert(v@.subrange(0, v@.len() as int) =~= v@);
    }
    let ghost pieces = pieces_of(v@, ranges@);
    let mut r: Vec<TwitchEmoteSpan> = Vec::new();
    let mut k: usize = 0;
    while k < ranges.len()
        invariant
            k <= ranges@.len(),
            pieces == pieces_of(v@, ranges@),
            forall|j: int| 0 <= j < ranges@.len() ==> 0 <= (#[trigger] ranges@[j]).0 <= ranges@[j].1 <= v@.len(),
            spans_view(r@) == group_spans(pieces.take(k as int), text@),
        decreases ranges@.len() - k,
    {
        let (a, b) = ranges[k];
        let ghost piece = v@.subrange(a as int, b as int);
        proof {
            assert(pieces.take(k + 1).drop_last() =~= pieces.take(k as int));
            assert(pieces.take(k + 1).last() == piece);
        }
        if a < b {
            match find_char(&v, a, b, ':') {
                Some(c) => {
                    proof {
                        assert(piece.take(c - a) =~= v@.subrange(a as int, c as int));
                        assert(piece.skip(c - a + 1) =~= v@.subrange(c + 1, b as int));
                    }
                    let mut more = parse_offset_spans(&v, a, c, c + 1, b, text);
                    let ghost old_r = r@;
                    let ghost m = more@;
                    r.append(&mut more);
                    proof {
                        assert(spans_view(r@) =~= spans_view(old_r) + spans_view(m));
                    }
                },
                None => {},
            }
        }
        k = k + 1;
    }
    assert(pieces.take(ranges@.len() as int) =~= pieces);
    r
}

} // verus!

verus! {

/// The tag value, or empty text when the tag is absent.
fn tag_or_empty(tags: &Vec<(String, String)>, key: &str) -> (r: String)
    ensures
        r@ == or_empty(tag_get(pairs_view(tags@), key@)),
{
    match tag_value(tags, key) {
        Some(v) => v,
        None => String::new(),
    }
}

/// The CTCP `ACTION` prefix, `\x01ACTION `.
pub open spec fn action_prefix() -> Seq<char> {
    seq!['\u{1}', 'A', 'C', 'T', 'I', 'O', 'N', ' ']
}

/// The text of a PRIVMSG and whether it is a CTCP ACTION (`\x01ACTION text\x01`).
pub open spec fn message_text(s: Seq<char>) -> (Seq<char>, bool) {
    if s.len() >= 9 && s.take(8) == action_prefix() && s.last() == '\u{1}' {
        (s.subrange(8, s.len() - 1), true)
    } else {
        (s, false)
    }
}

/// Splits a CTCP ACTION off a PRIVMSG text.
pub fn parse_message_text(text: &str) -> (r: (String, bool))
    ensures
        (r.0@, r.1) == message_text(text@),
{
    let v = chars_of(text);
    let n = v.len();
    if n >= 9 && v[0] == '\u{1}' && v[1] == 'A' && v[2] == 'C' && v[3] == 'T' && v[4] == 'I' && v[5]
        == 'O' && v[6] == 'N' && v[7] == ' ' && v[n - 1] == '\u{1}' {
        proof {
            assert(v@.take(8) =~= action_prefix());
        }
        (string_from_range(&v, 8, n - 1), true)
    } else {
        proof {
            if n >= 9 && v@.take(8) == action_prefix() {
                assert(v@.take(8)[0] == v@[0]);
                assert(v@.take(8)[1] == v@[1]);
                assert(v@.take(8)[2] == v@[2]);
                assert(v@.take(8)[3] == v@[3]);
                assert(v@.take(8)[4] == v@[4]);
                assert(v@.take(8)[5] == v@[5]);
                assert(v@.take(8)[6] == v@[6]);
                assert(v@.take(8)[7] == v@[7]);
            }
        }
        (owned(text), false)
    }
}

/// A channel name trimmed, without leading `#`, lowercased.
pub open spec fn normalized_channel(channel: Seq<char>) -> Seq<char> {
    unicode_lowercase(trim_start_char(trim(channel), '#'))
}

/// A channel name trimmed, without leading `#`, lowercased.
pub fn normalize_channel(channel: &str) -> (r: String)
    ensures
        r@ == normalized_channel(channel@),
{
    let t = trimmed(channel);
    let s = trim_start_matches(t.as_str(), '#');
    to_lowercase(s.as_str())
}

/// The reply parent named by the `reply-parent-*` tags, if id, body and author id are all set.
pub open spec fn reply_spec(tags: Seq<(Seq<char>, Seq<char>)>) -> Option<ChatReplyView> {
    match (
        tag_get(tags, "reply-parent-msg-id"@),
        tag_get(tags, "reply-parent-msg-body"@),
        tag_get(tags, "reply-parent-user-id"@),
    ) {
        (Some(id), Some(body), Some(author)) => {
            let username = or_empty(tag_get(tags, "reply-parent-user-login"@));
            let display_name = match tag_get(tags, "reply-parent-display-name"@) {
                Some(d) => d,
                None => username,
            };
            Some((id, body, author, username, display_name))
        },
        _ => None,
    }
}

/// The reply parent named by the `reply-parent-*` tags.
pub fn parse_reply(tags: &Vec<(String, String)>) -> (r: Option<ChatReply>)
    ensures
        match r {
            Some(reply) => reply_spec(pairs_view(tags@)) == Some(reply@),
            None => reply_spec(pairs_view(tags@)) is None,
        },
{
    let id = tag_value(tags, "reply-parent-msg-id");
    let body = tag_value(tags, "reply-parent-msg-body");
    let author = tag_value(tags, "reply-parent-user-id");
    if id.is_none() || body.is_none() || author.is_none() {
        return None;
    }
    let username = tag_or_empty(tags, "reply-parent-user-login");
    let display_name = match tag_value(tags, "reply-parent-display-name") {
        Some(d) => d,
        None => username.clone(),
    };
    Some(
        ChatReply {
            parent_message_id: id.unwrap(),
            parent_message_text: body.unwrap(),
            parent_author: ReplyAuthor { id: author.unwrap(), username, display_name },
        },
    )
}

/// The month count of a subscription notice; 1 when missing or not a number.
pub open spec fn notice_months(tags: Seq<(Seq<char>, Seq<char>)>) -> u64 {
    let raw = match tag_get(tags, "msg-param-cumulative-months"@) {
        Some(m) => Some(m),
        None => tag_get(tags, "msg-param-months"@),
    };
    match raw {
        Some(m) => match parse_u64_spec(m) {
            Some(n) => n,
            None => 1,
        },
        None => 1,
    }
}

/// The month count of a subscription notice.
pub fn parse_notice_months(tags: &Vec<(String, String)>) -> (r: u64)
    ensures
        r == notice_months(pairs_view(tags@)),
{
    let raw = match tag_value(tags, "msg-param-cumulative-months") {
        Some(m) => Some(m),
        None => tag_value(tags, "msg-param-months"),
    };
    match raw {
        Some(m) => match parse_u64(m.as_str()) {
            Some(n) => n,
            None => 1,
        },
        None => 1,
    }
}

/// The month count of a subscription notice is read from `msg-param-cumulative-months` when that
/// tag holds a number, whatever `msg-param-months` holds; `msg-param-months` counts only when
/// the cumulative tag is absent; the count is 1 when the tag read holds no number or neither
/// tag is there; the sub, resub and gift events of a USERNOTICE carry that count.
pub proof fn notice_months_prefer_the_cumulative_count(
    tags: Seq<(Seq<char>, Seq<char>)>,
    rest: Seq<char>,
    now: u64,
    value: Seq<char>,
    n: u64,
)
    ensures
        tag_get(tags, "msg-param-cumulative-months"@) == Some(value) && parse_u64_spec(value) == Some(n)
            ==> notice_months(tags) == n,
        tag_get(tags, "msg-param-cumulative-months"@) is None && tag_get(tags, "msg-param-months"@) == Some(value)
            && parse_u64_spec(value) == Some(n) ==> notice_months(tags) == n,
        tag_get(tags, "msg-param-cumulative-months"@) is None && tag_get(tags, "msg-param-months"@) is None
            ==> notice_months(tags) == 1,
        tag_get(tags, "msg-param-cumulative-months"@) == Some(value) && parse_u64_spec(value) is None
            ==> notice_months(tags) == 1,
        tag_get(tags, "msg-param-cumulative-months"@) is None && tag_get(tags, "msg-param-months"@) == Some(value)
            && parse_u64_spec(value) is None ==> notice_months(tags) == 1,
        tag_get(tags, "msg-param-cumulative-months"@) == Some(value) && parse_u64_spec(value) == Some(n)
            ==> match usernotice_spec(tags, rest, now) {
            Some(TwitchChatEventView::Sub { months, .. }) => months == n,
            Some(TwitchChatEventView::Resub { months, .. }) => months == n,
            Some(TwitchChatEventView::GiftSub { months, .. }) => months == n,
            _ => true,
        },
{
}

/// The chat message a PRIVMSG line carries, given its tags and the rest of the line; `now` is
/// the current Unix time in seconds, used when the line has no `tmi-sent-ts` tag.
pub open spec fn privmsg_spec(tags: Seq<(Seq<char>, Seq<char>)>, rest: Seq<char>, now: u64) -> Option<
    TwitchChatMessageView,
> {
    match prefix_command_params(rest) {
        None => None,
        Some(pcp) => if pcp.1 != "PRIVMSG"@ {
            None
        } else {
            match split_once_seq(pcp.2, " :"@) {
                None => None,
                Some(ct) => {
                    let channel = normalized_channel(trim(ct.0));
                    let username = match tag_get(tags, "login"@) {
                        Some(u) => u,
                        None => or_empty(prefix_username(rest)),
                    };
                    let display_name = match tag_get(tags, "display-name"@) {
                        Some(d) => if d.len() > 0 {
                            d
                        } else {
                            username
                        },
                        None => username,
                    };
                    let user_id = or_empty(tag_get(tags, "user-id"@));
                    let text = message_text(ct.1);
                    let timestamp = match tag_get(tags, "tmi-sent-ts"@) {
                        Some(t) => t,
                        None => decimal(now as nat),
                    };
                    Some(
                        TwitchChatMessageView {
                            id: match tag_get(tags, "id"@) {
                                Some(i) => i,
                                None => "twitch:"@ + user_id + ":"@ + timestamp,
                            },
                            channel,
                            user_id,
                            username,
                            display_name,
                            color: match tag_get(tags, "color"@) {
                                Some(c) => if c.len() > 0 {
                                    Some(c)
                                } else {
                                    None
                                },
                                None => None,
                            },
                            avatar_url: None,
                            text: text.0,
                            timestamp,
                            badges: badge_entries(split_all(or_empty(tag_get(tags, "badges"@)), ',')),
                            emotes: group_spans(
                                split_all(or_empty(tag_get(tags, "emotes"@)), '/'),
                                text.0,
                            ),
                            is_action: text.1,
                            reply: reply_spec(tags),
                            bits: match tag_get(tags, "bits"@) {
                                Some(b) => parse_u64_spec(b),
                                None => None,
                            },
                        },
                    )
                },
            }
        },
    }
}

/// Reads the chat message of a PRIVMSG line from its tags and the rest of the line.
pub fn parse_privmsg(tags: &Vec<(String, String)>, rest: &str, now: u64) -> (r: Option<TwitchChatMessage>)
    ensures
        match r {
            Some(m) => privmsg_spec(pairs_view(tags@), rest@, now) == Some(m@),
            None => privmsg_spec(pairs_view(tags@), rest@, now) is None,
        },
{
    let pcp = match parse_prefix_command_params(rest) {
        Some(t) => t,
        None => return None,
    };
    if !str_eq(pcp.1.as_str(), "PRIVMSG") {
        return None;
    }
    let ct = match split_once_str(pcp.2.as_str(), " :") {
        Some(t) => t,
        None => return None,
    };
    let channel_trimmed = trimmed(ct.0.as_str());
    let channel = normalize_channel(channel_trimmed.as_str());
    let username = match tag_value(tags, "login") {
        Some(u) => u,
        None => match parse_prefix_username(rest) {
            Some(u) => u,
            None => String::new(),
        },
    };
    let display_name = match tag_value(tags, "display-name") {
        Some(d) => if !d.as_str().is_empty() {
            d
        } else {
            username.clone()
        },
        None => username.clone(),
    };
    let user_id = tag_or_empty(tags, "user-id");
    let (text, is_action) = parse_message_text(ct.1.as_str());
    let emotes_tag = tag_value(tags, "emotes");
    let emotes = match &emotes_tag {
        Some(e) => parse_emotes_tag(Some(e.as_str()), text.as_str()),
        None => parse_emotes_tag(None, text.as_str()),
    };
    let badges_tag = tag_value(tags, "badges");
    let badges = match &badges_tag {
        Some(b) => parse_badges_tag(Some(b.as_str())),
        None => parse_badges_tag(None),
    };
    let reply = parse_reply(tags);
    let timestamp = match tag_value(tags, "tmi-sent-ts") {
        Some(t) => t,
        None => u64_to_string(now),
    };
    let id = match tag_value(tags, "id") {
        Some(i) => i,
        None => {
            let mut i = owned("twitch:");
            push_str(&mut i, user_id.as_str());
            push_str(&mut i, ":");
            push_str(&mut i, timestamp.as_str());
            i
        },
    };
    let color = match tag_value(tags, "color") {
        Some(c) => if !c.as_str().is_empty() {
            Some(c)
        } else {
            None
        },
        None => None,
    };
    let bits = match tag_value(tags, "bits") {
        Some(b) => parse_u64(b.as_str()),
        None => None,
    };
    let m = TwitchChatMessage {
        id,
        channel,
        user_id,
        username,
        display_name,
        color,
        avatar_url: None,
        text,
        timestamp,
        badges,
        emotes,
        is_action,
        reply,
        bits,
    };
    proof {
        assert(m@.badges =~= badge_entries(split_all(or_empty(tag_get(pairs_view(tags@), "badges"@)), ',')));
        assert(m@.emotes =~= group_spans(split_all(or_empty(tag_get(pairs_view(tags@), "emotes"@)), '/'), text@));
    }
    Some(m)
}

} // verus!

verus! {

/// The subscription or raid notice a USERNOTICE line carries; `now` is the current Unix time
/// in seconds, used when the line has no `id` tag.
pub open spec fn usernotice_spec(tags: Seq<(Seq<char>, Seq<char>)>, rest: Seq<char>, now: u64) -> Option<
    TwitchChatEventView,
> {
    match prefix_command_params(rest) {
        None => None,
        Some(pcp) => if pcp.1 != "USERNOTICE"@ {
            None
        } else {
            match tag_get(tags, "msg-id"@) {
                None => None,
                Some(notice) => {
                    let channel_id = match first_word(pcp.2) {
                        Some(w) => normalized_channel(w),
                        None => Seq::empty(),
                    };
                    let id = match tag_get(tags, "id"@) {
                        Some(i) => i,
                        None => "twitch:"@ + notice + ":"@ + decimal(now as nat),
                    };
                    let user_id = or_empty(tag_get(tags, "user-id"@));
                    let display_name = match tag_get(tags, "display-name"@) {
                        Some(d) => if d.len() > 0 {
                            d
                        } else {
                            user_id
                        },
                        None => user_id,
                    };
                    let system_message = tag_get(tags, "system-msg"@);
                    if notice == "sub"@ {
                        Some(
                            TwitchChatEventView::Sub {
                                id,
                                channel_id,
                                user_id,
                                display_name,
                                months: notice_months(tags),
                                system_message,
                            },
                        )
                    } else if notice == "resub"@ {
                        Some(
                            TwitchChatEventView::Resub {
                                id,
                                channel_id,
                                user_id,
                                display_name,
                                months: notice_months(tags),
                                system_message,
                            },
                        )
                    } else if notice == "subgift"@ || notice == "anonsubgift"@ {
                        Some(
                            TwitchChatEventView::GiftSub {
                                id,
                                channel_id,
                                user_id,
                                display_name,
                                recipient_display_name: match tag_get(
                                    tags,
                                    "msg-param-recipient-display-name"@,
                                ) {
                                    Some(n) => n,
                                    None => or_empty(
                                        tag_get(tags, "msg-param-recipient-user-name"@),
                                    ),
                                },
                                months: notice_months(tags),
                                system_message,
                            },
                        )
                    } else if notice == "raid"@ {
                        Some(
                            TwitchChatEventView::Raid {
                                id,
                                channel_id,
                                user_id,
                                display_name,
                                viewer_count: match tag_get(tags, "msg-param-viewerCount"@) {
                                    Some(v) => match parse_u64_spec(v) {
                                        Some(n) => n,
                                        None => 0,
                                    },
                                    None => 0,
                                },
                                system_message,
                            },
                        )
                    } else {
                        None
                    }
                },
            }
        },
    }
}

/// Reads the subscription or raid notice of a USERNOTICE line.
pub fn parse_usernotice(tags: &Vec<(String, String)>, rest: &str, now: u64) -> (r: Option<
    TwitchChatEvent,
>)
    ensures
        match r {
            Some(e) => usernotice_spec(pairs_view(tags@), rest@, now) == Some(e@),
            None => usernotice_spec(pairs_view(tags@), rest@, now) is None,
        },
{
    let pcp = match parse_prefix_command_params(rest) {
        Some(t) => t,
        None => return None,
    };
    if !str_eq(pcp.1.as_str(), "USERNOTICE") {
        return None;
    }
    let notice = match tag_value(tags, "msg-id") {
        Some(n) => n,
        None => return None,
    };
    let channel_id = match first_word_of(pcp.2.as_str()) {
        Some(w) => normalize_channel(w.as_str()),
        None => String::new(),
    };
    let id = match tag_value(tags, "id") {
        Some(i) => i,
        None => {
            let mut i = owned("twitch:");
            push_str(&mut i, notice.as_str());
            push_str(&mut i, ":");
            let now_text = u64_to_string(now);
            push_str(&mut i, now_text.as_str());
            i
        },
    };
    let user_id = tag_or_empty(tags, "user-id");
    let display_name = match tag_value(tags, "display-name") {
        Some(d) => if !d.as_str().is_empty() {
            d
        } else {
            user_id.clone()
        },
        None => user_id.clone(),
    };
    let system_message = tag_value(tags, "system-msg");
    if str_eq(notice.as_str(), "sub") {
        let months = parse_notice_months(tags);
        Some(TwitchChatEvent::Sub { id, channel_id, user_id, display_name, months, system_message })
    } else if str_eq(notice.as_str(), "resub") {
        let months = parse_notice_months(tags);
        Some(TwitchChatEvent::Resub { id, channel_id, user_id, display_name, months, system_message })
    } else if str_eq(notice.as_str(), "subgift") || str_eq(notice.as_str(), "anonsubgift") {
        let recipient_display_name = match tag_value(tags, "msg-param-recipient-display-name") {
            Some(n) => n,
            None => tag_or_empty(tags, "msg-param-recipient-user-name"),
        };
        let months = parse_notice_months(tags);
        Some(
            TwitchChatEvent::GiftSub {
                id,
                channel_id,
                user_id,
                display_name,
                recipient_display_name,
                months,
                system_message,
            },
        )
    } else if str_eq(notice.as_str(), "raid") {
        let viewer_count = match tag_value(tags, "msg-param-viewerCount") {
            Some(v) => match parse_u64(v.as_str()) {
                Some(n) => n,
                None => 0,
            },
            None => 0,
        };
        Some(TwitchChatEvent::Raid { id, channel_id, user_id, display_name, viewer_count, system_message })
    } else {
        None
    }
}

/// What an IRC line carries for the chat: a message or a notice.
pub enum ParsedTwitchLine {
    Message(Box<TwitchChatMessage>),
    Event(TwitchChatEvent),
}

/// What an IRC line carries, as views.
pub enum ParsedLineView {
    Message(TwitchChatMessageView),
    Event(TwitchChatEventView),
}

impl View for ParsedTwitchLine {
    type V = ParsedLineView;

    open spec fn view(&self) -> ParsedLineView {
        match self {
            ParsedTwitchLine::Message(m) => ParsedLineView::Message(m@),
            ParsedTwitchLine::Event(e) => ParsedLineView::Event(e@),
        }
    }
}

/// What an IRC line carries: a PRIVMSG gives a message, a USERNOTICE an event, anything else
/// nothing.
pub open spec fn irc_line_spec(line: Seq<char>, now: u64) -> Option<ParsedLineView> {
    let tr = parse_tags_spec(line);
    if contains_seq(tr.1, " PRIVMSG "@) {
        match privmsg_spec(tr.0, tr.1, now) {
            Some(m) => Some(ParsedLineView::Message(m)),
            None => None,
        }
    } else if contains_seq(tr.1, " USERNOTICE "@) {
        match usernotice_spec(tr.0, tr.1, now) {
            Some(e) => Some(ParsedLineView::Event(e)),
            None => None,
        }
    } else {
        None
    }
}

/// Parses one IRC line; `now` is the current Unix time in seconds.
pub fn parse_irc_line(line: &str, now: u64) -> (r: Option<ParsedTwitchLine>)
    ensures
        match r {
            Some(p) => irc_line_spec(line@, now) == Some(p@),
            None => irc_line_spec(line@, now) is None,
        },
{
    let (tags, rest) = parse_tags(line);
    if str_contains(rest.as_str(), " PRIVMSG ") {
        match parse_privmsg(&tags, rest.as_str(), now) {
            Some(m) => Some(ParsedTwitchLine::Message(Box::new(m))),
            None => None,
        }
    } else if str_contains(rest.as_str(), " USERNOTICE ") {
        match parse_usernotice(&tags, rest.as_str(), now) {
            Some(e) => Some(ParsedTwitchLine::Event(e)),
            None => None,
        }
    } else {
        None
    }
}

/// The current Unix time in whole seconds (0 before the epoch).
#[verifier::external_body]
pub fn current_unix_timestamp() -> u64 {
    match std::time::SystemTime::now().duration_since(std::time::UNIX_EPOCH) {
        Ok(d) => d.as_secs(),
        Err(_) => 0,
    }
}

/// Parses one IRC line at the current time.
pub fn parse_irc_line_now(line: &str) -> (r: Option<ParsedTwitchLine>)
    ensures
        exists|now: u64|
            match r {
                Some(p) => irc_line_spec(line@, now) == Some(p@),
                None => irc_line_spec(line@, now) is None,
            },
{
    let now = current_unix_timestamp();
    parse_irc_line(line, now)
}

/// A value holds a character that would end or split an IRC line.
pub open spec fn breaks_irc_line(s: Seq<char>) -> bool {
    exists|i: int| 0 <= i < s.len() && (s[i] == '\r' || s[i] == '\n' || s[i] == '\0')
}

/// Refuses a value that would end or split the outbound IRC line.
pub fn validate_irc_parameter(field: &str, value: &str) -> (r: Result<(), PlatformError>)
    ensures
        breaks_irc_line(value@) ==> r is Err && r->Err_0.platform == Platform::Twitch
            && r->Err_0.message@ == "Twitch "@ + field@ + " must be a single IRC line"@,
        !breaks_irc_line(value@) ==> r is Ok,
{
    let v = chars_of(value);
    let mut i: usize = 0;
    while i < v.len()
        invariant
            i <= v@.len(),
            v@ == value@,
            forall|j: int| 0 <= j < i ==> !(v@[j] == '\r' || v@[j] == '\n' || v@[j] == '\0'),
        decreases v@.len() - i,
    {
        let c = v[i];
        if c == '\r' || c == '\n' || c == '\0' {
            let mut m = owned("Twitch ");
            push_str(&mut m, field);
            push_str(&mut m, " must be a single IRC line");
            return Err(PlatformError::new(Platform::Twitch, m));
        }
        i = i + 1;
    }
    Ok(())
}

/// A Twitch channel login: 1 to 25 bytes of ASCII lowercase letters, digits and `_`.
pub open spec fn valid_channel_name(s: Seq<char>) -> bool {
    &&& s.len() > 0
    &&& byte_len(s) <= 25
    &&& forall|i: int| 0 <= i < s.len() ==> ('a' <= #[trigger] s[i] <= 'z' || '0' <= s[i] <= '9' || s[i] == '_')
}

/// Refuses a channel name that is not a Twitch login.
pub fn validate_channel_name(channel: &str) -> (r: Result<(), PlatformError>)
    ensures
        valid_channel_name(channel@) ==> r is Ok,
        !valid_channel_name(channel@) ==> r is Err && r->Err_0.platform == Platform::Twitch
            && r->Err_0.message@ == "Invalid Twitch channel name: "@ + channel@,
{
    let v = chars_of(channel);
    let blen = str_byte_len(channel);
    let mut ok = v.len() > 0 && blen <= 25;
    let mut i: usize = 0;
    while ok && i < v.len()
        invariant
            i <= v@.len(),
            v@ == channel@,
            ok ==> forall|j: int| 0 <= j < i ==> ('a' <= #[trigger] v@[j] <= 'z' || '0' <= v@[j] <= '9'
                || v@[j] == '_'),
            ok ==> v@.len() > 0 && byte_len(v@) <= 25,
            !ok ==> !valid_channel_name(channel@),
        decreases v@.len() - i,
    {
        let c = v[i];
        if !(('a' <= c && c <= 'z') || ('0' <= c && c <= '9') || c == '_') {
            ok = false;
        }
        i = i + 1;
    }
    if ok {
        Ok(())
    } else {
        let mut m = owned("Invalid Twitch channel name: ");
        push_str(&mut m, channel);
        Err(PlatformError::new(Platform::Twitch, m))
    }
}

} // verus!

verus! {

/// The PRIVMSG command line sent for a message, optionally as a reply.
pub open spec fn privmsg_command(channel: Seq<char>, text: Seq<char>, reply_to: Option<Seq<char>>) -> Seq<
    char,
> {
    match reply_to {
        Some(id) => "@reply-parent-msg-id="@ + irc_escape(id) + " PRIVMSG #"@ + channel + " :"@ + text
            + "\r\n"@,
        None => "PRIVMSG #"@ + channel + " :"@ + text + "\r\n"@,
    }
}

/// The outcome of preparing an outbound message: the error, in the order the checks run, or
/// the command line to send.
pub open spec fn outbound_spec(
    channel_id: Seq<char>,
    text: Seq<char>,
    reply_to: Option<Seq<char>>,
    connected: bool,
) -> Result<Seq<char>, Seq<char>> {
    if breaks_irc_line(text) {
        Err("Twitch "@ + "message text"@ + " must be a single IRC line"@)
    } else if reply_to is Some && breaks_irc_line(reply_to->0) {
        Err("Twitch "@ + "reply message id"@ + " must be a single IRC line"@)
    } else if !connected {
        Err("Twitch IRC socket not connected"@)
    } else if !valid_channel_name(normalized_channel(channel_id)) {
        Err("Invalid Twitch channel name: "@ + normalized_channel(channel_id))
    } else {
        Ok(privmsg_command(normalized_channel(channel_id), text, reply_to))
    }
}

/// A reply goes out threaded to its parent: whenever a message with the reply id `id` is
/// accepted, the same message without it is accepted too, and the reply's command is that
/// command with the tag `@reply-parent-msg-id=` and the escaped id put in front, so the two
/// differ. A message without a reply id is a bare `PRIVMSG` command.
pub proof fn replies_carry_their_parent_tag(channel_id: Seq<char>, text: Seq<char>, id: Seq<char>, connected: bool)
    ensures
        outbound_spec(channel_id, text, Some(id), connected) is Ok ==> {
            &&& outbound_spec(channel_id, text, None, connected) is Ok
            &&& outbound_spec(channel_id, text, Some(id), connected)->Ok_0 == "@reply-parent-msg-id="@ + irc_escape(id)
                + " "@ + outbound_spec(channel_id, text, None, connected)->Ok_0
            &&& outbound_spec(channel_id, text, Some(id), connected)->Ok_0 != outbound_spec(
                channel_id,
                text,
                None,
                connected,
            )->Ok_0
        },
        outbound_spec(channel_id, text, None, connected) is Ok ==> outbound_spec(channel_id, text, None, connected)->Ok_0
            == "PRIVMSG #"@ + normalized_channel(channel_id) + " :"@ + text + "\r\n"@,
{
    reveal_strlit("@reply-parent-msg-id=");
    reveal_strlit(" ");
    reveal_strlit(" PRIVMSG #");
    reveal_strlit("PRIVMSG #");
    if outbound_spec(channel_id, text, Some(id), connected) is Ok {
        let c = normalized_channel(channel_id);
        let plain = "PRIVMSG #"@ + c + " :"@ + text + "\r\n"@;
        let with = "@reply-parent-msg-id="@ + irc_escape(id) + " PRIVMSG #"@ + c + " :"@ + text + "\r\n"@;
        assert(with =~= "@reply-parent-msg-id="@ + irc_escape(id) + " "@ + plain);
        assert(with.len() > plain.len());
    }
}

/// Checks an outbound message and builds its IRC command; `connected` tells whether the chat
/// socket is open.
pub fn prepare_privmsg_command(
    channel_id: &str,
    text: &str,
    reply_to_message_id: Option<&str>,
    connected: bool,
) -> (r: Result<String, PlatformError>)
    ensures
        match outbound_spec(
            channel_id@,
            text@,
            match reply_to_message_id {
                Some(s) => Some(s@),
                None => None,
            },
            connected,
        ) {
            Ok(c) => r is Ok && r->Ok_0@ == c,
            Err(m) => r is Err && r->Err_0.platform == Platform::Twitch && r->Err_0.message@ == m,
        },
{
    match validate_irc_parameter("message text", text) {
        Err(e) => return Err(e),
        Ok(()) => {},
    }
    match reply_to_message_id {
        Some(id) => match validate_irc_parameter("reply message id", id) {
            Err(e) => return Err(e),
            Ok(()) => {},
        },
        None => {},
    }
    if !connected {
        return Err(PlatformError::new(Platform::Twitch, owned("Twitch IRC socket not connected")));
    }
    let channel = normalize_channel(channel_id);
    match validate_channel_name(channel.as_str()) {
        Err(e) => return Err(e),
        Ok(()) => {},
    }
    let mut command = String::new();
    match reply_to_message_id {
        Some(id) => {
            push_str(&mut command, "@reply-parent-msg-id=");
            let escaped = escape_irc_tag_value(id);
            push_str(&mut command, escaped.as_str());
            push_str(&mut command, " PRIVMSG #");
        },
        None => {
            push_str(&mut command, "PRIVMSG #");
        },
    }
    push_str(&mut command, channel.as_str());
    push_str(&mut command, " :");
    push_str(&mut command, text);
    push_str(&mut command, "\r\n");
    proof {
        match reply_to_message_id {
            Some(id) => {
                assert(command@ =~= privmsg_command(channel@, text@, Some(id@)));
            },
            None => {
                assert(command@ =~= privmsg_command(channel@, text@, None));
            },
        }
    }
    Ok(command)
}

/// At most 500 characters of the trimmed body, with `...` appended when it was cut.
pub open spec fn snippet(value: Seq<char>) -> Seq<char> {
    if trim(value).len() <= 500 {
        trim(value)
    } else {
        trim(value).take(500) + "..."@
    }
}

/// A short excerpt of a response body for error messages.
pub fn body_snippet(value: &str) -> (r: String)
    ensures
        r@ == snippet(value@),
{
    let v = chars_of(value);
    let (a, b) = crate::text::trim_bounds(&v);
    if b - a <= 500 {
        string_from_range(&v, a, b)
    } else {
        let mut s = string_from_range(&v, a, a + 500);
        push_str(&mut s, "...");
        proof {
            assert(v@.subrange(a as int, b as int).take(500) =~= v@.subrange(a as int, a + 500));
        }
        s
    }
}

/// A trimmed avatar address, or nothing when it is blank.
pub open spec fn non_blank(value: Option<Seq<char>>) -> Option<Seq<char>> {
    match value {
        Some(v) => if trim(v).len() > 0 {
            Some(trim(v))
        } else {
            None
        },
        None => None,
    }
}

/// A trimmed avatar address, or nothing when it is blank.
pub fn normalize_avatar_url(value: Option<String>) -> (r: Option<String>)
    ensures
        opt_view(r) == non_blank(opt_view(value)),
{
    match value {
        Some(v) => {
            let t = trimmed(v.as_str());
            if t.as_str().is_empty() {
                None
            } else {
                Some(t)
            }
        },
        None => None,
    }
}

} // verus!
