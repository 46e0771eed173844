//! Mention and emote autocomplete for the chat composer.
use crate::chat::aggregate::SevenTvEmote;
use crate::protocol::types::Platform;
use crate::text::{
    byte_len, byte_offsets, char_index_at_byte, chars_of, first_index, index_of_offset, is_whitespace, is_ws,
    lemma_byte_len_bounds, owned, push_char, push_str, str_byte_len, string_from_range, to_lowercase,
    unicode_lowercase,
};
use std::ops::Range;
use vstd::prelude::*;

verus! {

/// An `@name` being typed at the end of the composer text.
#[derive(Debug, PartialEq, Eq)]
pub struct ParsedMentionToken {
    pub query: String,
    pub range: Range<usize>,
}

impl Clone for ParsedMentionToken {
    fn clone(&self) -> (r: Self)
        ensures
            r == *self,
    {
        ParsedMentionToken { query: self.query.clone(), range: Range { start: self.range.start, end: self.range.end } }
    }
}

/// A `:name` being typed at the end of the composer text.
#[derive(Debug, PartialEq, Eq)]
pub struct ParsedEmoteToken {
    pub query: String,
    pub range: Range<usize>,
}

impl Clone for ParsedEmoteToken {
    fn clone(&self) -> (r: Self)
        ensures
            r == *self,
    {
        ParsedEmoteToken { query: self.query.clone(), range: Range { start: self.range.start, end: self.range.end } }
    }
}

#[derive(Debug, PartialEq, Eq)]
pub struct MentionSuggestion {
    pub label: String,
    pub insert_label: String,
    pub color: Option<String>,
    pub description: Option<String>,
    pub platform: Platform,
    pub platform_user_id: String,
    pub display_name: String,
    pub username: Option<String>,
    pub avatar_url: Option<String>,
    pub current_alias: Option<String>,
}

#[derive(Debug, PartialEq)]
pub struct EmoteSuggestion {
    pub label: String,
    pub image_url: String,
    pub animated: bool,
}

fn clone_opt_string(o: &Option<String>) -> (r: Option<String>)
    ensures
        r == *o,
{
    match o {
        Some(s) => Some(s.clone()),
        None => None,
    }
}

impl Clone for MentionSuggestion {
    fn clone(&self) -> (r: Self)
        ensures
            r == *self,
    {
        MentionSuggestion {
            label: self.label.clone(),
            insert_label: self.insert_label.clone(),
            color: clone_opt_string(&self.color),
            description: clone_opt_string(&self.description),
            platform: self.platform,
            platform_user_id: self.platform_user_id.clone(),
            display_name: self.display_name.clone(),
            username: clone_opt_string(&self.username),
            avatar_url: clone_opt_string(&self.avatar_url),
            current_alias: clone_opt_string(&self.current_alias),
        }
    }
}

impl Clone for EmoteSuggestion {
    fn clone(&self) -> (r: Self)
        ensures
            r == *self,
    {
        EmoteSuggestion { label: self.label.clone(), image_url: self.image_url.clone(), animated: self.animated }
    }
}

/// Number of trailing non-whitespace characters of `s`.
pub open spec fn trail_word(s: Seq<char>) -> nat
    decreases s.len(),
{
    if s.len() > 0 && !is_ws(s.last()) {
        1 + trail_word(s.drop_last())
    } else {
        0
    }
}

proof fn lemma_trail_word_bound(s: Seq<char>)
    ensures
        trail_word(s) <= s.len(),
    decreases s.len(),
{
    if s.len() > 0 {
        lemma_trail_word_bound(s.drop_last());
    }
}

proof fn lemma_trail_word(s: Seq<char>, k: int)
    requires
        0 <= k <= s.len(),
        forall|j: int| k <= j < s.len() ==> !is_ws(#[trigger] s[j]),
        k == 0 || is_ws(s[k - 1]),
    ensures
        trail_word(s) == s.len() - k,
    decreases s.len() - k,
{
    if k < s.len() {
        assert forall|j: int| k <= j < s.len() - 1 implies !is_ws(#[trigger] s.drop_last()[j]) by {
            assert(s.drop_last()[j] == s[j]);
        }
        lemma_trail_word(s.drop_last(), k);
    }
}

/// The token being typed at the end of `s` when it starts with `prefix`: its text after the
/// prefix and its byte range in `s`. A token needs at least one character after the prefix,
/// except for the `:` prefix.
pub open spec fn prefixed_token(s: Seq<char>, prefix: char) -> Option<(Seq<char>, int, int)> {
    if s.len() > 0 && is_ws(s.last()) {
        None
    } else if !(trail_word(s) > 0 && s[s.len() - trail_word(s)] == prefix) {
        None
    } else if prefix != ':' && trail_word(s) < 2 {
        None
    } else {
        Some(
            (
                s.skip(s.len() - trail_word(s) + 1),
                byte_len(s.take(s.len() - trail_word(s))) as int,
                byte_len(s) as int,
            ),
        )
    }
}

/// The token being typed at the end of `text` when it starts with `prefix`.
pub fn parse_prefixed_token(text: &str, prefix: char) -> (r: Option<(String, Range<usize>)>)
    ensures
        match r {
            Some(t) => prefixed_token(text@, prefix) == Some((t.0@, t.1.start as int, t.1.end as int)),
            None => prefixed_token(text@, prefix) is None,
        },
{
    let v = chars_of(text);
    let n = v.len();
    if n > 0 && is_whitespace(v[n - 1]) {
        return None;
    }
    let mut k = n;
    while k > 0 && !is_whitespace(v[k - 1])
        invariant
            k <= n == v@.len(),
            forall|j: int| k <= j < n ==> !is_ws(#[trigger] v@[j]),
        decreases k,
    {
        k = k - 1;
    }
    proof {
        lemma_trail_word(v@, k as int);
    }
    if !(k < n && v[k] == prefix) {
        return None;
    }
    if prefix != ':' && n - k < 2 {
        return None;
    }
    let total = str_byte_len(text);
    let offs = byte_offsets(&v, total);
    let start = offs[k];
    proof {
        assert(v@.take(n as int) =~= v@);
    }
    Some((string_from_range(&v, k + 1, n), Range { start, end: total }))
}

/// The `@mention` being typed at the end of `text`.
pub fn parse_mention_token(text: &str) -> (r: Option<ParsedMentionToken>)
    ensures
        match r {
            Some(t) => prefixed_token(text@, '@') == Some((t.query@, t.range.start as int, t.range.end as int)),
            None => prefixed_token(text@, '@') is None,
        },
{
    match parse_prefixed_token(text, '@') {
        Some((query, range)) => Some(ParsedMentionToken { query, range }),
        None => None,
    }
}

/// The `:emote` being typed at the end of `text`.
pub fn parse_emote_token(text: &str) -> (r: Option<ParsedEmoteToken>)
    ensures
        match r {
            Some(t) => prefixed_token(text@, ':') == Some((t.query@, t.range.start as int, t.range.end as int)),
            None => prefixed_token(text@, ':') is None,
        },
{
    match parse_prefixed_token(text, ':') {
        Some((query, range)) => Some(ParsedEmoteToken { query, range }),
        None => None,
    }
}

/// `text` with everything from byte `start` on replaced by `replacement`; unchanged when the
/// range is not a valid character range of `text`.
pub open spec fn replaced(s: Seq<char>, start: int, end: int, replacement: Seq<char>) -> Seq<char> {
    if start > end || end > byte_len(s) || char_index_at_byte(s, start) is None || char_index_at_byte(
        s,
        end,
    ) is None {
        s
    } else {
        s.take(char_index_at_byte(s, start)->0) + replacement
    }
}

/// Replaces the text from `range.start` on by `replacement` (the typed token and anything
/// after it).
pub fn replace_range(text: &str, range: Range<usize>, replacement: &str) -> (r: String)
    ensures
        r@ == replaced(text@, range.start as int, range.end as int, replacement@),
{
    let v = chars_of(text);
    let total = str_byte_len(text);
    if range.start > range.end || range.end > total {
        return owned(text);
    }
    let offs = byte_offsets(&v, total);
    let a = index_of_offset(&v, &offs, range.start);
    let b = index_of_offset(&v, &offs, range.end);
    match (a, b) {
        (Some(a), Some(_)) => {
            let mut r = string_from_range(&v, 0, a);
            push_str(&mut r, replacement);
            proof {
                assert(v@.subrange(0, a as int) =~= v@.take(a as int));
            }
            r
        },
        _ => owned(text),
    }
}

/// Completes a typed mention with a suggestion, followed by a space.
pub fn replace_mention_token(text: &str, token: &ParsedMentionToken, suggestion: &MentionSuggestion) -> (r:
    String)
    ensures
        r@ == replaced(
            text@,
            token.range.start as int,
            token.range.end as int,
            "@"@ + suggestion.insert_label@ + " "@,
        ),
{
    let mut rep = owned("@");
    push_str(&mut rep, suggestion.insert_label.as_str());
    push_str(&mut rep, " ");
    replace_range(text, Range { start: token.range.start, end: token.range.end }, rep.as_str())
}

/// Completes a typed emote with a suggestion, followed by a space.
pub fn replace_emote_token(text: &str, token: &ParsedEmoteToken, suggestion: &EmoteSuggestion) -> (r: String)
    ensures
        r@ == replaced(text@, token.range.start as int, token.range.end as int, suggestion.label@ + " "@),
{
    let mut rep = owned(suggestion.label.as_str());
    push_str(&mut rep, " ");
    replace_range(text, Range { start: token.range.start, end: token.range.end }, rep.as_str())
}

/// Law: completing the mention being typed keeps the text before it and appends the
/// suggestion with a space.
pub proof fn completing_a_parsed_mention_keeps_the_text_before_it(s: Seq<char>, label: Seq<char>)
    requires
        prefixed_token(s, '@') is Some,
    ensures
        ({
            let token = prefixed_token(s, '@')->0;
            replaced(s, token.1, token.2, "@"@ + label + " "@)
        }) == s.take(s.len() - trail_word(s)) + ("@"@ + label + " "@),
{
    lemma_trail_word_bound(s);
    let k = s.len() - trail_word(s);
    crate::text::lemma_char_index_at_byte(s, byte_len(s.take(k)) as int, k);
    assert(s.take(s.len() as int) =~= s);
    crate::text::lemma_char_index_at_byte(s, byte_len(s) as int, s.len() as int);
    crate::text::lemma_byte_len_prefix_mono(s, k, s.len() as int);
}

/// The platform name used in mention descriptions.
pub fn platform_label(platform: Platform) -> (r: &'static str)
    ensures
        r@ == match platform {
            Platform::Twitch => "twitch"@,
            Platform::Youtube => "youtube"@,
            Platform::Kick => "kick"@,
        },
{
    match platform {
        Platform::Twitch => "twitch",
        Platform::Youtube => "youtube",
        Platform::Kick => "kick",
    }
}

} // verus!

verus! {

/// `q` can be matched in order against `t`, taking each character of `q` at its first chance.
pub open spec fn greedy_subseq(q: Seq<char>, t: Seq<char>) -> bool
    decreases t.len(),
{
    if q.len() == 0 {
        true
    } else if t.len() == 0 {
        false
    } else if q[0] == t[0] {
        greedy_subseq(q.drop_first(), t.drop_first())
    } else {
        greedy_subseq(q, t.drop_first())
    }
}

/// Byte offset of the first `c` in `t`, or `usize::MAX` when there is none.
pub open spec fn first_char_rank(c: char, t: Seq<char>) -> int {
    match first_index(t, c) {
        Some(i) => byte_len(t.take(i)) as int,
        None => usize::MAX as int,
    }
}

/// The rank of one target for the lowercased query `q`, if the query matches it.
pub open spec fn target_rank(q: Seq<char>, target: Seq<char>) -> Option<int> {
    if greedy_subseq(q, unicode_lowercase(target)) {
        Some(first_char_rank(q[0], unicode_lowercase(target)))
    } else {
        None
    }
}

/// The best (smallest) rank over the targets of one suggestion.
pub open spec fn best_rank(q: Seq<char>, targets: Seq<Seq<char>>) -> Option<int>
    decreases targets.len(),
{
    if targets.len() == 0 {
        None
    } else {
        let prev = best_rank(q, targets.drop_last());
        match target_rank(q, targets.last()) {
            None => prev,
            Some(r) => match prev {
                None => Some(r),
                Some(p) => Some(if p <= r { p } else { r }),
            },
        }
    }
}

/// `(rank, index)` of each suggestion that matches, in suggestion order.
pub open spec fn ranked(q: Seq<char>, all: Seq<Seq<Seq<char>>>) -> Seq<(int, int)>
    decreases all.len(),
{
    if all.len() == 0 {
        Seq::empty()
    } else {
        let prev = ranked(q, all.drop_last());
        match best_rank(q, all.last()) {
            Some(r) => prev.push((r, all.len() - 1)),
            None => prev,
        }
    }
}

/// Where an entry of rank `r` goes in `s`: before the first entry of a greater rank.
pub open spec fn insert_pos(s: Seq<(int, int)>, r: int) -> int
    decreases s.len(),
{
    if s.len() == 0 {
        0
    } else if s[0].0 > r {
        0
    } else {
        1 + insert_pos(s.drop_first(), r)
    }
}

/// Stable sort by rank (insertion sort: equal ranks keep their order).
pub open spec fn stable_sort(s: Seq<(int, int)>) -> Seq<(int, int)>
    decreases s.len(),
{
    if s.len() == 0 {
        Seq::empty()
    } else {
        let p = stable_sort(s.drop_last());
        p.insert(insert_pos(p, s.last().0), s.last())
    }
}

/// The smaller of two integers.
pub open spec fn min_int(a: int, b: int) -> int {
    if a <= b {
        a
    } else {
        b
    }
}

/// The indices of the suggestions to show for a query, best first: all (up to `limit`) in order
/// for an empty query, else those whose targets match the query as a subsequence, by rank.
pub open spec fn fuzzy_selection(query: Seq<char>, limit: int, all: Seq<Seq<Seq<char>>>) -> Seq<int> {
    if limit == 0 {
        Seq::empty()
    } else if query.len() == 0 {
        Seq::new(min_int(limit, all.len() as int) as nat, |i: int| i)
    } else if unicode_lowercase(query).len() == 0 {
        Seq::empty()
    } else {
        let sorted = stable_sort(ranked(unicode_lowercase(query), all));
        Seq::new(min_int(limit, sorted.len() as int) as nat, |i: int| sorted[i].1)
    }
}

proof fn lemma_insert_pos_bound(s: Seq<(int, int)>, r: int)
    ensures
        0 <= insert_pos(s, r) <= s.len(),
    decreases s.len(),
{
    if s.len() > 0 {
        lemma_insert_pos_bound(s.drop_first(), r);
    }
}

/// Whether the entries are in non-decreasing order of rank.
pub open spec fn rank_ordered(s: Seq<(int, int)>) -> bool {
    forall|i: int, j: int| 0 <= i < j < s.len() ==> #[trigger] s[i].0 <= #[trigger] s[j].0
}

proof fn lemma_insert_pos_splits(s: Seq<(int, int)>, r: int)
    ensures
        0 <= insert_pos(s, r) <= s.len(),
        forall|j: int| 0 <= j < insert_pos(s, r) ==> #[trigger] s[j].0 <= r,
        insert_pos(s, r) < s.len() ==> s[insert_pos(s, r)].0 > r,
    decreases s.len(),
{
    if s.len() > 0 && s[0].0 <= r {
        let t = s.drop_first();
        lemma_insert_pos_splits(t, r);
        assert forall|j: int| 0 <= j < insert_pos(s, r) implies #[trigger] s[j].0 <= r by {
            if j > 0 {
                assert(s[j] == t[j - 1]);
            }
        }
        if insert_pos(s, r) < s.len() {
            assert(s[insert_pos(s, r)] == t[insert_pos(t, r)]);
        }
    }
}

proof fn lemma_stable_sort_ordered(s: Seq<(int, int)>)
    ensures
        stable_sort(s).len() == s.len(),
        rank_ordered(stable_sort(s)),
        forall|i: int| 0 <= i < s.len() ==> exists|j: int| 0 <= j < s.len() && #[trigger] stable_sort(s)[i] == s[j],
    decreases s.len(),
{
    if s.len() > 0 {
        let d = s.drop_last();
        let p = stable_sort(d);
        lemma_stable_sort_ordered(d);
        let x = s.last();
        let k = insert_pos(p, x.0);
        lemma_insert_pos_splits(p, x.0);
        let t = p.insert(k, x);
        assert(t == stable_sort(s));
        assert forall|i: int| 0 <= i < t.len() implies (if i < k {
            t[i] == p[i]
        } else if i == k {
            t[i] == x
        } else {
            t[i] == p[i - 1]
        }) by {}
        assert forall|i: int, j: int| 0 <= i < j < t.len() implies #[trigger] t[i].0 <= #[trigger] t[j].0 by {
            if i < k && j < k {
                assert(p[i].0 <= p[j].0);
            } else if i < k && j > k {
                assert(p[i].0 <= p[j - 1].0);
            } else if i == k && j > k {
                assert(p[k].0 <= p[j - 1].0 || k == j - 1);
            } else if i > k {
                assert(p[i - 1].0 <= p[j - 1].0);
            }
        }
        assert forall|i: int| 0 <= i < s.len() implies exists|j: int| 0 <= j < s.len() && #[trigger] t[i] == s[j] by {
            if i == k {
                assert(t[i] == s[s.len() - 1]);
            } else {
                let i2 = if i < k { i } else { i - 1 };
                let j2 = choose|j: int| 0 <= j < d.len() && p[i2] == d[j];
                assert(t[i] == s[j2]);
            }
        }
    }
}

proof fn lemma_ranked_entries(q: Seq<char>, all: Seq<Seq<Seq<char>>>)
    ensures
        forall|i: int| 0 <= i < ranked(q, all).len() ==> 0 <= #[trigger] ranked(q, all)[i].1 < all.len()
            && best_rank(q, all[ranked(q, all)[i].1]) == Some(ranked(q, all)[i].0),
    decreases all.len(),
{
    if all.len() > 0 {
        let d = all.drop_last();
        lemma_ranked_entries(q, d);
        assert forall|i: int| 0 <= i < ranked(q, all).len() implies 0 <= #[trigger] ranked(q, all)[i].1 < all.len()
            && best_rank(q, all[ranked(q, all)[i].1]) == Some(ranked(q, all)[i].0) by {
            if i < ranked(q, d).len() {
                assert(ranked(q, all)[i] == ranked(q, d)[i]);
                assert(all[ranked(q, d)[i].1] == d[ranked(q, d)[i].1]);
            }
        }
    }
}

/// For a non-empty query that keeps characters once lowercased, the suggestions come out best
/// first: every index shown is a suggestion that matches the query, and an index shown earlier
/// never has a worse (greater) best rank than one shown later.
pub proof fn fuzzy_selection_is_best_first(query: Seq<char>, limit: int, all: Seq<Seq<Seq<char>>>)
    requires
        query.len() > 0,
        unicode_lowercase(query).len() > 0,
        0 <= limit,
    ensures
        forall|i: int|
            0 <= i < fuzzy_selection(query, limit, all).len() ==> 0 <= #[trigger] fuzzy_selection(query, limit, all)[i]
                < all.len() && best_rank(unicode_lowercase(query), all[fuzzy_selection(query, limit, all)[i]]) is Some,
        forall|i: int, j: int|
            0 <= i < j < fuzzy_selection(query, limit, all).len() ==> best_rank(
                unicode_lowercase(query),
                all[#[trigger] fuzzy_selection(query, limit, all)[i]],
            )->0 <= best_rank(unicode_lowercase(query), all[#[trigger] fuzzy_selection(query, limit, all)[j]])->0,
{
    let lq = unicode_lowercase(query);
    let rk = ranked(lq, all);
    let sorted = stable_sort(rk);
    lemma_ranked_entries(lq, all);
    lemma_stable_sort_ordered(rk);
    let sel = fuzzy_selection(query, limit, all);
    if limit != 0 && query.len() != 0 {
        assert forall|i: int| 0 <= i < sel.len() implies 0 <= #[trigger] sel[i] < all.len() && best_rank(lq, all[sel[i]])
            == Some(sorted[i].0) by {
            let j = choose|j: int| 0 <= j < rk.len() && sorted[i] == rk[j];
            assert(rk[j].1 == sel[i]);
        }
        assert forall|i: int, j: int| 0 <= i < j < sel.len() implies best_rank(lq, all[#[trigger] sel[i]])->0 <= best_rank(
            lq,
            all[#[trigger] sel[j]],
        )->0 by {
            assert(best_rank(lq, all[sel[i]]) == Some(sorted[i].0));
            assert(best_rank(lq, all[sel[j]]) == Some(sorted[j].0));
            assert(sorted[i].0 <= sorted[j].0);
        }
    }
}

fn target_rank_exec(q: &Vec<char>, target: &str) -> (r: Option<usize>)
    requires
        q@.len() > 0,
    ensures
        match r {
            Some(x) => target_rank(q@, target@) == Some(x as int),
            None => target_rank(q@, target@) is None,
        },
{
    let ts = to_lowercase(target);
    let t = chars_of(ts.as_str());
    let mut i: usize = 0;
    let mut j: usize = 0;
    proof {
        assert(q@.skip(0) =~= q@);
        assert(t@.skip(0) =~= t@);
    }
    while i < t.len() && j < q.len()
        invariant
            i <= t@.len(),
            j <= q@.len(),
            greedy_subseq(q@, t@) == greedy_subseq(q@.skip(j as int), t@.skip(i as int)),
        decreases t@.len() - i,
    {
        proof {
            assert(q@.skip(j as int).drop_first() =~= q@.skip(j + 1));
            assert(t@.skip(i as int).drop_first() =~= t@.skip(i + 1));
            assert(q@.skip(j as int)[0] == q@[j as int]);
            assert(t@.skip(i as int)[0] == t@[i as int]);
        }
        if t[i] == q[j] {
            j = j + 1;
        }
        i = i + 1;
    }
    if j < q.len() {
        proof {
            assert(t@.skip(i as int).len() == 0);
        }
        return None;
    }
    proof {
        assert(q@.skip(j as int).len() == 0);
    }
    let n = t.len();
    match crate::text::find_char(&t, 0, n, q[0]) {
        Some(k) => {
            let total = str_byte_len(ts.as_str());
            let offs = byte_offsets(&t, total);
            proof {
                assert(t@.subrange(0, n as int) =~= t@);
            }
            Some(offs[k])
        },
        None => {
            proof {
                assert(t@.subrange(0, n as int) =~= t@);
            }
            Some(usize::MAX)
        },
    }
}

/// The best rank over the targets of one suggestion.
fn best_rank_exec(q: &Vec<char>, targets: &Vec<String>) -> (r: Option<usize>)
    requires
        q@.len() > 0,
    ensures
        match r {
            Some(x) => best_rank(q@, targets_view(targets@)) == Some(x as int),
            None => best_rank(q@, targets_view(targets@)) is None,
        },
{
    let mut best: Option<usize> = None;
    let mut k: usize = 0;
    while k < targets.len()
        invariant
            k <= targets@.len(),
            q@.len() > 0,
            match best {
                Some(x) => best_rank(q@, targets_view(targets@.take(k as int))) == Some(x as int),
                None => best_rank(q@, targets_view(targets@.take(k as int))) is None,
            },
        decreases targets@.len() - k,
    {
        proof {
            assert(targets_view(targets@.take(k + 1)).drop_last() =~= targets_view(targets@.take(k as int)));
            assert(targets_view(targets@.take(k + 1)).last() == targets@[k as int]@);
        }
        match target_rank_exec(q, targets[k].as_str()) {
            None => {},
            Some(r) => {
                best = match best {
                    None => Some(r),
                    Some(p) => Some(if p <= r { p } else { r }),
                };
            },
        }
        k = k + 1;
    }
    proof {
        assert(targets@.take(targets@.len() as int) =~= targets@);
    }
    best
}

/// The view of one suggestion's targets.
pub open spec fn targets_view(v: Seq<String>) -> Seq<Seq<char>> {
    Seq::new(v.len(), |i: int| v[i]@)
}

/// The view of all suggestions' targets.
pub open spec fn all_targets_view(v: Seq<Vec<String>>) -> Seq<Seq<Seq<char>>> {
    Seq::new(v.len(), |i: int| targets_view(v[i]@))
}

/// Inserts `item` into `sorted` before the first entry of a greater rank.
fn insert_by_rank(sorted: &mut Vec<(usize, usize)>, item: (usize, usize))
    ensures
        pairs_int(final(sorted)@) == pairs_int(old(sorted)@).insert(
            insert_pos(pairs_int(old(sorted)@), item.0 as int),
            (item.0 as int, item.1 as int),
        ),
{
    let ghost s = pairs_int(sorted@);
    let mut p: usize = 0;
    proof {
        assert(s.skip(0) =~= s);
    }
    while p < sorted.len() && sorted[p].0 <= item.0
        invariant
            p <= sorted@.len(),
            s == pairs_int(sorted@),
            insert_pos(s, item.0 as int) == p + insert_pos(s.skip(p as int), item.0 as int),
        decreases sorted@.len() - p,
    {
        proof {
            assert(s.skip(p as int).drop_first() =~= s.skip(p + 1));
        }
        p = p + 1;
    }
    proof {
        if p < sorted@.len() {
            assert(s.skip(p as int)[0] == s[p as int]);
        }
    }
    sorted.insert(p, item);
    proof {
        assert(pairs_int(sorted@) =~= s.insert(p as int, (item.0 as int, item.1 as int)));
    }
}

/// The view of a list of `(rank, index)` pairs.
pub open spec fn pairs_int(v: Seq<(usize, usize)>) -> Seq<(int, int)> {
    Seq::new(v.len(), |i: int| (v[i].0 as int, v[i].1 as int))
}

/// The indices of the suggestions to show for `query`, best first, at most `limit` of them;
/// `targets[i]` are the texts suggestion `i` is matched by.
pub fn fuzzy_filter_by_targets(targets: &Vec<Vec<String>>, query: &str, limit: usize) -> (r: Vec<usize>)
    ensures
        Seq::new(r@.len(), |i: int| r@[i] as int) == fuzzy_selection(query@, limit as int, all_targets_view(targets@)),
        forall|i: int| 0 <= i < r@.len() ==> r@[i] < targets@.len(),
{
    let ghost all = all_targets_view(targets@);
    if limit == 0 {
        let r: Vec<usize> = Vec::new();
        assert(Seq::new(r@.len(), |i: int| r@[i] as int) =~= Seq::<int>::empty());
        return r;
    }
    let qv = chars_of(query);
    if qv.len() == 0 {
        let m = if limit < targets.len() { limit } else { targets.len() };
        let mut r: Vec<usize> = Vec::new();
        let mut i: usize = 0;
        while i < m
            invariant
                i <= m <= targets@.len(),
                r@.len() == i,
                forall|j: int| 0 <= j < i ==> r@[j] == j,
            decreases m - i,
        {
            r.push(i);
            i = i + 1;
        }
        assert(Seq::new(r@.len(), |i: int| r@[i] as int) =~= fuzzy_selection(query@, limit as int, all));
        return r;
    }
    let ql = to_lowercase(query);
    let q = chars_of(ql.as_str());
    if q.len() == 0 {
        let r: Vec<usize> = Vec::new();
        assert(Seq::new(r@.len(), |i: int| r@[i] as int) =~= Seq::<int>::empty());
        return r;
    }
    let mut sorted: Vec<(usize, usize)> = Vec::new();
    let mut k: usize = 0;
    while k < targets.len()
        invariant
            k <= targets@.len(),
            q@.len() > 0,
            all == all_targets_view(targets@),
            pairs_int(sorted@) == stable_sort(ranked(q@, all.take(k as int))),
            forall|j: int| 0 <= j < sorted@.len() ==> sorted@[j].1 < k,
        decreases targets@.len() - k,
    {
        proof {
            assert(all.take(k + 1).drop_last() =~= all.take(k as int));
            assert(all.take(k + 1).last() == targets_view(targets@[k as int]@));
        }
        match best_rank_exec(&q, &targets[k]) {
            Some(rank) => {
                proof {
                    let rk = ranked(q@, all.take(k + 1));
                    assert(rk == ranked(q@, all.take(k as int)).push((rank as int, k as int)));
                    assert(rk.drop_last() =~= ranked(q@, all.take(k as int)));
                }
                let ghost before = sorted@;
                insert_by_rank(&mut sorted, (rank, k));
                proof {
                    assert forall|j: int| 0 <= j < sorted@.len() implies sorted@[j].1 < k + 1 by {
                        let pb = pairs_int(before);
                        let p = insert_pos(pb, rank as int);
                        lemma_insert_pos_bound(pb, rank as int);
                        pb.insert_ensures(p, (rank as int, k as int));
                        assert(pairs_int(sorted@)[j] == pb.insert(p, (rank as int, k as int))[j]);
                        if j < p {
                            assert(pb[j] == pairs_int(before)[j]);
                        } else if j > p {
                            assert(pb.insert(p, (rank as int, k as int))[(j - 1) + 1] == pb[j - 1]);
                        }
                    }
                }
            },
            None => {},
        }
        k = k + 1;
    }
    proof {
        assert(all.take(targets@.len() as int) =~= all);
    }
    let m = if limit < sorted.len() { limit } else { sorted.len() };
    let mut r: Vec<usize> = Vec::new();
    let mut i: usize = 0;
    while i < m
        invariant
            i <= m <= sorted@.len(),
            r@.len() == i,
            forall|j: int| 0 <= j < i ==> r@[j] == sorted@[j].1,
            forall|j: int| 0 <= j < sorted@.len() ==> sorted@[j].1 < targets@.len(),
        decreases m - i,
    {
        r.push(sorted[i].1);
        i = i + 1;
    }
    assert(Seq::new(r@.len(), |i: int| r@[i] as int) =~= fuzzy_selection(query@, limit as int, all));
    r
}

/// The texts a mention suggestion is matched by: its label, its display name and its
/// username when it has one.
pub open spec fn mention_targets(m: MentionSuggestion) -> Seq<Seq<char>> {
    match m.username {
        Some(u) => seq![m.label@, m.display_name@, u@],
        None => seq![m.label@, m.display_name@],
    }
}

/// The match texts of every mention suggestion.
pub open spec fn all_mention_targets(s: Seq<MentionSuggestion>) -> Seq<Seq<Seq<char>>> {
    Seq::new(s.len(), |i: int| mention_targets(s[i]))
}

/// The texts of every emote suggestion: its label alone.
pub open spec fn all_emote_targets(s: Seq<EmoteSuggestion>) -> Seq<Seq<Seq<char>>> {
    Seq::new(s.len(), |i: int| seq![s[i].label@])
}

/// The suggestions at `idx`, in that order.
fn pick<T: Clone>(items: &Vec<T>, idx: &Vec<usize>) -> (r: Vec<T>)
    requires
        forall|i: int| 0 <= i < idx@.len() ==> idx@[i] < items@.len(),
    ensures
        r@.len() == idx@.len(),
        forall|i: int| 0 <= i < idx@.len() ==> cloned(items@[idx@[i] as int], #[trigger] r@[i]),
{
    let mut r: Vec<T> = Vec::new();
    let mut i: usize = 0;
    while i < idx.len()
        invariant
            i <= idx@.len(),
            r@.len() == i,
            forall|j: int| 0 <= j < idx@.len() ==> idx@[j] < items@.len(),
            forall|j: int| 0 <= j < i ==> cloned(items@[idx@[j] as int], #[trigger] r@[j]),
        decreases idx@.len() - i,
    {
        let x = items[idx[i]].clone();
        r.push(x);
        i = i + 1;
    }
    r
}

/// Mention suggestions matching `query` (by label, display name or username), best first,
/// at most `limit`; an empty query keeps the first `limit` in order.
pub fn fuzzy_filter_mentions(suggestions: &Vec<MentionSuggestion>, query: &str, limit: usize) -> (r: Vec<
    MentionSuggestion,
>)
    ensures
        r@.len() == fuzzy_selection(query@, limit as int, all_mention_targets(suggestions@)).len(),
        forall|i: int|
            0 <= i < r@.len() ==> #[trigger] r@[i] == suggestions@[fuzzy_selection(
                query@,
                limit as int,
                all_mention_targets(suggestions@),
            )[i]],
{
    let mut targets: Vec<Vec<String>> = Vec::new();
    let mut k: usize = 0;
    while k < suggestions.len()
        invariant
            k <= suggestions@.len(),
            all_targets_view(targets@) == all_mention_targets(suggestions@).take(k as int),
            targets@.len() == k,
        decreases suggestions@.len() - k,
    {
        let s = &suggestions[k];
        let mut t: Vec<String> = Vec::new();
        t.push(s.label.clone());
        t.push(s.display_name.clone());
        match &s.username {
            Some(u) => t.push(u.clone()),
            None => {},
        }
        proof {
            assert(targets_view(t@) =~= mention_targets(suggestions@[k as int]));
        }
        let ghost prev = targets@;
        targets.push(t);
        proof {
            let want = all_mention_targets(suggestions@).take(k + 1);
            assert forall|j: int| 0 <= j < k + 1 implies all_targets_view(targets@)[j] == want[j] by {
                if j < k {
                    assert(targets@[j] == prev[j]);
                    assert(all_targets_view(prev)[j] == all_mention_targets(suggestions@).take(k as int)[j]);
                }
            }
            assert(all_targets_view(targets@) =~= want);
        }
        k = k + 1;
    }
    proof {
        assert(all_mention_targets(suggestions@).take(suggestions@.len() as int) =~= all_mention_targets(
            suggestions@,
        ));
    }
    let idx = fuzzy_filter_by_targets(&targets, query, limit);
    let r = pick(suggestions, &idx);
    proof {
        let sel = fuzzy_selection(query@, limit as int, all_mention_targets(suggestions@));
        assert forall|i: int| 0 <= i < r@.len() implies #[trigger] r@[i] == suggestions@[sel[i]] by {
            assert(Seq::new(idx@.len(), |j: int| idx@[j] as int)[i] == sel[i]);
        }
    }
    r
}

/// Emote suggestions whose label matches `query`, best first, at most `limit`; an empty query
/// keeps the first `limit` in order.
pub fn fuzzy_filter_emotes(suggestions: &Vec<EmoteSuggestion>, query: &str, limit: usize) -> (r: Vec<
    EmoteSuggestion,
>)
    ensures
        r@.len() == fuzzy_selection(query@, limit as int, all_emote_targets(suggestions@)).len(),
        forall|i: int|
            0 <= i < r@.len() ==> #[trigger] r@[i] == suggestions@[fuzzy_selection(
                query@,
                limit as int,
                all_emote_targets(suggestions@),
            )[i]],
{
    let mut targets: Vec<Vec<String>> = Vec::new();
    let mut k: usize = 0;
    while k < suggestions.len()
        invariant
            k <= suggestions@.len(),
            all_targets_view(targets@) == all_emote_targets(suggestions@).take(k as int),
            targets@.len() == k,
        decreases suggestions@.len() - k,
    {
        let mut t: Vec<String> = Vec::new();
        t.push(suggestions[k].label.clone());
        proof {
            assert(targets_view(t@) =~= seq![suggestions@[k as int].label@]);
        }
        let ghost prev = targets@;
        targets.push(t);
        proof {
            let want = all_emote_targets(suggestions@).take(k + 1);
            assert forall|j: int| 0 <= j < k + 1 implies all_targets_view(targets@)[j] == want[j] by {
                if j < k {
                    assert(targets@[j] == prev[j]);
                    assert(all_targets_view(prev)[j] == all_emote_targets(suggestions@).take(k as int)[j]);
                }
            }
            assert(all_targets_view(targets@) =~= want);
        }
        k = k + 1;
    }
    proof {
        assert(all_emote_targets(suggestions@).take(suggestions@.len() as int) =~= all_emote_targets(
            suggestions@,
        ));
    }
    let idx = fuzzy_filter_by_targets(&targets, query, limit);
    let r = pick(suggestions, &idx);
    proof {
        let sel = fuzzy_selection(query@, limit as int, all_emote_targets(suggestions@));
        assert forall|i: int| 0 <= i < r@.len() implies #[trigger] r@[i] == suggestions@[sel[i]] by {
            assert(Seq::new(idx@.len(), |j: int| idx@[j] as int)[i] == sel[i]);
        }
    }
    r
}

/// One suggestion per emote, in order: its name, image and whether it is animated.
pub fn emote_suggestions(emotes: &Vec<SevenTvEmote>) -> (r: Vec<EmoteSuggestion>)
    ensures
        r@.len() == emotes@.len(),
        forall|i: int|
            0 <= i < r@.len() ==> (#[trigger] r@[i]).label == emotes@[i].name && r@[i].image_url == emotes@[i].image_url
                && r@[i].animated == emotes@[i].animated,
{
    let mut r: Vec<EmoteSuggestion> = Vec::new();
    let mut k: usize = 0;
    while k < emotes.len()
        invariant
            k <= emotes@.len(),
            r@.len() == k,
            forall|i: int|
                0 <= i < k ==> (#[trigger] r@[i]).label == emotes@[i].name && r@[i].image_url == emotes@[i].image_url
                    && r@[i].animated == emotes@[i].animated,
        decreases emotes@.len() - k,
    {
        let e = &emotes[k];
        r.push(EmoteSuggestion { label: e.name.clone(), image_url: e.image_url.clone(), animated: e.animated });
        k = k + 1;
    }
    r
}

/// A mention suggestion's label, insert label, colour, description, platform, user id,
/// display name, username, avatar and alias.
pub type MentionView = (
    Seq<char>,
    Seq<char>,
    Option<Seq<char>>,
    Option<Seq<char>>,
    Platform,
    Seq<char>,
    Seq<char>,
    Option<Seq<char>>,
    Option<Seq<char>>,
    Option<Seq<char>>,
);

impl View for MentionSuggestion {
    type V = MentionView;

    open spec fn view(&self) -> MentionView {
        (
            self.label@,
            self.insert_label@,
            crate::protocol::types::opt_seq(self.color),
            crate::protocol::types::opt_seq(self.description),
            self.platform,
            self.platform_user_id@,
            self.display_name@,
            crate::protocol::types::opt_seq(self.username),
            crate::protocol::types::opt_seq(self.avatar_url),
            crate::protocol::types::opt_seq(self.current_alias),
        )
    }
}

/// The platform name used in mention descriptions.
pub open spec fn mention_platform_name(platform: Platform) -> Seq<char> {
    match platform {
        Platform::Twitch => "twitch"@,
        Platform::Youtube => "youtube"@,
        Platform::Kick => "kick"@,
    }
}

/// The key that makes two messages suggest the same user: the platform with the author's id,
/// or with the display name in lower case when the author has no id.
pub open spec fn mention_key(m: crate::protocol::types::MessageView) -> Seq<char> {
    crate::auth::platform_debug_name(m.1) + ":"@ + if m.3.0.len() == 0 {
        unicode_lowercase(m.3.2)
    } else {
        m.3.0
    }
}

/// The suggestion for the author of `m`: shown under the author's alias when there is one,
/// described by username and platform.
pub open spec fn mention_for(
    m: crate::protocol::types::MessageView,
    aliases: Map<(Platform, Seq<char>), Seq<char>>,
) -> MentionView {
    let alias = if m.3.0.len() == 0 {
        None
    } else {
        crate::chat::alias::alias_lookup(aliases, m.1, m.3.0)
    };
    (
        match alias {
            Some(a) => a,
            None => m.3.2,
        },
        m.3.2,
        m.3.3,
        Some(
            match m.3.1 {
                Some(u) => "@"@ + u + " - "@ + mention_platform_name(m.1),
                None => mention_platform_name(m.1),
            },
        ),
        m.1,
        m.3.0,
        m.3.2,
        m.3.1,
        m.3.4,
        alias,
    )
}

/// One suggestion per user, in the order the users first spoke.
pub open spec fn mention_list(
    ms: Seq<crate::protocol::types::MessageView>,
    aliases: Map<(Platform, Seq<char>), Seq<char>>,
) -> Seq<MentionView>
    decreases ms.len(),
{
    if ms.len() == 0 {
        Seq::empty()
    } else {
        let kept = mention_list(ms.drop_last(), aliases);
        if exists|i: int| 0 <= i < ms.len() - 1 && mention_key(#[trigger] ms[i]) == mention_key(ms.last()) {
            kept
        } else {
            kept.push(mention_for(ms.last(), aliases))
        }
    }
}

/// The key of a message's author ([`mention_key`]).
fn mention_key_of(m: &crate::protocol::types::NormalizedChatMessage) -> (r: String)
    ensures
        r@ == mention_key(m@),
{
    let mut k = owned(crate::auth::platform_debug_str(m.platform));
    push_str(&mut k, ":");
    if m.author.id.as_str().is_empty() {
        let lower = to_lowercase(m.author.display_name.as_str());
        push_str(&mut k, lower.as_str());
    } else {
        push_str(&mut k, m.author.id.as_str());
    }
    k
}

/// The suggestion for the author of `m` ([`mention_for`]).
fn mention_of(m: &crate::protocol::types::NormalizedChatMessage, aliases: &crate::chat::alias::AliasBook) -> (r: MentionSuggestion)
    requires
        aliases.wf(),
    ensures
        r@ == mention_for(m@, aliases@),
{
    let current_alias: Option<String> = if m.author.id.as_str().is_empty() {
        None
    } else {
        match aliases.get(m.platform, m.author.id.as_str()) {
            Some(a) => Some(owned(a)),
            None => None,
        }
    };
    let label = match &current_alias {
        Some(a) => a.clone(),
        None => m.author.display_name.clone(),
    };
    let description = match &m.author.username {
        Some(u) => {
            let mut d = owned("@");
            push_str(&mut d, u.as_str());
            push_str(&mut d, " - ");
            push_str(&mut d, platform_label(m.platform));
            d
        },
        None => owned(platform_label(m.platform)),
    };
    MentionSuggestion {
        label,
        insert_label: m.author.display_name.clone(),
        color: clone_opt_string(&m.author.color),
        description: Some(description),
        platform: m.platform,
        platform_user_id: m.author.id.clone(),
        display_name: m.author.display_name.clone(),
        username: clone_opt_string(&m.author.username),
        avatar_url: clone_opt_string(&m.author.avatar_url),
        current_alias,
    }
}

/// The users to suggest for `@` mentions: one per user, in the order they first spoke
/// ([`mention_list`]).
pub fn mention_suggestions(
    messages: &Vec<crate::protocol::types::NormalizedChatMessage>,
    aliases: &crate::chat::alias::AliasBook,
) -> (r: Vec<MentionSuggestion>)
    requires
        aliases.wf(),
    ensures
        Seq::new(r@.len(), |i: int| r@[i]@) == mention_list(crate::chat::history::views(messages@), aliases@),
{
    let ghost ms = crate::chat::history::views(messages@);
    let mut seen: Vec<String> = Vec::new();
    let mut out: Vec<MentionSuggestion> = Vec::new();
    let mut i: usize = 0;
    while i < messages.len()
        invariant
            i <= messages@.len(),
            aliases.wf(),
            ms == crate::chat::history::views(messages@),
            seen@.len() == i,
            forall|j: int| 0 <= j < i ==> (#[trigger] seen@[j])@ == mention_key(ms[j]),
            Seq::new(out@.len(), |k: int| out@[k]@) == mention_list(ms.take(i as int), aliases@),
        decreases messages@.len() - i,
    {
        let key = mention_key_of(&messages[i]);
        assert(ms[i as int] == messages@[i as int]@);
        let mut repeated = false;
        let mut j: usize = 0;
        while j < i
            invariant
                j <= i,
                i < ms.len(),
                seen@.len() == i,
                forall|j2: int| 0 <= j2 < i ==> (#[trigger] seen@[j2])@ == mention_key(ms[j2]),
                key@ == mention_key(ms[i as int]),
                repeated <==> exists|k: int| 0 <= k < j && mention_key(#[trigger] ms[k]) == mention_key(ms[i as int]),
            decreases i - j,
        {
            if crate::text::str_eq(seen[j].as_str(), key.as_str()) {
                repeated = true;
            }
            proof {
                assert(seen@[j as int]@ == mention_key(ms[j as int]));
                if !repeated {
                    assert forall|k: int| 0 <= k < j + 1 implies mention_key(#[trigger] ms[k]) != mention_key(ms[i as int]) by {
                        if k == j {
                            assert(seen@[j as int]@ == mention_key(ms[j as int]));
                        }
                    }
                }
            }
            j = j + 1;
        }
        let ghost t = ms.take(i + 1);
        proof {
            assert(t.drop_last() =~= ms.take(i as int));
            assert(t.last() == ms[i as int]);
            assert forall|k: int| 0 <= k < t.len() - 1 implies t[k] == ms[k] by {}
        }
        if !repeated {
            let s = mention_of(&messages[i], aliases);
            let ghost old_out = out@;
            out.push(s);
            proof {
                assert(Seq::new(out@.len(), |k: int| out@[k]@) =~= Seq::new(old_out.len(), |k: int| old_out[k]@).push(s@));
            }
        }
        let ghost old_seen = seen@;
        seen.push(key);
        proof {
            assert forall|j2: int| 0 <= j2 < i + 1 implies (#[trigger] seen@[j2])@ == mention_key(ms[j2]) by {
                if j2 < i {
                    assert(seen@[j2] == old_seen[j2]);
                }
            }
        }
        i = i + 1;
    }
    proof {
        assert(ms.take(i as int) =~= ms);
    }
    out
}

/// The user a suggestion stands for, keyed as [`mention_key`] keys messages.
pub open spec fn suggestion_key(v: MentionView) -> Seq<char> {
    crate::auth::platform_debug_name(v.4) + ":"@ + if v.5.len() == 0 {
        unicode_lowercase(v.6)
    } else {
        v.5
    }
}

proof fn lemma_mention_list(
    ms: Seq<crate::protocol::types::MessageView>,
    aliases: Map<(Platform, Seq<char>), Seq<char>>,
)
    ensures
        forall|k: int| 0 <= k < mention_list(ms, aliases).len() ==> exists|i: int|
            0 <= i < ms.len() && suggestion_key(#[trigger] mention_list(ms, aliases)[k]) == mention_key(ms[i]),
        forall|a: int, b: int|
            0 <= a < b < mention_list(ms, aliases).len() ==> suggestion_key(#[trigger] mention_list(ms, aliases)[a])
                != suggestion_key(#[trigger] mention_list(ms, aliases)[b]),
    decreases ms.len(),
{
    if ms.len() > 0 {
        let p = ms.drop_last();
        lemma_mention_list(p, aliases);
        let kept = mention_list(p, aliases);
        let l = mention_list(ms, aliases);
        assert forall|k: int| 0 <= k < l.len() implies exists|i: int|
            0 <= i < ms.len() && suggestion_key(#[trigger] l[k]) == mention_key(ms[i]) by {
            if k < kept.len() {
                let i = choose|i: int| 0 <= i < p.len() && suggestion_key(#[trigger] kept[k]) == mention_key(p[i]);
                assert(l[k] == kept[k] && p[i] == ms[i]);
            } else {
                assert(suggestion_key(l[k]) == mention_key(ms[ms.len() - 1]));
            }
        }
        if !(exists|i: int| 0 <= i < ms.len() - 1 && mention_key(#[trigger] ms[i]) == mention_key(ms.last())) {
            assert forall|a: int, b: int| 0 <= a < b < l.len() implies suggestion_key(#[trigger] l[a]) != suggestion_key(#[trigger] l[b]) by {
                if b == l.len() - 1 {
                    let i = choose|i: int| 0 <= i < p.len() && suggestion_key(#[trigger] kept[a]) == mention_key(p[i]);
                    assert(l[a] == kept[a] && p[i] == ms[i]);
                    assert(suggestion_key(l[b]) == mention_key(ms.last()));
                } else {
                    assert(l[a] == kept[a] && l[b] == kept[b]);
                }
            }
        }
    }
}

/// Mention suggestions name each user once: no two suggestions stand for the same user.
pub proof fn mention_suggestions_are_unique(
    ms: Seq<crate::protocol::types::MessageView>,
    aliases: Map<(Platform, Seq<char>), Seq<char>>,
)
    ensures
        forall|a: int, b: int|
            0 <= a < b < mention_list(ms, aliases).len() ==> suggestion_key(#[trigger] mention_list(ms, aliases)[a])
                != suggestion_key(#[trigger] mention_list(ms, aliases)[b]),
{
    lemma_mention_list(ms, aliases);
}

} // verus!
