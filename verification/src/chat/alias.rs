//! User aliases: a per-platform map from user id to the name shown in chat.
use crate::protocol::rpc::UserAlias;
use crate::protocol::types::{MessageView, NormalizedChatMessage, Platform};
use crate::text::str_eq;
use vstd::prelude::*;

verus! {

/// The key of an alias: the platform and the user's id on it.
pub open spec fn alias_key(platform: Platform, user_id: Seq<char>) -> (Platform, Seq<char>) {
    (platform, user_id)
}

/// The alias stored for a user, if any.
pub open spec fn alias_lookup(m: Map<(Platform, Seq<char>), Seq<char>>, platform: Platform, user_id: Seq<char>) -> Option<
    Seq<char>,
> {
    if m.contains_key(alias_key(platform, user_id)) {
        Some(m[alias_key(platform, user_id)])
    } else {
        None
    }
}

/// The map after setting an alias: an empty alias removes the user's entry.
pub open spec fn with_alias(
    m: Map<(Platform, Seq<char>), Seq<char>>,
    platform: Platform,
    user_id: Seq<char>,
    alias: Seq<char>,
) -> Map<(Platform, Seq<char>), Seq<char>> {
    if alias.len() == 0 {
        m.remove(alias_key(platform, user_id))
    } else {
        m.insert(alias_key(platform, user_id), alias)
    }
}

/// The map after setting each alias of `aliases` in order.
pub open spec fn with_aliases(aliases: Seq<UserAlias>) -> Map<(Platform, Seq<char>), Seq<char>>
    decreases aliases.len(),
{
    if aliases.len() == 0 {
        Map::empty()
    } else {
        let a = aliases.last();
        with_alias(with_aliases(aliases.drop_last()), a.platform, a.platform_user_id@, a.alias@)
    }
}

/// Aliases of users, at most one per platform and user id, none of them empty.
#[derive(Debug, Clone, PartialEq, Eq)]
pub struct AliasBook {
    entries: Vec<(Platform, String, String)>,
}

/// The key of a stored entry.
pub open spec fn entry_key(e: (Platform, String, String)) -> (Platform, Seq<char>) {
    (e.0, e.1@)
}

/// The map that a list of entries stands for (a later entry wins, though a well-formed list
/// has no two entries with one key).
pub open spec fn entries_map(s: Seq<(Platform, String, String)>) -> Map<(Platform, Seq<char>), Seq<char>>
    decreases s.len(),
{
    if s.len() == 0 {
        Map::empty()
    } else {
        entries_map(s.drop_last()).insert(entry_key(s.last()), s.last().2@)
    }
}

/// No key occurs twice and no alias is empty.
pub open spec fn entries_wf(s: Seq<(Platform, String, String)>) -> bool {
    &&& forall|i: int, j: int|
        0 <= i < s.len() && 0 <= j < s.len() && i != j ==> entry_key(#[trigger] s[i]) != entry_key(
            #[trigger] s[j],
        )
    &&& forall|i: int| 0 <= i < s.len() ==> (#[trigger] s[i]).2@.len() > 0
}

proof fn lemma_entries_map(s: Seq<(Platform, String, String)>)
    requires
        entries_wf(s),
    ensures
        forall|k: (Platform, Seq<char>)|
            #[trigger] entries_map(s).contains_key(k) <==> exists|i: int|
                0 <= i < s.len() && entry_key(#[trigger] s[i]) == k,
        forall|i: int| 0 <= i < s.len() ==> entries_map(s)[entry_key(#[trigger] s[i])] == s[i].2@,
    decreases s.len(),
{
    if s.len() > 0 {
        let p = s.drop_last();
        assert(entries_wf(p)) by {
            assert forall|i: int, j: int|
                0 <= i < p.len() && 0 <= j < p.len() && i != j implies entry_key(#[trigger] p[i]) != entry_key(
                #[trigger] p[j],
            ) by {
                assert(p[i] == s[i] && p[j] == s[j]);
            }
            assert forall|i: int| 0 <= i < p.len() implies (#[trigger] p[i]).2@.len() > 0 by {
                assert(p[i] == s[i]);
            }
        }
        lemma_entries_map(p);
        let last = s.len() - 1;
        assert forall|k: (Platform, Seq<char>)|
            #[trigger] entries_map(s).contains_key(k) implies exists|i: int|
                0 <= i < s.len() && entry_key(#[trigger] s[i]) == k by {
            if k == entry_key(s[last]) {
                assert(entry_key(s[last]) == k);
            } else {
                assert(entries_map(p).contains_key(k));
                let i = choose|i: int| 0 <= i < p.len() && entry_key(#[trigger] p[i]) == k;
                assert(s[i] == p[i]);
            }
        }
        assert forall|k: (Platform, Seq<char>)|
            (exists|i: int| 0 <= i < s.len() && entry_key(#[trigger] s[i]) == k) implies #[trigger] entries_map(
            s,
        ).contains_key(k) by {
            let i = choose|i: int| 0 <= i < s.len() && entry_key(#[trigger] s[i]) == k;
            if i < last {
                assert(p[i] == s[i]);
            }
        }
        assert forall|i: int| 0 <= i < s.len() implies entries_map(s)[entry_key(#[trigger] s[i])] == s[i].2@ by {
            if i < last {
                assert(p[i] == s[i]);
                assert(entry_key(s[i]) != entry_key(s[last]));
            }
        }
    }
}

impl View for AliasBook {
    type V = Map<(Platform, Seq<char>), Seq<char>>;

    closed spec fn view(&self) -> Map<(Platform, Seq<char>), Seq<char>> {
        entries_map(self.entries@)
    }
}

impl Default for AliasBook {
    fn default() -> (r: Self)
        ensures
            r@ == Map::<(Platform, Seq<char>), Seq<char>>::empty(),
            r.wf(),
    {
        AliasBook { entries: Vec::new() }
    }
}

impl AliasBook {
    /// The book's internal invariant.
    pub closed spec fn wf(&self) -> bool {
        entries_wf(self.entries@)
    }

    /// Index of the entry for `(platform, user_id)`, if there is one.
    fn find(&self, platform: Platform, user_id: &str) -> (r: Option<usize>)
        requires
            self.wf(),
        ensures
            match r {
                Some(i) => i < self.entries@.len() && entry_key(self.entries@[i as int]) == alias_key(
                    platform,
                    user_id@,
                ),
                None => forall|i: int|
                    0 <= i < self.entries@.len() ==> entry_key(#[trigger] self.entries@[i]) != alias_key(
                        platform,
                        user_id@,
                    ),
            },
    {
        let mut i: usize = 0;
        while i < self.entries.len()
            invariant
                i <= self.entries@.len(),
                forall|j: int| 0 <= j < i ==> entry_key(#[trigger] self.entries@[j]) != alias_key(platform, user_id@),
            decreases self.entries@.len() - i,
        {
            let e = &self.entries[i];
            if e.0 == platform && str_eq(e.1.as_str(), user_id) {
                return Some(i);
            }
            i = i + 1;
        }
        None
    }

    /// A book holding the aliases of `aliases`, set in order (a later one for the same user
    /// wins; an empty one removes the user's alias).
    pub fn from_aliases(aliases: Vec<UserAlias>) -> (r: Self)
        ensures
            r.wf(),
            r@ == with_aliases(aliases@),
    {
        let mut book = AliasBook::default();
        let mut k: usize = 0;
        while k < aliases.len()
            invariant
                k <= aliases@.len(),
                book.wf(),
                book@ == with_aliases(aliases@.take(k as int)),
            decreases aliases@.len() - k,
        {
            let a = &aliases[k];
            proof {
                assert(aliases@.take(k + 1).drop_last() =~= aliases@.take(k as int));
                assert(aliases@.take(k + 1).last() == aliases@[k as int]);
            }
            book.set(a.platform, a.platform_user_id.clone(), a.alias.clone());
            k = k + 1;
        }
        proof {
            assert(aliases@.take(aliases@.len() as int) =~= aliases@);
        }
        book
    }

    /// Sets the alias of a user; an empty alias removes it.
    pub fn set(&mut self, platform: Platform, platform_user_id: String, alias: String)
        requires
            old(self).wf(),
        ensures
            final(self).wf(),
            final(self)@ == with_alias(old(self)@, platform, platform_user_id@, alias@),
    {
        if alias.as_str().is_empty() {
            proof {
                assert(alias@.len() == 0);
            }
            self.remove(platform, platform_user_id.as_str());
            return;
        }
        proof {
            lemma_entries_map(self.entries@);
        }
        let ghost old_entries = self.entries@;
        let ghost key = alias_key(platform, platform_user_id@);
        match self.find(platform, platform_user_id.as_str()) {
            Some(i) => {
                self.entries.set(i, (platform, platform_user_id, alias));
                let ghost s = self.entries@;
                proof {
                    assert(entries_wf(s)) by {
                        assert forall|a: int, b: int|
                            0 <= a < s.len() && 0 <= b < s.len() && a != b implies entry_key(#[trigger] s[a])
                            != entry_key(#[trigger] s[b]) by {
                            assert(entry_key(s[a]) == entry_key(old_entries[a]));
                            assert(entry_key(s[b]) == entry_key(old_entries[b]));
                        }
                    }
                    lemma_entries_map(s);
                    let want = old(self)@.insert(key, alias@);
                    assert forall|k: (Platform, Seq<char>)| #[trigger] want.contains_key(k) implies entries_map(
                        s,
                    ).contains_key(k) by {
                        if k != key {
                            let j = choose|j: int| 0 <= j < old_entries.len() && entry_key(#[trigger] old_entries[j]) == k;
                            assert(entry_key(s[j]) == k);
                        } else {
                            assert(entry_key(s[i as int]) == k);
                        }
                    }
                    assert forall|k: (Platform, Seq<char>)| #[trigger] entries_map(s).contains_key(k) implies want.contains_key(k)
                        && entries_map(s)[k] == want[k] by {
                        let j = choose|j: int| 0 <= j < s.len() && entry_key(#[trigger] s[j]) == k;
                        if j != i {
                            assert(s[j] == old_entries[j]);
                        }
                    }
                    assert(entries_map(s) =~= want);
                }
            },
            None => {
                self.entries.push((platform, platform_user_id, alias));
                let ghost s = self.entries@;
                proof {
                    assert(s.drop_last() =~= old_entries);
                    assert(entries_wf(s)) by {
                        assert forall|a: int, b: int|
                            0 <= a < s.len() && 0 <= b < s.len() && a != b implies entry_key(#[trigger] s[a])
                            != entry_key(#[trigger] s[b]) by {
                            if a < old_entries.len() && b < old_entries.len() {
                                assert(s[a] == old_entries[a] && s[b] == old_entries[b]);
                            } else if a < old_entries.len() {
                                assert(s[a] == old_entries[a]);
                            } else {
                                assert(s[b] == old_entries[b]);
                            }
                        }
                        assert forall|a: int| 0 <= a < s.len() implies (#[trigger] s[a]).2@.len() > 0 by {
                            if a < old_entries.len() {
                                assert(s[a] == old_entries[a]);
                            }
                        }
                    }
                }
            },
        }
    }

    /// Removes the alias of a user, if it has one.
    pub fn remove(&mut self, platform: Platform, platform_user_id: &str)
        requires
            old(self).wf(),
        ensures
            final(self).wf(),
            final(self)@ == old(self)@.remove(alias_key(platform, platform_user_id@)),
    {
        proof {
            lemma_entries_map(self.entries@);
        }
        let ghost old_entries = self.entries@;
        let ghost key = alias_key(platform, platform_user_id@);
        match self.find(platform, platform_user_id) {
            Some(i) => {
                self.entries.remove(i);
                let ghost s = self.entries@;
                proof {
                    assert(s =~= old_entries.remove(i as int));
                    assert forall|a: int| 0 <= a < s.len() implies #[trigger] s[a] == old_entries[if a < i {
                        a
                    } else {
                        a + 1
                    }] by {}
                    assert(entries_wf(s)) by {
                        assert forall|a: int, b: int|
                            0 <= a < s.len() && 0 <= b < s.len() && a != b implies entry_key(#[trigger] s[a])
                            != entry_key(#[trigger] s[b]) by {
                            let a2 = if a < i { a } else { a + 1 };
                            let b2 = if b < i { b } else { b + 1 };
                            assert(s[a] == old_entries[a2] && s[b] == old_entries[b2]);
                        }
                        assert forall|a: int| 0 <= a < s.len() implies (#[trigger] s[a]).2@.len() > 0 by {
                            let a2 = if a < i { a } else { a + 1 };
                            assert(s[a] == old_entries[a2]);
                        }
                    }
                    lemma_entries_map(s);
                    let want = old(self)@.remove(key);
                    assert forall|k: (Platform, Seq<char>)| #[trigger] want.contains_key(k) implies entries_map(
                        s,
                    ).contains_key(k) by {
                        let j = choose|j: int| 0 <= j < old_entries.len() && entry_key(#[trigger] old_entries[j]) == k;
                        assert(j != i);
                        let j2 = if j < i { j } else { j - 1 };
                        assert(s[j2] == old_entries[j]);
                    }
                    assert forall|k: (Platform, Seq<char>)| #[trigger] entries_map(s).contains_key(k) implies want.contains_key(k)
                        && entries_map(s)[k] == want[k] by {
                        let j = choose|j: int| 0 <= j < s.len() && entry_key(#[trigger] s[j]) == k;
                        let j2 = if j < i { j } else { j + 1 };
                        assert(s[j] == old_entries[j2]);
                        assert(j2 != i);
                    }
                    assert(entries_map(s) =~= want);
                }
            },
            None => {
                proof {
                    assert(self@ =~= old(self)@.remove(key));
                }
            },
        }
    }

    /// The alias of a user, if it has one.
    pub fn get(&self, platform: Platform, platform_user_id: &str) -> (r: Option<&str>)
        requires
            self.wf(),
        ensures
            match r {
                Some(s) => alias_lookup(self@, platform, platform_user_id@) == Some(s@),
                None => alias_lookup(self@, platform, platform_user_id@) is None,
            },
    {
        proof {
            lemma_entries_map(self.entries@);
        }
        match self.find(platform, platform_user_id) {
            Some(i) => Some(self.entries[i].2.as_str()),
            None => None,
        }
    }
}

/// Reading a user's alias gives back what was last set for that user: the alias, or nothing
/// when it was set empty.
pub proof fn alias_read_after_set(
    m: Map<(Platform, Seq<char>), Seq<char>>,
    platform: Platform,
    user_id: Seq<char>,
    alias: Seq<char>,
)
    ensures
        alias_lookup(with_alias(m, platform, user_id, alias), platform, user_id) == (if alias.len() == 0 {
            None
        } else {
            Some(alias)
        }),
{
}

/// Setting or removing one user's alias leaves every other user's alias as it was.
pub proof fn alias_other_users_unchanged(
    m: Map<(Platform, Seq<char>), Seq<char>>,
    platform: Platform,
    user_id: Seq<char>,
    alias: Seq<char>,
    other_platform: Platform,
    other_id: Seq<char>,
)
    requires
        alias_key(platform, user_id) != alias_key(other_platform, other_id),
    ensures
        alias_lookup(with_alias(m, platform, user_id, alias), other_platform, other_id) == alias_lookup(
            m,
            other_platform,
            other_id,
        ),
        alias_lookup(m.remove(alias_key(platform, user_id)), other_platform, other_id) == alias_lookup(
            m,
            other_platform,
            other_id,
        ),
{
}

/// After a removal the user has no alias.
pub proof fn alias_read_after_remove(m: Map<(Platform, Seq<char>), Seq<char>>, platform: Platform, user_id: Seq<char>)
    ensures
        alias_lookup(m.remove(alias_key(platform, user_id)), platform, user_id) is None,
{
}

/// A message as chat shows it, with the author's alias in place of the display name.
#[derive(Debug, Clone, PartialEq)]
pub struct AliasedChatMessage {
    pub message: NormalizedChatMessage,
    pub original_display_name: String,
    pub alias: Option<String>,
}

/// The message with the author's display name replaced.
pub open spec fn with_display_name(m: MessageView, name: Seq<char>) -> MessageView {
    let a = m.3;
    (m.0, m.1, m.2, (a.0, a.1, name, a.3, a.4, a.5), m.4, m.5, m.6, m.7, m.8)
}

/// An alias counts when it is not empty.
pub open spec fn effective_alias(alias: Option<Seq<char>>) -> Option<Seq<char>> {
    match alias {
        Some(a) => if a.len() > 0 {
            Some(a)
        } else {
            None
        },
        None => None,
    }
}

/// Shows `message` under `alias` when it is a non-empty alias, keeping the original display
/// name beside it.
pub fn apply_alias(message: &NormalizedChatMessage, alias: Option<&str>) -> (r: AliasedChatMessage)
    ensures
        r.original_display_name@ == message.author.display_name@,
        crate::protocol::types::opt_seq(r.alias) == effective_alias(
            match alias {
                Some(a) => Some(a@),
                None => None,
            },
        ),
        r.message@ == match effective_alias(
            match alias {
                Some(a) => Some(a@),
                None => None,
            },
        ) {
            Some(a) => with_display_name(message@, a),
            None => message@,
        },
{
    let mut m = message.clone();
    let original_display_name = message.author.display_name.clone();
    let alias: Option<String> = match alias {
        Some(a) => if a.is_empty() {
            None
        } else {
            Some(crate::text::owned(a))
        },
        None => None,
    };
    match &alias {
        Some(a) => {
            m.author.display_name = a.clone();
        },
        None => {},
    }
    AliasedChatMessage { message: m, original_display_name, alias }
}

impl AliasBook {
    /// Shows `message` under its author's alias, if the author has one.
    pub fn apply(&self, message: &NormalizedChatMessage) -> (r: AliasedChatMessage)
        requires
            self.wf(),
        ensures
            r.original_display_name@ == message.author.display_name@,
            crate::protocol::types::opt_seq(r.alias) == alias_lookup(self@, message.platform, message.author.id@),
            r.message@ == match alias_lookup(self@, message.platform, message.author.id@) {
                Some(a) => with_display_name(message@, a),
                None => message@,
            },
    {
        proof {
            lemma_aliases_non_empty(self);
        }
        apply_alias(message, self.get(message.platform, message.author.id.as_str()))
    }
}

/// Every alias the book holds is non-empty.
proof fn lemma_aliases_non_empty(book: &AliasBook)
    requires
        book.wf(),
    ensures
        forall|k: (Platform, Seq<char>)| #[trigger] book@.contains_key(k) ==> book@[k].len() > 0,
{
    lemma_entries_map(book.entries@);
    assert forall|k: (Platform, Seq<char>)| #[trigger] book@.contains_key(k) implies book@[k].len() > 0 by {
        let i = choose|i: int| 0 <= i < book.entries@.len() && entry_key(#[trigger] book.entries@[i]) == k;
    }
}

/// Every message shown under its author's alias ([`AliasBook::apply`]).
pub fn apply_aliases(messages: &Vec<NormalizedChatMessage>, aliases: &AliasBook) -> (r: Vec<AliasedChatMessage>)
    requires
        aliases.wf(),
    ensures
        r@.len() == messages@.len(),
        forall|i: int|
            0 <= i < messages@.len() ==> {
                let m = #[trigger] messages@[i];
                &&& r@[i].original_display_name@ == m.author.display_name@
                &&& crate::protocol::types::opt_seq(r@[i].alias) == alias_lookup(aliases@, m.platform, m.author.id@)
                &&& r@[i].message@ == match alias_lookup(aliases@, m.platform, m.author.id@) {
                    Some(a) => with_display_name(m@, a),
                    None => m@,
                }
            },
{
    let mut out: Vec<AliasedChatMessage> = Vec::new();
    let mut i: usize = 0;
    while i < messages.len()
        invariant
            i <= messages@.len(),
            aliases.wf(),
            out@.len() == i,
            forall|k: int|
                0 <= k < i ==> {
                    let m = #[trigger] messages@[k];
                    &&& out@[k].original_display_name@ == m.author.display_name@
                    &&& crate::protocol::types::opt_seq(out@[k].alias) == alias_lookup(aliases@, m.platform, m.author.id@)
                    &&& out@[k].message@ == match alias_lookup(aliases@, m.platform, m.author.id@) {
                        Some(a) => with_display_name(m@, a),
                        None => m@,
                    }
                },
        decreases messages@.len() - i,
    {
        let a = aliases.apply(&messages[i]);
        out.push(a);
        i = i + 1;
    }
    out
}

} // verus!
