//! Chat aggregation: the 7TV emote catalog, the emotes it finds in messages, and the buffer
//! of recent messages.
use crate::chat::normalize::{chars_less, str_less};
use crate::protocol::types::{Emote, EmotePosition, EmoteView, MessageView, NormalizedChatMessage, NormalizedEvent, Platform};
use crate::text::str_eq;
use vstd::prelude::*;

verus! {

/// A 7TV emote of a channel. The aspect ratio is kept as the bit pattern of the `f64` that the
/// 7TV API gives (`f64::to_bits`), carried through unchanged.
#[derive(Debug, PartialEq, Eq)]
pub struct SevenTvEmote {
    pub id: String,
    pub name: String,
    pub image_url: String,
    pub animated: bool,
    pub zero_width: bool,
    pub aspect_ratio_bits: u64,
}

impl Clone for SevenTvEmote {
    fn clone(&self) -> (r: Self)
        ensures
            r == *self,
    {
        SevenTvEmote {
            id: self.id.clone(),
            name: self.name.clone(),
            image_url: self.image_url.clone(),
            animated: self.animated,
            zero_width: self.zero_width,
            aspect_ratio_bits: self.aspect_ratio_bits,
        }
    }
}

/// A 7TV emote's id, name, image address, animation and zero-width flags, and aspect ratio bits.
pub type SevenTvEmoteView = (Seq<char>, Seq<char>, Seq<char>, bool, bool, u64);

impl View for SevenTvEmote {
    type V = SevenTvEmoteView;

    open spec fn view(&self) -> SevenTvEmoteView {
        (self.id@, self.name@, self.image_url@, self.animated, self.zero_width, self.aspect_ratio_bits)
    }
}

/// A catalog entry: the platform and channel an emote belongs to, and the emote.
pub type CatalogEntry = (Platform, Seq<char>, SevenTvEmoteView);

/// The key of a catalog entry: platform, channel, and the emote's name.
pub open spec fn entry_key(e: CatalogEntry) -> (Platform, Seq<char>, Seq<char>) {
    (e.0, e.1, e.2.1)
}

/// The entries of `s` without those under the key `k`.
pub open spec fn drop_key(s: Seq<CatalogEntry>, k: (Platform, Seq<char>, Seq<char>)) -> Seq<CatalogEntry>
    decreases s.len(),
{
    if s.len() == 0 {
        s
    } else {
        let kept = drop_key(s.drop_last(), k);
        if entry_key(s.last()) == k {
            kept
        } else {
            kept.push(s.last())
        }
    }
}

/// The position of a platform in the order of keys (the order of its variants).
pub open spec fn platform_rank(p: Platform) -> int {
    match p {
        Platform::Twitch => 0,
        Platform::Youtube => 1,
        Platform::Kick => 2,
    }
}

/// The order of catalog keys: by platform, then channel, then name.
pub open spec fn key_less(a: (Platform, Seq<char>, Seq<char>), b: (Platform, Seq<char>, Seq<char>)) -> bool {
    ||| platform_rank(a.0) < platform_rank(b.0)
    ||| platform_rank(a.0) == platform_rank(b.0) && chars_less(a.1, b.1)
    ||| platform_rank(a.0) == platform_rank(b.0) && a.1 == b.1 && chars_less(a.2, b.2)
}

/// The number of leading entries of `s` whose key comes before `k`: where an entry under `k`
/// goes.
pub open spec fn key_pos(s: Seq<CatalogEntry>, k: (Platform, Seq<char>, Seq<char>)) -> nat
    decreases s.len(),
{
    if s.len() > 0 && key_less(entry_key(s[0]), k) {
        1 + key_pos(s.drop_first(), k)
    } else {
        0
    }
}

/// The catalog after storing `e`: it replaces any entry under its key, in key order.
pub open spec fn catalog_insert(s: Seq<CatalogEntry>, e: CatalogEntry) -> Seq<CatalogEntry> {
    let t = drop_key(s, entry_key(e));
    t.insert(key_pos(t, entry_key(e)) as int, e)
}

/// The emote stored under a key, if any (the first entry under it).
pub open spec fn catalog_get(s: Seq<CatalogEntry>, k: (Platform, Seq<char>, Seq<char>)) -> Option<SevenTvEmoteView>
    decreases s.len(),
{
    if s.len() == 0 {
        None
    } else if entry_key(s[0]) == k {
        Some(s[0].2)
    } else {
        catalog_get(s.drop_first(), k)
    }
}

/// The emotes of one channel, in catalog order.
pub open spec fn channel_emotes(s: Seq<CatalogEntry>, p: Platform, c: Seq<char>) -> Seq<SevenTvEmoteView>
    decreases s.len(),
{
    if s.len() == 0 {
        Seq::empty()
    } else {
        let kept = channel_emotes(s.drop_last(), p, c);
        if s.last().0 == p && s.last().1 == c {
            kept.push(s.last().2)
        } else {
            kept
        }
    }
}

/// The entries of `s` outside one channel.
pub open spec fn drop_channel(s: Seq<CatalogEntry>, p: Platform, c: Seq<char>) -> Seq<CatalogEntry>
    decreases s.len(),
{
    if s.len() == 0 {
        s
    } else {
        let kept = drop_channel(s.drop_last(), p, c);
        if s.last().0 == p && s.last().1 == c {
            kept
        } else {
            kept.push(s.last())
        }
    }
}

/// The entries of `s` but those of one channel whose emote has the id `id`.
pub open spec fn drop_emote_id(s: Seq<CatalogEntry>, p: Platform, c: Seq<char>, id: Seq<char>) -> Seq<CatalogEntry>
    decreases s.len(),
{
    if s.len() == 0 {
        s
    } else {
        let kept = drop_emote_id(s.drop_last(), p, c, id);
        if s.last().0 == p && s.last().1 == c && s.last().2.0 == id {
            kept
        } else {
            kept.push(s.last())
        }
    }
}

/// The last emote of one channel with the id `id`, in catalog order.
pub open spec fn last_with_id(s: Seq<CatalogEntry>, p: Platform, c: Seq<char>, id: Seq<char>) -> Option<SevenTvEmoteView>
    decreases s.len(),
{
    if s.len() == 0 {
        None
    } else if s.last().0 == p && s.last().1 == c && s.last().2.0 == id {
        Some(s.last().2)
    } else {
        last_with_id(s.drop_last(), p, c, id)
    }
}

/// The catalog after each of `es` in turn is stored for one channel.
pub open spec fn insert_all(s: Seq<CatalogEntry>, p: Platform, c: Seq<char>, es: Seq<SevenTvEmoteView>) -> Seq<CatalogEntry>
    decreases es.len(),
{
    if es.len() == 0 {
        s
    } else {
        catalog_insert(insert_all(s, p, c, es.drop_last()), (p, c, es.last()))
    }
}

/// The 7TV emotes known for each channel, by platform, channel and emote name.
#[derive(Debug, PartialEq)]
pub struct SevenTvCatalog {
    entries: Vec<(Platform, String, SevenTvEmote)>,
}

/// The entries of a catalog as views.
pub open spec fn entries_view(v: Seq<(Platform, String, SevenTvEmote)>) -> Seq<CatalogEntry> {
    Seq::new(v.len(), |i: int| (v[i].0, v[i].1@, v[i].2@))
}

impl View for SevenTvCatalog {
    type V = Seq<CatalogEntry>;

    closed spec fn view(&self) -> Seq<CatalogEntry> {
        entries_view(self.entries@)
    }
}

/// Whether the key of `e` comes before the key `(p, c, n)`.
fn entry_before(e: &(Platform, String, SevenTvEmote), p: Platform, c: &str, n: &str) -> (r: bool)
    ensures
        r == key_less(entry_key((e.0, e.1@, e.2@)), (p, c@, n@)),
{
    let ra: u8 = match e.0 {
        Platform::Twitch => 0,
        Platform::Youtube => 1,
        Platform::Kick => 2,
    };
    let rb: u8 = match p {
        Platform::Twitch => 0,
        Platform::Youtube => 1,
        Platform::Kick => 2,
    };
    if ra < rb {
        return true;
    }
    if ra > rb {
        return false;
    }
    if str_less(e.1.as_str(), c) {
        return true;
    }
    str_eq(e.1.as_str(), c) && str_less(e.2.name.as_str(), n)
}

/// Whether `e` lies under the key `(p, c, n)`.
fn entry_has_key(e: &(Platform, String, SevenTvEmote), p: Platform, c: &str, n: &str) -> (r: bool)
    ensures
        r == (entry_key((e.0, e.1@, e.2@)) == (p, c@, n@)),
{
    e.0 == p && str_eq(e.1.as_str(), c) && str_eq(e.2.name.as_str(), n)
}

impl Clone for SevenTvCatalog {
    fn clone(&self) -> (r: Self)
        ensures
            r@ == self@,
    {
        let mut entries: Vec<(Platform, String, SevenTvEmote)> = Vec::new();
        let mut i: usize = 0;
        while i < self.entries.len()
            invariant
                i <= self.entries@.len(),
                entries_view(entries@) == entries_view(self.entries@).take(i as int),
            decreases self.entries@.len() - i,
        {
            let e = &self.entries[i];
            let ghost old_entries = entries@;
            entries.push((e.0, e.1.clone(), e.2.clone()));
            proof {
                assert(entries_view(entries@) =~= entries_view(old_entries).push(entries_view(self.entries@)[i as int]));
                assert(entries_view(self.entries@).take(i + 1) =~= entries_view(self.entries@).take(i as int).push(
                    entries_view(self.entries@)[i as int],
                ));
            }
            i = i + 1;
        }
        proof {
            assert(entries_view(self.entries@).take(i as int) =~= entries_view(self.entries@));
        }
        SevenTvCatalog { entries }
    }
}

impl SevenTvCatalog {
    /// An empty catalog.
    pub fn new() -> (r: Self)
        ensures
            r@ == Seq::<CatalogEntry>::empty(),
    {
        let r = SevenTvCatalog { entries: Vec::new() };
        assert(r@ =~= Seq::<CatalogEntry>::empty());
        r
    }

    /// Stores `emote` for a channel under its name, replacing what was stored under that name.
    pub fn insert(&mut self, platform: Platform, channel_id: String, emote: SevenTvEmote)
        ensures
            final(self)@ == catalog_insert(old(self)@, (platform, channel_id@, emote@)),
    {
        let ghost s = self@;
        let ghost k = (platform, channel_id@, emote.name@);
        let mut kept: Vec<(Platform, String, SevenTvEmote)> = Vec::new();
        let mut i: usize = 0;
        while i < self.entries.len()
            invariant
                i <= self.entries@.len(),
                s == entries_view(self.entries@),
                k == (platform, channel_id@, emote.name@),
                entries_view(kept@) == drop_key(s.take(i as int), k),
            decreases self.entries@.len() - i,
        {
            proof {
                assert(s.take(i + 1).drop_last() =~= s.take(i as int));
                assert(s.take(i + 1).last() == s[i as int]);
                assert(s[i as int] == (self.entries@[i as int].0, self.entries@[i as int].1@, self.entries@[i as int].2@));
            }
            if !entry_has_key(&self.entries[i], platform, channel_id.as_str(), emote.name.as_str()) {
                let e = &self.entries[i];
                let ghost old_kept = kept@;
                kept.push((e.0, e.1.clone(), e.2.clone()));
                proof {
                    assert(entries_view(kept@) =~= entries_view(old_kept).push(s[i as int]));
                }
            }
            i = i + 1;
        }
        proof {
            assert(s.take(i as int) =~= s);
        }
        let ghost t = entries_view(kept@);
        let mut pos: usize = 0;
        proof {
            assert(t.skip(0) =~= t);
        }
        while pos < kept.len() && entry_before(&kept[pos], platform, channel_id.as_str(), emote.name.as_str())
            invariant
                pos <= kept@.len(),
                t == entries_view(kept@),
                k == (platform, channel_id@, emote.name@),
                key_pos(t, k) == pos + key_pos(t.skip(pos as int), k),
            decreases kept@.len() - pos,
        {
            proof {
                assert(t.skip(pos as int)[0] == t[pos as int]);
                assert(t.skip(pos as int).drop_first() =~= t.skip(pos + 1));
            }
            pos = pos + 1;
        }
        proof {
            if pos < kept@.len() {
                assert(t.skip(pos as int)[0] == t[pos as int]);
            }
        }
        let ghost e_view = (platform, channel_id@, emote@);
        kept.insert(pos, (platform, channel_id, emote));
        proof {
            assert(entries_view(kept@) =~= t.insert(pos as int, e_view));
        }
        self.entries = kept;
    }

    /// The emote stored for a channel under `name`, if any.
    pub fn get(&self, platform: Platform, channel_id: &str, name: &str) -> (r: Option<&SevenTvEmote>)
        ensures
            match r {
                Some(e) => catalog_get(self@, (platform, channel_id@, name@)) == Some(e@),
                None => catalog_get(self@, (platform, channel_id@, name@)) is None,
            },
    {
        let ghost s = self@;
        let ghost k = (platform, channel_id@, name@);
        let mut i: usize = 0;
        proof {
            assert(s.skip(0) =~= s);
        }
        while i < self.entries.len()
            invariant
                i <= self.entries@.len(),
                s == self@,
                s == entries_view(self.entries@),
                k == (platform, channel_id@, name@),
                catalog_get(s, k) == catalog_get(s.skip(i as int), k),
            decreases self.entries@.len() - i,
        {
            proof {
                assert(s.skip(i as int)[0] == s[i as int]);
                assert(s.skip(i as int).drop_first() =~= s.skip(i + 1));
            }
            if entry_has_key(&self.entries[i], platform, channel_id, name) {
                return Some(&self.entries[i].2);
            }
            i = i + 1;
        }
        None
    }
}

impl SevenTvCatalog {
    /// The emotes of a channel, in catalog order.
    pub fn for_channel(&self, platform: Platform, channel_id: &str) -> (r: Vec<SevenTvEmote>)
        ensures
            Seq::new(r@.len(), |i: int| r@[i]@) == channel_emotes(self@, platform, channel_id@),
    {
        let ghost s = self@;
        let mut out: Vec<SevenTvEmote> = Vec::new();
        let mut i: usize = 0;
        while i < self.entries.len()
            invariant
                i <= self.entries@.len(),
                s == self@,
                s == entries_view(self.entries@),
                Seq::new(out@.len(), |j: int| out@[j]@) == channel_emotes(s.take(i as int), platform, channel_id@),
            decreases self.entries@.len() - i,
        {
            proof {
                assert(s.take(i + 1).drop_last() =~= s.take(i as int));
                assert(s.take(i + 1).last() == s[i as int]);
            }
            let e = &self.entries[i];
            if e.0 == platform && str_eq(e.1.as_str(), channel_id) {
                let c = e.2.clone();
                let ghost old_out = out@;
                out.push(c);
                proof {
                    assert(Seq::new(out@.len(), |j: int| out@[j]@) =~= Seq::new(old_out.len(), |j: int| old_out[j]@).push(c@));
                }
            }
            i = i + 1;
        }
        proof {
            assert(s.take(i as int) =~= s);
        }
        out
    }

    /// The emotes of the first of `channel_ids` that has any; none when no channel has any.
    pub fn for_channel_candidates(&self, platform: Platform, channel_ids: &Vec<String>) -> (r: Vec<SevenTvEmote>)
        ensures
            ({
                let ids = crate::text::strings_view(channel_ids@);
                let listed = Seq::new(r@.len(), |i: int| r@[i]@);
                ||| (listed.len() == 0 && forall|k: int| 0 <= k < ids.len() ==> #[trigger] channel_emotes(self@, platform, ids[k]).len() == 0)
                ||| exists|k: int|
                    0 <= k < ids.len() && listed == channel_emotes(self@, platform, ids[k]) && listed.len() > 0
                        && forall|j: int| 0 <= j < k ==> #[trigger] channel_emotes(self@, platform, ids[j]).len() == 0
            }),
    {
        let ghost ids = crate::text::strings_view(channel_ids@);
        let mut k: usize = 0;
        while k < channel_ids.len()
            invariant
                k <= channel_ids@.len(),
                ids == crate::text::strings_view(channel_ids@),
                forall|j: int| 0 <= j < k ==> #[trigger] channel_emotes(self@, platform, ids[j]).len() == 0,
            decreases channel_ids@.len() - k,
        {
            let emotes = self.for_channel(platform, channel_ids[k].as_str());
            assert(ids[k as int] == channel_ids@[k as int]@);
            if emotes.len() > 0 {
                return emotes;
            }
            k = k + 1;
        }
        Vec::new()
    }

    /// Drops every emote of a channel, then stores `emotes` for it in turn.
    pub fn replace_for_channel(&mut self, platform: Platform, channel_id: &str, emotes: Vec<SevenTvEmote>)
        ensures
            final(self)@ == insert_all(
                drop_channel(old(self)@, platform, channel_id@),
                platform,
                channel_id@,
                Seq::new(emotes@.len(), |i: int| emotes@[i]@),
            ),
    {
        let ghost s = self@;
        let mut kept: Vec<(Platform, String, SevenTvEmote)> = Vec::new();
        let mut i: usize = 0;
        while i < self.entries.len()
            invariant
                i <= self.entries@.len(),
                s == entries_view(self.entries@),
                entries_view(kept@) == drop_channel(s.take(i as int), platform, channel_id@),
            decreases self.entries@.len() - i,
        {
            proof {
                assert(s.take(i + 1).drop_last() =~= s.take(i as int));
                assert(s.take(i + 1).last() == s[i as int]);
            }
            let e = &self.entries[i];
            if !(e.0 == platform && str_eq(e.1.as_str(), channel_id)) {
                let ghost old_kept = kept@;
                kept.push((e.0, e.1.clone(), e.2.clone()));
                proof {
                    assert(entries_view(kept@) =~= entries_view(old_kept).push(s[i as int]));
                }
            }
            i = i + 1;
        }
        proof {
            assert(s.take(i as int) =~= s);
        }
        self.entries = kept;
        let ghost base = self@;
        let ghost es = Seq::new(emotes@.len(), |i: int| emotes@[i]@);
        let mut j: usize = 0;
        proof {
            assert(es.take(0) =~= Seq::<SevenTvEmoteView>::empty());
        }
        while j < emotes.len()
            invariant
                j <= emotes@.len(),
                es == Seq::new(emotes@.len(), |i: int| emotes@[i]@),
                self@ == insert_all(base, platform, channel_id@, es.take(j as int)),
            decreases emotes@.len() - j,
        {
            let e = emotes[j].clone();
            proof {
                assert(es.take(j + 1).drop_last() =~= es.take(j as int));
                assert(es.take(j + 1).last() == e@);
            }
            self.insert(platform, crate::text::owned(channel_id), e);
            j = j + 1;
        }
        proof {
            assert(es.take(j as int) =~= es);
        }
    }

    /// Drops the emotes of a channel with the id `emote_id`.
    pub fn remove_by_id(&mut self, platform: Platform, channel_id: &str, emote_id: &str)
        ensures
            final(self)@ == drop_emote_id(old(self)@, platform, channel_id@, emote_id@),
    {
        let ghost s = self@;
        let mut kept: Vec<(Platform, String, SevenTvEmote)> = Vec::new();
        let mut i: usize = 0;
        while i < self.entries.len()
            invariant
                i <= self.entries@.len(),
                s == entries_view(self.entries@),
                entries_view(kept@) == drop_emote_id(s.take(i as int), platform, channel_id@, emote_id@),
            decreases self.entries@.len() - i,
        {
            proof {
                assert(s.take(i + 1).drop_last() =~= s.take(i as int));
                assert(s.take(i + 1).last() == s[i as int]);
            }
            let e = &self.entries[i];
            if !(e.0 == platform && str_eq(e.1.as_str(), channel_id) && str_eq(e.2.id.as_str(), emote_id)) {
                let ghost old_kept = kept@;
                kept.push((e.0, e.1.clone(), e.2.clone()));
                proof {
                    assert(entries_view(kept@) =~= entries_view(old_kept).push(s[i as int]));
                }
            }
            i = i + 1;
        }
        proof {
            assert(s.take(i as int) =~= s);
        }
        self.entries = kept;
    }

    /// Renames the emote of a channel with the id `emote_id` to `alias`: its entries go, and
    /// the last of them (in catalog order) comes back under the new name.
    pub fn update_alias(&mut self, platform: Platform, channel_id: &str, emote_id: &str, alias: &str)
        ensures
            final(self)@ == match last_with_id(old(self)@, platform, channel_id@, emote_id@) {
                Some(e) => catalog_insert(
                    drop_emote_id(old(self)@, platform, channel_id@, emote_id@),
                    (platform, channel_id@, (e.0, alias@, e.2, e.3, e.4, e.5)),
                ),
                None => old(self)@,
            },
    {
        let ghost s = self@;
        let mut updated: Option<SevenTvEmote> = None;
        let mut kept: Vec<(Platform, String, SevenTvEmote)> = Vec::new();
        let mut i: usize = 0;
        while i < self.entries.len()
            invariant
                i <= self.entries@.len(),
                s == entries_view(self.entries@),
                entries_view(kept@) == drop_emote_id(s.take(i as int), platform, channel_id@, emote_id@),
                match updated {
                    Some(u) => last_with_id(s.take(i as int), platform, channel_id@, emote_id@) == Some(
                        (u@.0, u@.1, u@.2, u@.3, u@.4, u@.5),
                    ),
                    None => last_with_id(s.take(i as int), platform, channel_id@, emote_id@) is None,
                },
            decreases self.entries@.len() - i,
        {
            proof {
                assert(s.take(i + 1).drop_last() =~= s.take(i as int));
                assert(s.take(i + 1).last() == s[i as int]);
            }
            let e = &self.entries[i];
            if e.0 == platform && str_eq(e.1.as_str(), channel_id) && str_eq(e.2.id.as_str(), emote_id) {
                updated = Some(e.2.clone());
            } else {
                let ghost old_kept = kept@;
                kept.push((e.0, e.1.clone(), e.2.clone()));
                proof {
                    assert(entries_view(kept@) =~= entries_view(old_kept).push(s[i as int]));
                }
            }
            i = i + 1;
        }
        proof {
            assert(s.take(i as int) =~= s);
        }
        match updated {
            Some(mut emote) => {
                emote.name = crate::text::owned(alias);
                self.entries = kept;
                self.insert(platform, crate::text::owned(channel_id), emote);
            },
            None => {
                proof {
                    lemma_drop_emote_id_unmatched(s, platform, channel_id@, emote_id@);
                }
                self.entries = kept;
            },
        }
    }
}

proof fn lemma_drop_emote_id_unmatched(s: Seq<CatalogEntry>, p: Platform, c: Seq<char>, id: Seq<char>)
    requires
        last_with_id(s, p, c, id) is None,
    ensures
        drop_emote_id(s, p, c, id) == s,
    decreases s.len(),
{
    if s.len() > 0 {
        lemma_drop_emote_id_unmatched(s.drop_last(), p, c, id);
        assert(s.drop_last().push(s.last()) =~= s);
    }
}

impl Default for SevenTvCatalog {
    fn default() -> (r: Self)
        ensures
            r@ == Seq::<CatalogEntry>::empty(),
    {
        SevenTvCatalog::new()
    }
}

proof fn lemma_get_concat(a: Seq<CatalogEntry>, b: Seq<CatalogEntry>, k: (Platform, Seq<char>, Seq<char>))
    ensures
        catalog_get(a + b, k) == match catalog_get(a, k) {
            Some(v) => Some(v),
            None => catalog_get(b, k),
        },
    decreases a.len(),
{
    if a.len() == 0 {
        assert(a + b =~= b);
    } else {
        assert((a + b)[0] == a[0]);
        assert((a + b).drop_first() =~= a.drop_first() + b);
        lemma_get_concat(a.drop_first(), b, k);
    }
}

proof fn lemma_get_single(x: CatalogEntry, k: (Platform, Seq<char>, Seq<char>))
    ensures
        catalog_get(seq![x], k) == if entry_key(x) == k {
            Some(x.2)
        } else {
            None
        },
{
    assert(seq![x][0] == x);
    assert(seq![x].drop_first() =~= Seq::<CatalogEntry>::empty());
    assert(catalog_get(Seq::<CatalogEntry>::empty(), k) is None);
}

proof fn lemma_get_absent(s: Seq<CatalogEntry>, k: (Platform, Seq<char>, Seq<char>))
    requires
        forall|j: int| 0 <= j < s.len() ==> entry_key(#[trigger] s[j]) != k,
    ensures
        catalog_get(s, k) is None,
    decreases s.len(),
{
    if s.len() > 0 {
        assert forall|j: int| 0 <= j < s.drop_first().len() implies entry_key(#[trigger] s.drop_first()[j]) != k by {
            assert(s.drop_first()[j] == s[j + 1]);
        }
        lemma_get_absent(s.drop_first(), k);
        assert(entry_key(s[0]) != k);
    }
}

proof fn lemma_drop_key(s: Seq<CatalogEntry>, k: (Platform, Seq<char>, Seq<char>), k2: (Platform, Seq<char>, Seq<char>))
    ensures
        forall|j: int| 0 <= j < drop_key(s, k).len() ==> entry_key(#[trigger] drop_key(s, k)[j]) != k,
        k2 != k ==> catalog_get(drop_key(s, k), k2) == catalog_get(s, k2),
    decreases s.len(),
{
    if s.len() > 0 {
        let p = s.drop_last();
        let x = s.last();
        lemma_drop_key(p, k, k2);
        lemma_get_single(x, k2);
        assert(p.push(x) =~= s);
        assert(p.push(x) =~= p + seq![x]);
        lemma_get_concat(p, seq![x], k2);
        assert(seq![x].drop_first() =~= Seq::<CatalogEntry>::empty());
        if entry_key(x) != k {
            let d = drop_key(p, k);
            assert(d.push(x) =~= d + seq![x]);
            lemma_get_concat(d, seq![x], k2);
        }
    }
}

proof fn lemma_key_pos_bound(s: Seq<CatalogEntry>, k: (Platform, Seq<char>, Seq<char>))
    ensures
        key_pos(s, k) <= s.len(),
    decreases s.len(),
{
    if s.len() > 0 && key_less(entry_key(s[0]), k) {
        lemma_key_pos_bound(s.drop_first(), k);
    }
}

/// Reading an emote from the catalog gives back what was last stored under its key; storing
/// leaves what is stored under every other key as it was.
pub proof fn catalog_read_after_insert(s: Seq<CatalogEntry>, e: CatalogEntry, k: (Platform, Seq<char>, Seq<char>))
    ensures
        catalog_get(catalog_insert(s, e), entry_key(e)) == Some(e.2),
        k != entry_key(e) ==> catalog_get(catalog_insert(s, e), k) == catalog_get(s, k),
{
    let ke = entry_key(e);
    let t = drop_key(s, ke);
    lemma_drop_key(s, ke, k);
    lemma_key_pos_bound(t, ke);
    let pos = key_pos(t, ke) as int;
    let a = t.take(pos);
    let b = t.skip(pos);
    assert(t.insert(pos, e) =~= a + (seq![e] + b));
    assert(t =~= a + b);
    lemma_get_concat(a, seq![e] + b, ke);
    lemma_get_concat(seq![e], b, ke);
    lemma_get_concat(a, seq![e] + b, k);
    lemma_get_concat(seq![e], b, k);
    lemma_get_concat(a, b, k);
    assert forall|j: int| 0 <= j < a.len() implies entry_key(#[trigger] a[j]) != ke by {
        assert(a[j] == t[j]);
    }
    lemma_get_absent(a, ke);
    lemma_get_single(e, ke);
    lemma_get_single(e, k);
}

/// The maximal runs of non-whitespace characters of `s`, as character index ranges
/// `[start, end)`, in order.
pub open spec fn word_runs(s: Seq<char>) -> Seq<(int, int)>
    decreases s.len(),
{
    if s.len() == 0 {
        Seq::empty()
    } else {
        let r = word_runs(s.drop_last());
        let i = s.len() - 1;
        if crate::text::is_ws(s[i]) {
            r
        } else if i > 0 && !crate::text::is_ws(s[i - 1]) {
            r.update(r.len() - 1, (r.last().0, i + 1))
        } else {
            r.push((i, i + 1))
        }
    }
}

/// A word of `s` with its UTF-8 byte offset and the offset of its last byte.
pub open spec fn run_token(s: Seq<char>, run: (int, int)) -> (Seq<char>, int, int) {
    (s.subrange(run.0, run.1), crate::text::byte_len(s.take(run.0)) as int, crate::text::byte_len(s.take(run.1)) - 1)
}

/// The words of the runs `runs` whose byte offsets fit in `u32`.
pub open spec fn run_tokens(s: Seq<char>, runs: Seq<(int, int)>) -> Seq<(Seq<char>, int, int)>
    decreases runs.len(),
{
    if runs.len() == 0 {
        Seq::empty()
    } else {
        let kept = run_tokens(s, runs.drop_last());
        let t = run_token(s, runs.last());
        if t.1 <= u32::MAX && t.2 <= u32::MAX {
            kept.push(t)
        } else {
            kept
        }
    }
}

/// The words of a message text, each with the byte offsets of its first and last byte.
pub open spec fn message_tokens(s: Seq<char>) -> Seq<(Seq<char>, int, int)> {
    run_tokens(s, word_runs(s))
}

proof fn lemma_word_runs_last(s: Seq<char>)
    requires
        s.len() > 0,
        !crate::text::is_ws(s.last()),
    ensures
        word_runs(s).len() > 0,
        word_runs(s).last().1 == s.len(),
    decreases s.len(),
{
    let i = s.len() - 1;
    if i > 0 && !crate::text::is_ws(s[i - 1]) {
        assert(s.drop_last().last() == s[i - 1]);
        lemma_word_runs_last(s.drop_last());
    }
}

proof fn lemma_word_runs_bounds(s: Seq<char>)
    ensures
        forall|k: int| 0 <= k < word_runs(s).len() ==> 0 <= (#[trigger] word_runs(s)[k]).0 < word_runs(s)[k].1 <= s.len(),
    decreases s.len(),
{
    if s.len() > 0 {
        let p = s.drop_last();
        lemma_word_runs_bounds(p);
        let r = word_runs(p);
        let i = s.len() - 1;
        if !crate::text::is_ws(s[i]) && i > 0 && !crate::text::is_ws(s[i - 1]) {
            assert(p.last() == s[i - 1]);
            lemma_word_runs_last(p);
        }
        assert forall|k: int| 0 <= k < word_runs(s).len() implies 0 <= (#[trigger] word_runs(s)[k]).0 < word_runs(s)[k].1 <= s.len() by {
            if k < r.len() {
                assert(0 <= r[k].0 < r[k].1 <= p.len());
            }
        }
    }
}

/// The character runs of the words of `v` ([`word_runs`]).
fn word_runs_of(v: &Vec<char>) -> (r: Vec<(usize, usize)>)
    ensures
        Seq::new(r@.len(), |k: int| (r@[k].0 as int, r@[k].1 as int)) == word_runs(v@),
{
    let mut runs: Vec<(usize, usize)> = Vec::new();
    let mut i: usize = 0;
    while i < v.len()
        invariant
            i <= v@.len(),
            Seq::new(runs@.len(), |k: int| (runs@[k].0 as int, runs@[k].1 as int)) == word_runs(v@.take(i as int)),
        decreases v@.len() - i,
    {
        let ghost t = v@.take(i + 1);
        let ghost old_runs = runs@;
        proof {
            assert(t.drop_last() =~= v@.take(i as int));
            assert(t[i as int] == v@[i as int]);
            if i > 0 {
                assert(t[i - 1] == v@[i - 1]);
                assert(v@.take(i as int).last() == v@[i - 1]);
            }
        }
        if crate::text::is_whitespace(v[i]) {
        } else if i > 0 && !crate::text::is_whitespace(v[i - 1]) {
            proof {
                lemma_word_runs_last(v@.take(i as int));
            }
            let last = runs.pop().unwrap();
            runs.push((last.0, i + 1));
            proof {
                assert(Seq::new(runs@.len(), |k: int| (runs@[k].0 as int, runs@[k].1 as int)) =~= word_runs(t)) by {
                    let w = word_runs(v@.take(i as int));
                    assert(w.len() == old_runs.len());
                    assert forall|k: int| 0 <= k < runs@.len() implies (runs@[k].0 as int, runs@[k].1 as int) == word_runs(t)[k] by {
                        if k < runs@.len() - 1 {
                            assert(runs@[k] == old_runs[k]);
                            assert(w[k] == (old_runs[k].0 as int, old_runs[k].1 as int));
                        } else {
                            assert(w[k] == (old_runs[k].0 as int, old_runs[k].1 as int));
                        }
                    }
                }
            }
        } else {
            runs.push((i, i + 1));
            proof {
                assert(Seq::new(runs@.len(), |k: int| (runs@[k].0 as int, runs@[k].1 as int)) =~= word_runs(t)) by {
                    let w = word_runs(v@.take(i as int));
                    assert forall|k: int| 0 <= k < runs@.len() implies (runs@[k].0 as int, runs@[k].1 as int) == word_runs(t)[k] by {
                        if k < runs@.len() - 1 {
                            assert(runs@[k] == old_runs[k]);
                            assert(w[k] == (old_runs[k].0 as int, old_runs[k].1 as int));
                        }
                    }
                }
            }
        }
        i = i + 1;
    }
    proof {
        assert(v@.take(i as int) =~= v@);
    }
    runs
}

/// The words of `text`, each with the byte offsets of its first and last byte
/// ([`message_tokens`]).
pub fn token_ranges(text: &str) -> (r: Vec<(String, u32, u32)>)
    ensures
        Seq::new(r@.len(), |k: int| (r@[k].0@, r@[k].1 as int, r@[k].2 as int)) == message_tokens(text@),
{
    let v = crate::text::chars_of(text);
    let total = crate::text::str_byte_len(text);
    let offs = crate::text::byte_offsets(&v, total);
    let runs = word_runs_of(&v);
    let ghost w = word_runs(v@);
    proof {
        lemma_word_runs_bounds(v@);
    }
    let mut out: Vec<(String, u32, u32)> = Vec::new();
    let mut j: usize = 0;
    while j < runs.len()
        invariant
            j <= runs@.len(),
            w == word_runs(v@),
            v@ == text@,
            Seq::new(runs@.len(), |k: int| (runs@[k].0 as int, runs@[k].1 as int)) == w,
            forall|k: int| 0 <= k < w.len() ==> 0 <= (#[trigger] w[k]).0 < w[k].1 <= v@.len(),
            offs@.len() == v@.len() + 1,
            forall|k: int| 0 <= k <= v@.len() ==> offs@[k] == crate::text::byte_len(#[trigger] v@.take(k)),
            Seq::new(out@.len(), |k: int| (out@[k].0@, out@[k].1 as int, out@[k].2 as int)) == run_tokens(v@, w.take(j as int)),
        decreases runs@.len() - j,
    {
        let (a, b) = runs[j];
        proof {
            assert(w[j as int] == (a as int, b as int));
            assert(w.take(j + 1).drop_last() =~= w.take(j as int));
            assert(w.take(j + 1).last() == w[j as int]);
            crate::text::lemma_byte_len_prefix_mono(v@, a as int, b as int);
        }
        let start = offs[a];
        let excl = offs[b];
        if start <= 0xffff_ffff && excl - 1 <= 0xffff_ffff {
            let word = crate::text::string_from_range(&v, a, b);
            let ghost old_out = out@;
            out.push((word, start as u32, (excl - 1) as u32));
            proof {
                assert(Seq::new(out@.len(), |k: int| (out@[k].0@, out@[k].1 as int, out@[k].2 as int)) =~= Seq::new(
                    old_out.len(),
                    |k: int| (old_out[k].0@, old_out[k].1 as int, old_out[k].2 as int),
                ).push(run_token(v@, w[j as int])));
            }
        }
        j = j + 1;
    }
    proof {
        assert(w.take(j as int) =~= w);
    }
    out
}

/// The index of the first emote of `m` with the id `id`.
pub open spec fn emote_index(m: Seq<EmoteView>, id: Seq<char>) -> Option<int>
    decreases m.len(),
{
    if m.len() == 0 {
        None
    } else {
        match emote_index(m.drop_last(), id) {
            Some(j) => Some(j),
            None => if m.last().0 == id {
                Some(m.len() - 1)
            } else {
                None
            },
        }
    }
}

/// The catalog's emotes found among the words `toks` of a message of channel `c` on platform
/// `p`: one emote per id, with the positions of all its words, in the order first seen.
pub open spec fn found_emotes(toks: Seq<(Seq<char>, int, int)>, cat: Seq<CatalogEntry>, p: Platform, c: Seq<char>) -> Seq<EmoteView>
    decreases toks.len(),
{
    if toks.len() == 0 {
        Seq::empty()
    } else {
        let m = found_emotes(toks.drop_last(), cat, p, c);
        let t = toks.last();
        let pos = EmotePosition { start: t.1 as u32, end: t.2 as u32 };
        match catalog_get(cat, (p, c, t.0)) {
            None => m,
            Some(e) => match emote_index(m, e.0) {
                Some(j) => m.update(j, (m[j].0, m[j].1, m[j].2, m[j].3.push(pos), m[j].4)),
                None => m.push((e.0, e.1, e.2, seq![pos], Some(e.5))),
            },
        }
    }
}

proof fn lemma_emote_index(m: Seq<EmoteView>, id: Seq<char>)
    ensures
        match emote_index(m, id) {
            Some(j) => 0 <= j < m.len() && m[j].0 == id,
            None => forall|k: int| 0 <= k < m.len() ==> (#[trigger] m[k]).0 != id,
        },
    decreases m.len(),
{
    if m.len() > 0 {
        let p = m.drop_last();
        lemma_emote_index(p, id);
        match emote_index(p, id) {
            Some(j) => {
                assert(m[j] == p[j]);
            },
            None => {
                assert forall|k: int| 0 <= k < m.len() - 1 implies (#[trigger] m[k]).0 != id by {
                    assert(m[k] == p[k]);
                }
            },
        }
    }
}

/// Finds the first emote of `m` with the id `id` ([`emote_index`]).
fn find_emote(m: &Vec<Emote>, id: &str) -> (r: Option<usize>)
    ensures
        match r {
            Some(j) => emote_index(crate::protocol::types::emotes_view(m@), id@) == Some(j as int),
            None => emote_index(crate::protocol::types::emotes_view(m@), id@) is None,
        },
{
    let ghost mv = crate::protocol::types::emotes_view(m@);
    let mut j: usize = 0;
    while j < m.len()
        invariant
            j <= m@.len(),
            mv == crate::protocol::types::emotes_view(m@),
            emote_index(mv.take(j as int), id@) is None,
        decreases m@.len() - j,
    {
        proof {
            assert(mv.take(j + 1).drop_last() =~= mv.take(j as int));
            assert(mv.take(j + 1).last() == m@[j as int]@);
        }
        if str_eq(m[j].id.as_str(), id) {
            proof {
                lemma_emote_index_prefix(mv, id@, j as int + 1);
            }
            return Some(j);
        }
        j = j + 1;
    }
    proof {
        assert(mv.take(j as int) =~= mv);
    }
    None
}

proof fn lemma_emote_index_prefix(m: Seq<EmoteView>, id: Seq<char>, n: int)
    requires
        0 <= n <= m.len(),
        emote_index(m.take(n), id) is Some,
    ensures
        emote_index(m, id) == emote_index(m.take(n), id),
    decreases m.len() - n,
{
    if n < m.len() {
        assert(m.take(n + 1).drop_last() =~= m.take(n));
        lemma_emote_index_prefix(m, id, n + 1);
    } else {
        assert(m.take(n) =~= m);
    }
}

/// The catalog's emotes found in `text`, a message of channel `channel_id` on `platform`
/// ([`found_emotes`]).
pub fn parse_seven_tv_emotes(text: &str, platform: Platform, channel_id: &str, catalog: &SevenTvCatalog) -> (r: Vec<Emote>)
    ensures
        crate::protocol::types::emotes_view(r@) == found_emotes(message_tokens(text@), catalog@, platform, channel_id@),
{
    let toks = token_ranges(text);
    let ghost tv = Seq::new(toks@.len(), |k: int| (toks@[k].0@, toks@[k].1 as int, toks@[k].2 as int));
    let mut merged: Vec<Emote> = Vec::new();
    let mut i: usize = 0;
    while i < toks.len()
        invariant
            i <= toks@.len(),
            tv == Seq::new(toks@.len(), |k: int| (toks@[k].0@, toks@[k].1 as int, toks@[k].2 as int)),
            tv == message_tokens(text@),
            crate::protocol::types::emotes_view(merged@) == found_emotes(tv.take(i as int), catalog@, platform, channel_id@),
        decreases toks@.len() - i,
    {
        let (word, start, end) = (&toks[i].0, toks[i].1, toks[i].2);
        let ghost mv = crate::protocol::types::emotes_view(merged@);
        proof {
            assert(tv.take(i + 1).drop_last() =~= tv.take(i as int));
            assert(tv.take(i + 1).last() == (word@, start as int, end as int));
        }
        match catalog.get(platform, channel_id, word.as_str()) {
            None => {},
            Some(e) => {
                let pos = EmotePosition { start, end };
                match find_emote(&merged, e.id.as_str()) {
                    Some(j) => {
                        proof {
                            lemma_emote_index(mv, e.id@);
                        }
                        let mut existing = merged.remove(j);
                        existing.positions.push(pos);
                        merged.insert(j, existing);
                        proof {
                            assert(crate::protocol::types::emotes_view(merged@) =~= mv.update(
                                j as int,
                                (mv[j as int].0, mv[j as int].1, mv[j as int].2, mv[j as int].3.push(pos), mv[j as int].4),
                            ));
                        }
                    },
                    None => {
                        let mut positions: Vec<EmotePosition> = Vec::new();
                        positions.push(pos);
                        let emote = Emote {
                            id: e.id.clone(),
                            name: e.name.clone(),
                            image_url: e.image_url.clone(),
                            positions,
                            aspect_ratio_bits: Some(e.aspect_ratio_bits),
                        };
                        merged.push(emote);
                        proof {
                            assert(positions@ =~= seq![pos]);
                            assert(crate::protocol::types::emotes_view(merged@) =~= mv.push(
                                (e@.0, e@.1, e@.2, seq![pos], Some(e@.5)),
                            ));
                        }
                    },
                }
            },
        }
        i = i + 1;
    }
    proof {
        assert(tv.take(i as int) =~= tv);
    }
    merged
}

/// Some emote of `m` has the id `id`.
pub open spec fn has_emote_id(m: Seq<EmoteView>, id: Seq<char>) -> bool {
    exists|k: int| 0 <= k < m.len() && (#[trigger] m[k]).0 == id
}

/// `base` followed by those of `extra` whose id it does not hold yet, each id once.
pub open spec fn add_new_emotes(base: Seq<EmoteView>, extra: Seq<EmoteView>) -> Seq<EmoteView>
    decreases extra.len(),
{
    if extra.len() == 0 {
        base
    } else {
        let r = add_new_emotes(base, extra.drop_last());
        if has_emote_id(r, extra.last().0) {
            r
        } else {
            r.push(extra.last())
        }
    }
}

/// Adds to `emotes` those of `extra` whose id it does not hold yet ([`add_new_emotes`]).
fn push_new_emotes(emotes: &mut Vec<Emote>, extra: &Vec<Emote>)
    ensures
        crate::protocol::types::emotes_view(final(emotes)@) == add_new_emotes(
            crate::protocol::types::emotes_view(old(emotes)@),
            crate::protocol::types::emotes_view(extra@),
        ),
{
    let ghost base = crate::protocol::types::emotes_view(emotes@);
    let ghost ev = crate::protocol::types::emotes_view(extra@);
    let mut i: usize = 0;
    assert(ev.take(0) =~= Seq::<EmoteView>::empty());
    while i < extra.len()
        invariant
            i <= extra@.len(),
            ev == crate::protocol::types::emotes_view(extra@),
            crate::protocol::types::emotes_view(emotes@) == add_new_emotes(base, ev.take(i as int)),
        decreases extra@.len() - i,
    {
        let ghost cur = crate::protocol::types::emotes_view(emotes@);
        proof {
            assert(ev.take(i + 1).drop_last() =~= ev.take(i as int));
            assert(ev.take(i + 1).last() == extra@[i as int]@);
            lemma_emote_index(cur, extra@[i as int]@.0);
        }
        match find_emote(emotes, extra[i].id.as_str()) {
            Some(_) => {},
            None => {
                let e = extra[i].clone();
                emotes.push(e);
                proof {
                    assert(crate::protocol::types::emotes_view(emotes@) =~= cur.push(e@));
                }
            },
        }
        i = i + 1;
    }
    proof {
        assert(ev.take(i as int) =~= ev);
    }
}

/// The message with `emotes` in place of its emotes.
pub open spec fn with_emotes(m: crate::protocol::types::MessageView, emotes: Seq<EmoteView>) -> crate::protocol::types::MessageView {
    (m.0, m.1, m.2, m.3, m.4, emotes, m.6, m.7, m.8)
}

/// The message with the catalog's emotes that its text uses added to its emotes (each id once).
pub fn merge_seven_tv_emotes(message: NormalizedChatMessage, catalog: &SevenTvCatalog) -> (r: NormalizedChatMessage)
    ensures
        r@ == with_emotes(
            message@,
            add_new_emotes(
                message@.5,
                found_emotes(message_tokens(message.text@), catalog@, message.platform, message.channel_id@),
            ),
        ),
{
    let found = parse_seven_tv_emotes(message.text.as_str(), message.platform, message.channel_id.as_str(), catalog);
    let mut message = message;
    let mut emotes = message.emotes;
    message.emotes = Vec::new();
    push_new_emotes(&mut emotes, &found);
    message.emotes = emotes;
    message
}

/// The message with the catalog's emotes of the 7TV channel `seven_tv_channel_id` that its
/// text uses added to its emotes (each id once); the message keeps its own channel.
pub fn enrich_message_with_seven_tv(message: NormalizedChatMessage, seven_tv_channel_id: &str, catalog: &SevenTvCatalog) -> (r:
    NormalizedChatMessage)
    ensures
        r@ == with_emotes(
            message@,
            add_new_emotes(
                message@.5,
                add_new_emotes(
                    message@.5,
                    found_emotes(message_tokens(message.text@), catalog@, message.platform, seven_tv_channel_id@),
                ),
            ),
        ),
{
    let mut lookup = message.clone();
    lookup.channel_id = crate::text::owned(seven_tv_channel_id);
    let merged_lookup = merge_seven_tv_emotes(lookup, catalog);
    let mut enriched = message;
    let mut emotes = enriched.emotes;
    enriched.emotes = Vec::new();
    push_new_emotes(&mut emotes, &merged_lookup.emotes);
    enriched.emotes = emotes;
    enriched
}

proof fn lemma_add_new_shape(b: Seq<EmoteView>, x: Seq<EmoteView>)
    ensures
        add_new_emotes(b, x).len() >= b.len(),
        add_new_emotes(b, x).take(b.len() as int) == b,
        forall|j: int| b.len() <= j < add_new_emotes(b, x).len() ==> !has_emote_id(b, (#[trigger] add_new_emotes(b, x)[j]).0),
        forall|i: int, j: int|
            b.len() <= i < j < add_new_emotes(b, x).len() ==> (#[trigger] add_new_emotes(b, x)[i]).0 != (#[trigger] add_new_emotes(b, x)[j]).0,
        forall|k: int| 0 <= k < x.len() ==> has_emote_id(add_new_emotes(b, x), (#[trigger] x[k]).0),
    decreases x.len(),
{
    if x.len() > 0 {
        let p = x.drop_last();
        lemma_add_new_shape(b, p);
        let r = add_new_emotes(b, p);
        let a = add_new_emotes(b, x);
        assert forall|k: int| 0 <= k < x.len() implies has_emote_id(a, (#[trigger] x[k]).0) by {
            if k < p.len() {
                assert(x[k] == p[k]);
                assert(has_emote_id(r, p[k].0));
                let w = choose|w: int| 0 <= w < r.len() && (#[trigger] r[w]).0 == p[k].0;
                assert(a[w] == r[w]);
            } else if !has_emote_id(r, x.last().0) {
                assert(a[r.len() as int] == x.last());
            }
        }
        if !has_emote_id(r, x.last().0) {
            assert(a.take(b.len() as int) =~= r.take(b.len() as int));
            assert forall|j: int| b.len() <= j < a.len() implies !has_emote_id(b, (#[trigger] a[j]).0) by {
                if j == r.len() {
                    if has_emote_id(b, x.last().0) {
                        let w = choose|w: int| 0 <= w < b.len() && (#[trigger] b[w]).0 == x.last().0;
                        assert(r[w] == b[w]);
                    }
                } else {
                    assert(a[j] == r[j]);
                }
            }
            assert forall|i: int, j: int| b.len() <= i < j < a.len() implies (#[trigger] a[i]).0 != (#[trigger] a[j]).0 by {
                if j == r.len() {
                    assert(a[i] == r[i]);
                } else {
                    assert(a[i] == r[i] && a[j] == r[j]);
                }
            }
        }
    }
}

proof fn lemma_add_all_present(r: Seq<EmoteView>, x: Seq<EmoteView>)
    requires
        forall|k: int| 0 <= k < x.len() ==> has_emote_id(r, (#[trigger] x[k]).0),
    ensures
        add_new_emotes(r, x) == r,
    decreases x.len(),
{
    if x.len() > 0 {
        let p = x.drop_last();
        assert forall|k: int| 0 <= k < p.len() implies has_emote_id(r, (#[trigger] p[k]).0) by {
            assert(p[k] == x[k]);
        }
        lemma_add_all_present(r, p);
        assert(has_emote_id(r, x[x.len() - 1].0));
    }
}

proof fn lemma_add_extension(b: Seq<EmoteView>, y: Seq<EmoteView>, j: int)
    requires
        0 <= j <= y.len(),
        forall|k: int| 0 <= k < y.len() ==> !has_emote_id(b, (#[trigger] y[k]).0),
        forall|i: int, k: int| 0 <= i < k < y.len() ==> (#[trigger] y[i]).0 != (#[trigger] y[k]).0,
    ensures
        add_new_emotes(b, b + y.take(j)) == b + y.take(j),
    decreases j,
{
    if j == 0 {
        assert(b + y.take(0) =~= b);
        assert forall|k: int| 0 <= k < b.len() implies has_emote_id(b, (#[trigger] b[k]).0) by {}
        lemma_add_all_present(b, b);
    } else {
        lemma_add_extension(b, y, j - 1);
        let z = b + y.take(j);
        assert(z.drop_last() =~= b + y.take(j - 1));
        assert(z.last() == y[j - 1]);
        let r = b + y.take(j - 1);
        if has_emote_id(r, y[j - 1].0) {
            let w = choose|w: int| 0 <= w < r.len() && (#[trigger] r[w]).0 == y[j - 1].0;
            if w < b.len() {
                assert(r[w] == b[w]);
            } else {
                assert(r[w] == y[w - b.len()]);
            }
        }
        assert(r.push(y[j - 1]) =~= z);
    }
}

/// Adding the catalog's emotes to a message twice adds nothing the second time; and adding
/// to the emotes `b` what adding `x` to them gave is the same as adding `x`.
pub proof fn adding_emotes_is_idempotent(b: Seq<EmoteView>, x: Seq<EmoteView>)
    ensures
        add_new_emotes(add_new_emotes(b, x), x) == add_new_emotes(b, x),
        add_new_emotes(b, add_new_emotes(b, x)) == add_new_emotes(b, x),
{
    lemma_add_new_shape(b, x);
    let a = add_new_emotes(b, x);
    lemma_add_all_present(a, x);
    let y = a.skip(b.len() as int);
    assert(a =~= b + y);
    assert forall|k: int| 0 <= k < y.len() implies !has_emote_id(b, (#[trigger] y[k]).0) by {
        assert(y[k] == a[b.len() + k]);
    }
    assert forall|i: int, k: int| 0 <= i < k < y.len() implies (#[trigger] y[i]).0 != (#[trigger] y[k]).0 by {
        assert(y[i] == a[b.len() + i] && y[k] == a[b.len() + k]);
    }
    lemma_add_extension(b, y, y.len() as int);
    assert(y.take(y.len() as int) =~= y);
}

/// A message with the catalog's emotes that its text uses added ([`merge_seven_tv_emotes`]).
pub open spec fn merged_view(m: MessageView, cat: Seq<CatalogEntry>) -> MessageView {
    with_emotes(m, add_new_emotes(m.5, found_emotes(message_tokens(m.4), cat, m.1, m.2)))
}

/// An item of a chat replay.
#[derive(Debug, Clone, PartialEq)]
pub enum ChatReplayItem {
    Message(NormalizedChatMessage),
    Event(NormalizedEvent),
}

/// What ingesting an item gave: the message as kept, the event, or the id of a message that
/// was seen already.
#[derive(Debug, Clone, PartialEq)]
pub enum IngestOutcome {
    Message(NormalizedChatMessage),
    Event(NormalizedEvent),
    DuplicateMessage { id: String },
}

/// The number of messages a chat keeps by default.
pub const DEFAULT_BUFFER_SIZE: usize = 500;

/// The recent messages of a chat, without repeats, with the 7TV emotes of their channels, and
/// the events seen. The ids of the buffered messages are the ids seen: a message whose id is in
/// the buffer is a repeat, and one that leaves the buffer can be seen again.
#[derive(Debug)]
pub struct ChatAggregator {
    buffer_size: usize,
    message_buffer: Vec<NormalizedChatMessage>,
    seven_tv: SevenTvCatalog,
    events: Vec<NormalizedEvent>,
}

/// Some message of `buf` has the id `id`.
pub open spec fn buffered_id(buf: Seq<MessageView>, id: Seq<char>) -> bool {
    exists|k: int| 0 <= k < buf.len() && (#[trigger] buf[k]).0 == id
}

/// The buffer after a new message comes in: the oldest goes when the buffer is full.
pub open spec fn buffer_after(buf: Seq<MessageView>, size: nat, m: MessageView) -> Seq<MessageView> {
    if buf.len() == size {
        buf.drop_first().push(m)
    } else {
        buf.push(m)
    }
}

/// What ingesting an item gave, as views.
pub enum OutcomeView {
    Message(MessageView),
    Event(NormalizedEvent),
    Duplicate(Seq<char>),
}

/// The view of an outcome.
pub open spec fn outcome_view(o: IngestOutcome) -> OutcomeView {
    match o {
        IngestOutcome::Message(m) => OutcomeView::Message(m@),
        IngestOutcome::Event(e) => OutcomeView::Event(e),
        IngestOutcome::DuplicateMessage { id } => OutcomeView::Duplicate(id@),
    }
}

/// One item taken in by a chat of capacity `cap` with catalog `cat`, buffer `buf` and events
/// `evs`: the new buffer, the new events and the outcome. A message whose id is buffered is a
/// duplicate; any other comes back with its 7TV emotes and joins the buffer (unless its
/// capacity is 0); an event is recorded and comes back.
pub open spec fn ingest_step(
    cap: nat,
    cat: Seq<CatalogEntry>,
    buf: Seq<MessageView>,
    evs: Seq<NormalizedEvent>,
    item: ChatReplayItem,
) -> (Seq<MessageView>, Seq<NormalizedEvent>, OutcomeView) {
    match item {
        ChatReplayItem::Message(m) => if buffered_id(buf, m@.0) {
            (buf, evs, OutcomeView::Duplicate(m@.0))
        } else {
            let mm = merged_view(m@, cat);
            (if cap == 0 {
                buf
            } else {
                buffer_after(buf, cap, mm)
            }, evs, OutcomeView::Message(mm))
        },
        ChatReplayItem::Event(e) => (buf, evs.push(e), OutcomeView::Event(e)),
    }
}

/// Items taken in one after the other ([`ingest_step`]): the final buffer and events, and the
/// outcomes in order.
pub open spec fn replay_steps(
    cap: nat,
    cat: Seq<CatalogEntry>,
    buf: Seq<MessageView>,
    evs: Seq<NormalizedEvent>,
    items: Seq<ChatReplayItem>,
) -> (Seq<MessageView>, Seq<NormalizedEvent>, Seq<OutcomeView>)
    decreases items.len(),
{
    if items.len() == 0 {
        (buf, evs, Seq::empty())
    } else {
        let prev = replay_steps(cap, cat, buf, evs, items.drop_last());
        let step = ingest_step(cap, cat, prev.0, prev.1, items.last());
        (step.0, step.1, prev.2.push(step.2))
    }
}

impl ChatAggregator {
    /// The capacity of the buffer.
    pub closed spec fn capacity(&self) -> nat {
        self.buffer_size as nat
    }

    /// The buffered messages, oldest first.
    pub closed spec fn buffered(&self) -> Seq<MessageView> {
        crate::chat::history::views(self.message_buffer@)
    }

    /// The 7TV catalog.
    pub closed spec fn catalog(&self) -> Seq<CatalogEntry> {
        self.seven_tv@
    }

    /// The events seen, in order.
    pub closed spec fn seen_events(&self) -> Seq<NormalizedEvent> {
        self.events@
    }

    /// The buffer holds at most its capacity.
    pub closed spec fn wf(&self) -> bool {
        self.message_buffer@.len() <= self.buffer_size
    }

    /// A chat keeping up to `buffer_size` messages.
    pub fn new(buffer_size: usize) -> (r: Self)
        ensures
            r.wf(),
            r.capacity() == buffer_size,
            r.buffered() == Seq::<MessageView>::empty(),
            r.catalog() == Seq::<CatalogEntry>::empty(),
            r.seen_events() == Seq::<NormalizedEvent>::empty(),
    {
        ChatAggregator::with_seven_tv(buffer_size, SevenTvCatalog::new())
    }

    /// A chat keeping up to `buffer_size` messages, with the given 7TV catalog.
    pub fn with_seven_tv(buffer_size: usize, seven_tv: SevenTvCatalog) -> (r: Self)
        ensures
            r.wf(),
            r.capacity() == buffer_size,
            r.buffered() == Seq::<MessageView>::empty(),
            r.catalog() == seven_tv@,
            r.seen_events() == Seq::<NormalizedEvent>::empty(),
    {
        let r = ChatAggregator { buffer_size, message_buffer: Vec::new(), seven_tv, events: Vec::new() };
        assert(r.buffered() =~= Seq::<MessageView>::empty());
        r
    }

    /// The 7TV catalog, to change.
    pub fn seven_tv_mut(&mut self) -> (r: &mut SevenTvCatalog)
        ensures
            r@ == old(self).catalog(),
            final(self).catalog() == final(r)@,
            final(self).capacity() == old(self).capacity(),
            final(self).buffered() == old(self).buffered(),
            final(self).seen_events() == old(self).seen_events(),
            final(self).wf() == old(self).wf(),
    {
        &mut self.seven_tv
    }

    /// Whether a message with the id `id` is buffered.
    fn has_buffered(&self, id: &str) -> (r: bool)
        ensures
            r == buffered_id(self.buffered(), id@),
    {
        let mut k: usize = 0;
        while k < self.message_buffer.len()
            invariant
                k <= self.message_buffer@.len(),
                forall|j: int| 0 <= j < k ==> (#[trigger] self.buffered()[j]).0 != id@,
            decreases self.message_buffer@.len() - k,
        {
            assert(self.buffered()[k as int] == self.message_buffer@[k as int]@);
            if str_eq(self.message_buffer[k].id.as_str(), id) {
                return true;
            }
            k = k + 1;
        }
        false
    }

    /// Takes in a message: `None` for one already buffered; else the message with its 7TV
    /// emotes, which the buffer keeps (dropping its oldest when full) unless its capacity is 0.
    pub fn inject_message(&mut self, message: NormalizedChatMessage) -> (r: Option<NormalizedChatMessage>)
        requires
            old(self).wf(),
        ensures
            final(self).wf(),
            final(self).capacity() == old(self).capacity(),
            final(self).catalog() == old(self).catalog(),
            final(self).seen_events() == old(self).seen_events(),
            if buffered_id(old(self).buffered(), message@.0) {
                r is None && final(self).buffered() == old(self).buffered()
            } else {
                &&& r matches Some(m) && m@ == merged_view(message@, old(self).catalog())
                &&& final(self).buffered() == if old(self).capacity() == 0 {
                    old(self).buffered()
                } else {
                    buffer_after(old(self).buffered(), old(self).capacity(), merged_view(message@, old(self).catalog()))
                }
            },
    {
        if self.has_buffered(message.id.as_str()) {
            return None;
        }
        let merged = merge_seven_tv_emotes(message, &self.seven_tv);
        if self.buffer_size == 0 {
            return Some(merged);
        }
        let copy = merged.clone();
        let ghost before = self.message_buffer@;
        if self.message_buffer.len() == self.buffer_size {
            let _oldest = self.message_buffer.remove(0);
        }
        self.message_buffer.push(merged);
        proof {
            let b = crate::chat::history::views(before);
            if before.len() == self.buffer_size {
                assert(self.buffered() =~= b.drop_first().push(copy@));
            } else {
                assert(self.buffered() =~= b.push(copy@));
            }
        }
        Some(copy)
    }

    /// Takes in a message as [`ChatAggregator::inject_message`] does, and hands back the
    /// buffered copy; `None` also when the capacity is 0.
    pub fn inject_message_ref(&mut self, message: NormalizedChatMessage) -> (r: Option<&NormalizedChatMessage>)
        requires
            old(self).wf(),
        ensures
            final(self).wf(),
            final(self).capacity() == old(self).capacity(),
            final(self).catalog() == old(self).catalog(),
            final(self).seen_events() == old(self).seen_events(),
            if old(self).capacity() == 0 || buffered_id(old(self).buffered(), message@.0) {
                r is None && final(self).buffered() == old(self).buffered()
            } else {
                &&& r matches Some(m) && m@ == merged_view(message@, old(self).catalog())
                &&& final(self).buffered() == buffer_after(
                    old(self).buffered(),
                    old(self).capacity(),
                    merged_view(message@, old(self).catalog()),
                )
            },
    {
        if self.buffer_size == 0 {
            return None;
        }
        if self.has_buffered(message.id.as_str()) {
            return None;
        }
        let merged = merge_seven_tv_emotes(message, &self.seven_tv);
        let ghost mm = merged@;
        let ghost before = self.message_buffer@;
        if self.message_buffer.len() == self.buffer_size {
            let _oldest = self.message_buffer.remove(0);
        }
        self.message_buffer.push(merged);
        proof {
            let b = crate::chat::history::views(before);
            if before.len() == self.buffer_size {
                assert(self.buffered() =~= b.drop_first().push(mm));
            } else {
                assert(self.buffered() =~= b.push(mm));
            }
        }
        let n = self.message_buffer.len();
        Some(&self.message_buffer[n - 1])
    }

    /// Records an event and hands it back.
    pub fn inject_event(&mut self, event: NormalizedEvent) -> (r: NormalizedEvent)
        ensures
            r == event,
            final(self).seen_events() == old(self).seen_events().push(event),
            final(self).capacity() == old(self).capacity(),
            final(self).buffered() == old(self).buffered(),
            final(self).catalog() == old(self).catalog(),
            final(self).wf() == old(self).wf(),
    {
        self.events.push(event.clone());
        event
    }

    /// Takes in one replayed item ([`ingest_step`]).
    pub fn ingest(&mut self, item: ChatReplayItem) -> (r: IngestOutcome)
        requires
            old(self).wf(),
        ensures
            final(self).wf(),
            final(self).capacity() == old(self).capacity(),
            final(self).catalog() == old(self).catalog(),
            (final(self).buffered(), final(self).seen_events(), outcome_view(r)) == ingest_step(
                old(self).capacity(),
                old(self).catalog(),
                old(self).buffered(),
                old(self).seen_events(),
                item,
            ),
    {
        match item {
            ChatReplayItem::Message(message) => {
                let id = message.id.clone();
                match self.inject_message(message) {
                    Some(m) => IngestOutcome::Message(m),
                    None => IngestOutcome::DuplicateMessage { id },
                }
            },
            ChatReplayItem::Event(event) => IngestOutcome::Event(self.inject_event(event)),
        }
    }

    /// Takes in replayed items in order, one outcome each ([`replay_steps`]).
    pub fn replay(&mut self, items: Vec<ChatReplayItem>) -> (r: Vec<IngestOutcome>)
        requires
            old(self).wf(),
        ensures
            final(self).wf(),
            final(self).capacity() == old(self).capacity(),
            final(self).catalog() == old(self).catalog(),
            (final(self).buffered(), final(self).seen_events(), Seq::new(r@.len(), |i: int| outcome_view(r@[i])))
                == replay_steps(
                old(self).capacity(),
                old(self).catalog(),
                old(self).buffered(),
                old(self).seen_events(),
                items@,
            ),
    {
        let ghost all = items@;
        let n = items.len();
        let mut outcomes: Vec<IngestOutcome> = Vec::new();
        let mut items = items;
        let mut k: usize = 0;
        proof {
            assert(all.take(0) =~= Seq::<ChatReplayItem>::empty());
            assert(Seq::new(outcomes@.len(), |i: int| outcome_view(outcomes@[i])) =~= Seq::<OutcomeView>::empty());
        }
        while items.len() > 0
            invariant
                self.wf(),
                self.capacity() == old(self).capacity(),
                self.catalog() == old(self).catalog(),
                k <= all.len(),
                all.len() == n,
                items@ == all.skip(k as int),
                (self.buffered(), self.seen_events(), Seq::new(outcomes@.len(), |i: int| outcome_view(outcomes@[i])))
                    == replay_steps(
                    old(self).capacity(),
                    old(self).catalog(),
                    old(self).buffered(),
                    old(self).seen_events(),
                    all.take(k as int),
                ),
            decreases items@.len(),
        {
            let item = items.remove(0);
            proof {
                assert(item == all[k as int]);
                assert(all.take(k + 1).drop_last() =~= all.take(k as int));
                assert(all.take(k + 1).last() == all[k as int]);
                assert(all.skip(k as int).drop_first() =~= all.skip(k + 1));
            }
            let ghost old_outcomes = outcomes@;
            let o = self.ingest(item);
            outcomes.push(o);
            proof {
                assert(Seq::new(outcomes@.len(), |i: int| outcome_view(outcomes@[i])) =~= Seq::new(
                    old_outcomes.len(),
                    |i: int| outcome_view(old_outcomes[i]),
                ).push(outcome_view(o)));
            }
            k = k + 1;
        }
        proof {
            assert(all.take(k as int) =~= all);
        }
        outcomes
    }

    /// The buffered messages, oldest first.
    pub fn recent_messages(&self) -> (r: &[NormalizedChatMessage])
        ensures
            crate::chat::history::views(r@) == self.buffered(),
    {
        self.message_buffer.as_slice()
    }

    /// Copies of the buffered messages, oldest first.
    pub fn get_recent_messages(&self) -> (r: Vec<NormalizedChatMessage>)
        ensures
            crate::chat::history::views(r@) == self.buffered(),
    {
        let mut out: Vec<NormalizedChatMessage> = Vec::new();
        let mut k: usize = 0;
        while k < self.message_buffer.len()
            invariant
                k <= self.message_buffer@.len(),
                crate::chat::history::views(out@) == self.buffered().take(k as int),
            decreases self.message_buffer@.len() - k,
        {
            let c = self.message_buffer[k].clone();
            let ghost old_out = out@;
            out.push(c);
            proof {
                assert(crate::chat::history::views(out@) =~= crate::chat::history::views(old_out).push(c@));
                assert(self.buffered().take(k + 1) =~= self.buffered().take(k as int).push(self.buffered()[k as int]));
            }
            k = k + 1;
        }
        proof {
            assert(self.buffered().take(k as int) =~= self.buffered());
        }
        out
    }

    /// The events seen, in order.
    pub fn events(&self) -> (r: &[NormalizedEvent])
        ensures
            r@ == self.seen_events(),
    {
        self.events.as_slice()
    }

    /// The number of message ids the chat remembers: those of the buffered messages.
    pub fn seen_message_count(&self) -> (r: usize)
        ensures
            r == self.buffered().len(),
    {
        self.message_buffer.len()
    }
}

impl Default for ChatAggregator {
    fn default() -> (r: Self)
        ensures
            r.wf(),
            r.capacity() == DEFAULT_BUFFER_SIZE,
            r.buffered() == Seq::<MessageView>::empty(),
            r.catalog() == Seq::<CatalogEntry>::empty(),
            r.seen_events() == Seq::<NormalizedEvent>::empty(),
    {
        ChatAggregator::new(DEFAULT_BUFFER_SIZE)
    }
}

/// A message that comes in again while the chat still buffers it is a duplicate: taking in
/// the same message twice in a row gives `Duplicate` the second time (for a chat that keeps
/// messages at all).
pub proof fn repeated_message_is_duplicate(
    cap: nat,
    cat: Seq<CatalogEntry>,
    buf: Seq<MessageView>,
    evs: Seq<NormalizedEvent>,
    m: NormalizedChatMessage,
)
    requires
        cap > 0,
        buf.len() <= cap,
    ensures
        ({
            let first = ingest_step(cap, cat, buf, evs, ChatReplayItem::Message(m));
            ingest_step(cap, cat, first.0, first.1, ChatReplayItem::Message(m)).2 == OutcomeView::Duplicate(m@.0)
        }),
{
    let first = ingest_step(cap, cat, buf, evs, ChatReplayItem::Message(m));
    if !buffered_id(buf, m@.0) {
        let nb = first.0;
        assert(nb.last().0 == m@.0);
        assert(buffered_id(nb, m@.0)) by {
            assert(nb[nb.len() - 1].0 == m@.0);
        }
    }
}

} // verus!
