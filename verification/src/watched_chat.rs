//! The chat state of the app's watched channels: the messages each channel has buffered, the
//! home feed, and the messages sent from the app, shown at once and matched to their echo
//! from the platform when it comes back.
use crate::app_state::{MainSection, OutgoingChatMessageStatus, PendingWatchedChannelMessage};
use crate::auth::connect::AccountRecord;
use crate::chat::aggregate::{
    add_new_emotes, catalog_insert, drop_channel, drop_emote_id, enrich_message_with_seven_tv, found_emotes, insert_all,
    last_with_id, message_tokens, with_emotes, CatalogEntry, SevenTvCatalog, SevenTvEmoteView,
};
use crate::chat::history::views;
use crate::chat::normalize::chars_less;
use crate::overlay::server::{eq_ignore_ascii_case, str_eq_ignore_ascii_case};
use crate::app_state::{
    home_channel_status_key, live_platform, live_status_platform, status_key, backfill_all, hydrate_badge_images_from_snapshot, image_sources, backfill_badge_images, home_channel_target_id, backfilled_message, chat_reply_from_message, is_seven_tv_emote, map_backend_seven_tv_emote,
    matches_seven_tv_channel, message_matches_seven_tv_channel, seven_tv_notice_emotes, seven_tv_notice_text,
    seven_tv_system_message_data, dedupe_channel_ids, deduped_ids, push_home_channel_status_request,
};
use crate::protocol::messages::{
    ChannelStatusRequest, LiveStatusPlatform,
    ChannelStatus, BackendPlatformStatus, BackendToDesktopMessage, DesktopToBackendMessage, SevenTvEmote as BackendSevenTvEmote,
};
use crate::protocol::types::{
    emotes_view, opt_seq, ChatAuthor, ChatMessageType, ChatReplyView, Emote, EmoteView, MessageView, NormalizedChatMessage,
    NormalizedEvent, Platform, PlatformStatus, PlatformStatusInfo, PlatformStatusMode, WatchedChannel,
};
use crate::auth::platform_debug_name;
use crate::text::{
    chars_of, contains_seq, decimal, has_prefix, is_ws, join_seqs, join_strings, owned, push_decimal, push_str, str_eq, trim,
    unicode_lowercase,
};
use crate::layout::{collect_watched_channel_ids, layout_contains_watched_channel, shows_channel, watched_ids, LayoutNode, LayoutView};
use vstd::prelude::*;

verus! {

/// The first index at which `p` holds.
pub open spec fn first_true(p: Seq<bool>) -> Option<int>
    decreases p.len(),
{
    if p.len() == 0 {
        None
    } else {
        match first_true(p.drop_last()) {
            Some(k) => Some(k),
            None => if p.last() {
                Some(p.len() - 1)
            } else {
                None
            },
        }
    }
}

/// The last index at which `p` holds.
pub open spec fn last_true(p: Seq<bool>) -> Option<int>
    decreases p.len(),
{
    if p.len() == 0 {
        None
    } else if p.last() {
        Some(p.len() - 1)
    } else {
        last_true(p.drop_last())
    }
}

pub proof fn lemma_first_true(p: Seq<bool>)
    ensures
        match first_true(p) {
            Some(k) => 0 <= k < p.len() && p[k] && forall|j: int| 0 <= j < k ==> !#[trigger] p[j],
            None => forall|j: int| 0 <= j < p.len() ==> !#[trigger] p[j],
        },
    decreases p.len(),
{
    if p.len() > 0 {
        let q = p.drop_last();
        lemma_first_true(q);
        assert forall|j: int| 0 <= j < q.len() implies q[j] == p[j] by {}
    }
}

pub proof fn lemma_last_true(p: Seq<bool>)
    ensures
        match last_true(p) {
            Some(k) => 0 <= k < p.len() && p[k] && forall|j: int| k < j < p.len() ==> !#[trigger] p[j],
            None => forall|j: int| 0 <= j < p.len() ==> !#[trigger] p[j],
        },
    decreases p.len(),
{
    if p.len() > 0 && !p.last() {
        let q = p.drop_last();
        lemma_last_true(q);
        assert forall|j: int| 0 <= j < q.len() implies q[j] == p[j] by {}
    }
}

proof fn lemma_first_true_at(p: Seq<bool>, i: int)
    requires
        0 <= i < p.len(),
        p[i],
        forall|j: int| 0 <= j < i ==> !#[trigger] p[j],
    ensures
        first_true(p) == Some(i),
{
    lemma_first_true(p);
}

proof fn lemma_first_true_none(p: Seq<bool>)
    requires
        forall|j: int| 0 <= j < p.len() ==> !#[trigger] p[j],
    ensures
        first_true(p) is None,
{
    lemma_first_true(p);
}

proof fn lemma_last_true_at(p: Seq<bool>, i: int)
    requires
        0 <= i < p.len(),
        p[i],
        forall|j: int| i < j < p.len() ==> !#[trigger] p[j],
    ensures
        last_true(p) == Some(i),
{
    lemma_last_true(p);
}

proof fn lemma_last_true_none(p: Seq<bool>)
    requires
        forall|j: int| 0 <= j < p.len() ==> !#[trigger] p[j],
    ensures
        last_true(p) is None,
{
    lemma_last_true(p);
}

/// An index as an integer.
pub open spec fn opt_int(r: Option<usize>) -> Option<int> {
    match r {
        Some(k) => Some(k as int),
        None => None,
    }
}

/// Which channels of the list have the id `id`.
pub open spec fn channel_hits(cs: Seq<WatchedChannel>, id: Seq<char>) -> Seq<bool> {
    Seq::new(cs.len(), |i: int| cs[i].id@ == id)
}

/// The first watched channel with the id `id`.
pub open spec fn channel_of(cs: Seq<WatchedChannel>, id: Seq<char>) -> Option<WatchedChannel> {
    match first_true(channel_hits(cs, id)) {
        Some(k) => Some(cs[k]),
        None => None,
    }
}

/// The account is signed in to the channel's own account: same platform, and its username is
/// the channel's slug, ignoring ASCII case.
pub open spec fn is_channel_account(a: AccountRecord, c: WatchedChannel) -> bool {
    a.platform == c.platform && eq_ignore_ascii_case(a.username@, c.channel_slug@)
}

/// Which accounts are signed in to the channel's own account.
pub open spec fn channel_account_hits(accs: Seq<AccountRecord>, c: WatchedChannel) -> Seq<bool> {
    Seq::new(accs.len(), |i: int| is_channel_account(accs[i], c))
}

/// Which accounts are on the channel's platform.
pub open spec fn platform_account_hits(accs: Seq<AccountRecord>, c: WatchedChannel) -> Seq<bool> {
    Seq::new(accs.len(), |i: int| accs[i].platform == c.platform)
}

/// The account the app speaks as in the channel: the first signed in to the channel's own
/// account, else the first on its platform.
pub open spec fn self_account_of(accs: Seq<AccountRecord>, c: WatchedChannel) -> Option<AccountRecord> {
    match first_true(channel_account_hits(accs, c)) {
        Some(k) => Some(accs[k]),
        None => match first_true(platform_account_hits(accs, c)) {
            Some(k) => Some(accs[k]),
            None => None,
        },
    }
}

/// The channel is the user's own: an account is signed in to it.
pub open spec fn is_home_channel(accs: Seq<AccountRecord>, c: WatchedChannel) -> bool {
    first_true(channel_account_hits(accs, c)) is Some
}

/// The watched channel `id` is the user's own.
pub open spec fn is_home_channel_id(cs: Seq<WatchedChannel>, accs: Seq<AccountRecord>, id: Seq<char>) -> bool {
    match channel_of(cs, id) {
        Some(c) => is_home_channel(accs, c),
        None => false,
    }
}

/// The index of the first channel of `cs` with the id `id`.
fn find_channel(cs: &Vec<WatchedChannel>, id: &str) -> (r: Option<usize>)
    ensures
        opt_int(r) == first_true(channel_hits(cs@, id@)),
        match r {
            Some(k) => k < cs@.len(),
            None => true,
        },
{
    let mut i: usize = 0;
    while i < cs.len()
        invariant
            i <= cs@.len(),
            forall|j: int| 0 <= j < i ==> !#[trigger] channel_hits(cs@, id@)[j],
        decreases cs@.len() - i,
    {
        if str_eq(cs[i].id.as_str(), id) {
            proof {
                lemma_first_true_at(channel_hits(cs@, id@), i as int);
            }
            return Some(i);
        }
        i = i + 1;
    }
    proof {
        lemma_first_true_none(channel_hits(cs@, id@));
    }
    None
}

/// Whether the account is signed in to the channel's own account ([`is_channel_account`]).
fn account_is_for_channel(a: &AccountRecord, c: &WatchedChannel) -> (r: bool)
    ensures
        r == is_channel_account(*a, *c),
{
    a.platform == c.platform && str_eq_ignore_ascii_case(a.username.as_str(), c.channel_slug.as_str())
}

/// The index of the first account signed in to the channel's own account.
fn find_channel_account(accs: &Vec<AccountRecord>, c: &WatchedChannel) -> (r: Option<usize>)
    ensures
        opt_int(r) == first_true(channel_account_hits(accs@, *c)),
        match r {
            Some(k) => k < accs@.len(),
            None => true,
        },
{
    let mut i: usize = 0;
    while i < accs.len()
        invariant
            i <= accs@.len(),
            forall|j: int| 0 <= j < i ==> !#[trigger] channel_account_hits(accs@, *c)[j],
        decreases accs@.len() - i,
    {
        if account_is_for_channel(&accs[i], c) {
            proof {
                lemma_first_true_at(channel_account_hits(accs@, *c), i as int);
            }
            return Some(i);
        }
        i = i + 1;
    }
    proof {
        lemma_first_true_none(channel_account_hits(accs@, *c));
    }
    None
}

/// The index of the account the app speaks as in the channel ([`self_account_of`]).
fn find_self_account(accs: &Vec<AccountRecord>, c: &WatchedChannel) -> (r: Option<usize>)
    ensures
        match r {
            Some(k) => k < accs@.len() && self_account_of(accs@, *c) == Some(accs@[k as int]),
            None => self_account_of(accs@, *c) is None,
        },
{
    if let Some(k) = find_channel_account(accs, c) {
        return Some(k);
    }
    let mut i: usize = 0;
    while i < accs.len()
        invariant
            i <= accs@.len(),
            first_true(channel_account_hits(accs@, *c)) is None,
            forall|j: int| 0 <= j < i ==> !#[trigger] platform_account_hits(accs@, *c)[j],
        decreases accs@.len() - i,
    {
        if accs[i].platform == c.platform {
            proof {
                lemma_first_true_at(platform_account_hits(accs@, *c), i as int);
            }
            return Some(i);
        }
        i = i + 1;
    }
    proof {
        lemma_first_true_none(platform_account_hits(accs@, *c));
    }
    None
}

/// How many messages sent from the composer the app remembers.
pub const SENT_MESSAGE_HISTORY_LIMIT: usize = 100;

/// A composer send to channels the backend serves, waiting for the result of each.
#[derive(Debug, Clone, PartialEq, Eq)]
pub struct PendingBackendSentHistory {
    pub text: String,
    pub remaining: usize,
    pub sent: usize,
}

/// The chat state of the watched channels. The buffered messages are kept per channel in the
/// order of the channels' ids, as a `BTreeMap` keeps them.
pub struct WatchedChatState {
    watched_channels: Vec<WatchedChannel>,
    accounts: Vec<AccountRecord>,
    messages: Vec<NormalizedChatMessage>,
    watched_channel_messages: Vec<(String, Vec<NormalizedChatMessage>)>,
    outgoing_message_statuses: Vec<(String, OutgoingChatMessageStatus)>,
    next_outgoing_message_sequence: u64,
    sent_message_history: Vec<String>,
    pending_backend_sent_history: Vec<PendingBackendSentHistory>,
    runtime_errors: Vec<String>,
    seven_tv_catalog: SevenTvCatalog,
    buffer_size: usize,
    events: Vec<NormalizedEvent>,
    unread_events: usize,
    active_section: MainSection,
    platform_statuses: Vec<PlatformStatusInfo>,
    composer_disabled_channel_ids: Vec<String>,
    home_reply_target: Option<NormalizedChatMessage>,
    pending_watched_channel_messages: Vec<PendingWatchedChannelMessage>,
    pending_backend_messages: Vec<DesktopToBackendMessage>,
    watched_channel_statuses: Vec<(String, PlatformStatusInfo)>,
    watched_seven_tv_channel_ids: Vec<(String, String)>,
    home_channel_statuses: Vec<(String, ChannelStatus)>,
    watched_reply_targets: Vec<(String, NormalizedChatMessage)>,
}

/// The chat state as a view. `histories` holds each channel's id and its buffered messages,
/// in the order of the ids; `statuses` the status of each message sent from the app, by its
/// client id.
pub struct WatchedChatView {
    pub watched_channels: Seq<WatchedChannel>,
    pub accounts: Seq<AccountRecord>,
    pub messages: Seq<MessageView>,
    pub histories: Seq<(Seq<char>, Seq<MessageView>)>,
    pub statuses: Map<Seq<char>, OutgoingChatMessageStatus>,
    pub next_sequence: u64,
    pub sent_history: Seq<Seq<char>>,
    pub pending_sent: Seq<(Seq<char>, usize, usize)>,
    pub runtime_errors: Seq<Seq<char>>,
    pub catalog: Seq<CatalogEntry>,
    pub buffer_size: usize,
    pub events: Seq<NormalizedEvent>,
    pub unread_events: usize,
    pub active_section: MainSection,
    pub platform_statuses: Seq<PlatformStatusInfo>,
    pub composer_disabled: Seq<Seq<char>>,
    pub reply_target: Option<MessageView>,
    pub pending_watched: Seq<PendingMessageView>,
    pub pending_backend: Seq<BackendOutgoingView>,
    pub channel_statuses: Map<Seq<char>, PlatformStatusInfo>,
    pub seven_tv_channels: Map<Seq<char>, Seq<char>>,
    pub home_statuses: Map<Seq<char>, ChannelStatus>,
    pub watched_reply_targets: Map<Seq<char>, MessageView>,
}

/// A message waiting to be sent to a watched channel: the channel, the text, the id of the
/// message it answers and its client id.
pub type PendingMessageView = (Seq<char>, Seq<char>, Option<Seq<char>>, Option<Seq<char>>);

/// The view of the messages waiting to be sent to watched channels.
pub open spec fn pending_messages_view(s: Seq<PendingWatchedChannelMessage>) -> Seq<PendingMessageView> {
    Seq::new(s.len(), |i: int| (s[i].channel_id@, s[i].text@, opt_seq(s[i].reply_to_message_id), opt_seq(s[i].client_message_id)))
}

/// A message waiting for the backend: a chat send (platform, channel, text), or another
/// message as it is.
pub enum BackendOutgoingView {
    Send(Platform, Seq<char>, Seq<char>),
    Other(DesktopToBackendMessage),
}

/// The view of a message waiting for the backend.
pub open spec fn outgoing_view(m: DesktopToBackendMessage) -> BackendOutgoingView {
    match m {
        DesktopToBackendMessage::SendMessage { platform, channel, message } => BackendOutgoingView::Send(platform, channel@, message@),
        _ => BackendOutgoingView::Other(m),
    }
}

/// The views of a list of strings.
pub open spec fn strings_view(v: Seq<String>) -> Seq<Seq<char>> {
    Seq::new(v.len(), |i: int| v[i]@)
}

/// The view of the per-channel buffers.
pub open spec fn histories_view(h: Seq<(String, Vec<NormalizedChatMessage>)>) -> Seq<(Seq<char>, Seq<MessageView>)> {
    Seq::new(h.len(), |i: int| (h[i].0@, views(h[i].1@)))
}

/// The view of the pending composer sends.
pub open spec fn pending_view(p: Seq<PendingBackendSentHistory>) -> Seq<(Seq<char>, usize, usize)> {
    Seq::new(p.len(), |i: int| (p[i].text@, p[i].remaining, p[i].sent))
}

/// Which entries of a list of keyed values have the key `k`.
pub open spec fn key_hits<V>(s: Seq<(String, V)>, k: Seq<char>) -> Seq<bool> {
    Seq::new(s.len(), |i: int| s[i].0@ == k)
}

/// A list of keyed values as a map, each key to its first value.
pub open spec fn keyed_map<V>(s: Seq<(String, V)>) -> Map<Seq<char>, V> {
    Map::new(|k: Seq<char>| first_true(key_hits(s, k)) is Some, |k: Seq<char>| s[first_true(key_hits(s, k))->0].1)
}

/// No two entries share a key.
pub open spec fn keys_unique<V>(s: Seq<(String, V)>) -> bool {
    forall|i: int, j: int| 0 <= i < j < s.len() ==> (#[trigger] s[i]).0@ != (#[trigger] s[j]).0@
}

/// Where a platform comes in `Platform`'s order.
pub open spec fn platform_rank(p: Platform) -> nat {
    match p {
        Platform::Twitch => 0,
        Platform::Youtube => 1,
        Platform::Kick => 2,
    }
}

/// The platform statuses are in the order of their platforms, one per platform, as a
/// `BTreeMap` keyed by platform keeps them.
pub open spec fn platforms_sorted(s: Seq<PlatformStatusInfo>) -> bool {
    forall|i: int, j: int| 0 <= i < j < s.len() ==> platform_rank((#[trigger] s[i]).platform) < platform_rank((#[trigger] s[j]).platform)
}

/// Where a platform comes in `Platform`'s order ([`platform_rank`]).
fn platform_rank_of(p: Platform) -> (r: u8)
    ensures
        r == platform_rank(p),
{
    match p {
        Platform::Twitch => 0,
        Platform::Youtube => 1,
        Platform::Kick => 2,
    }
}

/// The index of the status of the platform `p`.
fn find_platform(s: &Vec<PlatformStatusInfo>, p: Platform) -> (r: Option<usize>)
    ensures
        opt_int(r) == first_true(Seq::new(s@.len(), |i: int| s@[i].platform == p)),
        match r {
            Some(k) => k < s@.len(),
            None => true,
        },
{
    let ghost same = Seq::new(s@.len(), |i: int| s@[i].platform == p);
    let mut i: usize = 0;
    while i < s.len()
        invariant
            i <= s@.len(),
            same == Seq::new(s@.len(), |i: int| s@[i].platform == p),
            forall|j: int| 0 <= j < i ==> !#[trigger] same[j],
        decreases s@.len() - i,
    {
        if s[i].platform == p {
            proof {
                lemma_first_true_at(same, i as int);
            }
            return Some(i);
        }
        i = i + 1;
    }
    proof {
        lemma_first_true_none(same);
    }
    None
}

/// The channel ids of the buffers strictly increase.
pub open spec fn histories_sorted(h: Seq<(Seq<char>, Seq<MessageView>)>) -> bool {
    forall|i: int, j: int| 0 <= i < j < h.len() ==> chars_less((#[trigger] h[i]).0, (#[trigger] h[j]).0)
}

impl View for WatchedChatState {
    type V = WatchedChatView;

    closed spec fn view(&self) -> WatchedChatView {
        WatchedChatView {
            watched_channels: self.watched_channels@,
            accounts: self.accounts@,
            messages: views(self.messages@),
            histories: histories_view(self.watched_channel_messages@),
            statuses: keyed_map(self.outgoing_message_statuses@),
            next_sequence: self.next_outgoing_message_sequence,
            sent_history: strings_view(self.sent_message_history@),
            pending_sent: pending_view(self.pending_backend_sent_history@),
            runtime_errors: strings_view(self.runtime_errors@),
            catalog: self.seven_tv_catalog@,
            buffer_size: self.buffer_size,
            events: self.events@,
            unread_events: self.unread_events,
            active_section: self.active_section,
            platform_statuses: self.platform_statuses@,
            composer_disabled: strings_view(self.composer_disabled_channel_ids@),
            reply_target: match self.home_reply_target {
                Some(m) => Some(m@),
                None => None,
            },
            pending_watched: pending_messages_view(self.pending_watched_channel_messages@),
            pending_backend: Seq::new(self.pending_backend_messages@.len(), |i: int| outgoing_view(self.pending_backend_messages@[i])),
            channel_statuses: keyed_map(self.watched_channel_statuses@),
            seven_tv_channels: Map::new(
                |k: Seq<char>| keyed_map(self.watched_seven_tv_channel_ids@).contains_key(k),
                |k: Seq<char>| keyed_map(self.watched_seven_tv_channel_ids@)[k]@,
            ),
            home_statuses: keyed_map(self.home_channel_statuses@),
            watched_reply_targets: Map::new(
                |k: Seq<char>| keyed_map(self.watched_reply_targets@).contains_key(k),
                |k: Seq<char>| keyed_map(self.watched_reply_targets@)[k]@,
            ),
        }
    }
}

/// The key of the entry at `i` finds that entry.
proof fn lemma_key_at<V>(s: Seq<(String, V)>, i: int)
    requires
        keys_unique(s),
        0 <= i < s.len(),
    ensures
        first_true(key_hits(s, s[i].0@)) == Some(i),
{
    let p = key_hits(s, s[i].0@);
    assert forall|j: int| 0 <= j < i implies !#[trigger] p[j] by {
        assert(s[j].0@ != s[i].0@);
    }
    lemma_first_true_at(p, i);
}

/// Setting the entry at `i` sets its key's value.
proof fn lemma_keyed_update<V>(s: Seq<(String, V)>, i: int, e: (String, V))
    requires
        keys_unique(s),
        0 <= i < s.len(),
        e.0@ == s[i].0@,
    ensures
        keys_unique(s.update(i, e)),
        keyed_map(s.update(i, e)) == keyed_map(s).insert(e.0@, e.1),
{
    let t = s.update(i, e);
    assert(keys_unique(t)) by {
        assert forall|a: int, b: int| 0 <= a < b < t.len() implies (#[trigger] t[a]).0@ != (#[trigger] t[b]).0@ by {
            assert(s[a].0@ != s[b].0@);
        }
    }
    assert forall|k: Seq<char>| #[trigger] first_true(key_hits(t, k)) == first_true(key_hits(s, k)) by {
        assert(key_hits(t, k) =~= key_hits(s, k));
    }
    lemma_key_at(t, i);
    assert forall|k: Seq<char>| k != e.0@ implies (keyed_map(t).contains_key(k) == keyed_map(s).contains_key(k) && (
    keyed_map(t).contains_key(k) ==> keyed_map(t)[k] == keyed_map(s)[k])) by {
        lemma_first_true(key_hits(t, k));
        match first_true(key_hits(t, k)) {
            Some(j) => {
                assert(j != i);
            },
            None => {},
        }
    }
    assert(keyed_map(t) =~= keyed_map(s).insert(e.0@, e.1));
}

/// Adding a `false` at the end moves no first hit.
proof fn lemma_first_true_push_false(p: Seq<bool>)
    ensures
        first_true(p.push(false)) == first_true(p),
{
    assert(p.push(false).drop_last() =~= p);
}

/// Removing a `false` moves the first hit one place down if it came after.
proof fn lemma_first_true_remove(p: Seq<bool>, i: int)
    requires
        0 <= i < p.len(),
        !p[i],
    ensures
        first_true(p.remove(i)) == (match first_true(p) {
            Some(j) => Some(if j < i { j } else { j - 1 }),
            None => None,
        }),
{
    let q = p.remove(i);
    lemma_first_true(p);
    assert forall|j: int| 0 <= j < q.len() implies #[trigger] q[j] == p[if j < i { j } else { j + 1 }] by {}
    match first_true(p) {
        Some(j) => {
            let j1 = if j < i { j } else { j - 1 };
            assert(j != i);
            assert(q[j1] == p[j]);
            assert forall|a: int| 0 <= a < j1 implies !#[trigger] q[a] by {
                assert(q[a] == p[if a < i { a } else { a + 1 }]);
            }
            lemma_first_true_at(q, j1);
        },
        None => {
            assert forall|a: int| 0 <= a < q.len() implies !#[trigger] q[a] by {
                assert(q[a] == p[if a < i { a } else { a + 1 }]);
            }
            lemma_first_true_none(q);
        },
    }
}

/// An entry pushed under a new key adds that key.
proof fn lemma_keyed_push<V>(s: Seq<(String, V)>, e: (String, V))
    requires
        keys_unique(s),
        !keyed_map(s).contains_key(e.0@),
    ensures
        keys_unique(s.push(e)),
        keyed_map(s.push(e)) == keyed_map(s).insert(e.0@, e.1),
{
    let t = s.push(e);
    lemma_first_true(key_hits(s, e.0@));
    assert(keys_unique(t)) by {
        assert forall|a: int, b: int| 0 <= a < b < t.len() implies (#[trigger] t[a]).0@ != (#[trigger] t[b]).0@ by {
            if b == s.len() {
                assert(!key_hits(s, e.0@)[a]);
            } else {
                assert(s[a].0@ != s[b].0@);
            }
        }
    }
    lemma_key_at(t, s.len() as int);
    assert forall|k: Seq<char>| k != e.0@ implies #[trigger] first_true(key_hits(t, k)) == first_true(key_hits(s, k)) by {
        assert(key_hits(t, k) =~= key_hits(s, k).push(false));
        lemma_first_true_push_false(key_hits(s, k));
    }
    assert forall|k: Seq<char>| #[trigger] keyed_map(t).contains_key(k) == keyed_map(s).insert(e.0@, e.1).contains_key(k) by {
        if k != e.0@ {
            assert(first_true(key_hits(t, k)) == first_true(key_hits(s, k)));
        }
    }
    assert forall|k: Seq<char>| #[trigger] keyed_map(t).contains_key(k) implies keyed_map(t)[k] == keyed_map(s).insert(e.0@, e.1)[k] by {
        if k != e.0@ {
            assert(first_true(key_hits(t, k)) == first_true(key_hits(s, k)));
            lemma_first_true(key_hits(s, k));
        }
    }
    assert(keyed_map(t) =~= keyed_map(s).insert(e.0@, e.1));
}

/// Removing the entry at `i` removes its key.
proof fn lemma_keyed_remove<V>(s: Seq<(String, V)>, i: int)
    requires
        keys_unique(s),
        0 <= i < s.len(),
    ensures
        keys_unique(s.remove(i)),
        keyed_map(s.remove(i)) == keyed_map(s).remove(s[i].0@),
{
    let t = s.remove(i);
    let key = s[i].0@;
    assert forall|a: int| 0 <= a < t.len() implies #[trigger] t[a] == s[if a < i { a } else { a + 1 }] by {}
    assert(keys_unique(t)) by {
        assert forall|a: int, b: int| 0 <= a < b < t.len() implies (#[trigger] t[a]).0@ != (#[trigger] t[b]).0@ by {
            let a2 = if a < i { a } else { a + 1 };
            let b2 = if b < i { b } else { b + 1 };
            assert(t[a] == s[a2]);
            assert(t[b] == s[b2]);
            assert(s[a2].0@ != s[b2].0@);
        }
    }
    assert forall|k: Seq<char>| k != key implies #[trigger] first_true(key_hits(t, k)) == (match first_true(key_hits(s, k)) {
        Some(j) => Some(if j < i { j } else { j - 1 }),
        None => None,
    }) by {
        assert(key_hits(t, k) =~= key_hits(s, k).remove(i));
        lemma_first_true_remove(key_hits(s, k), i);
    }
    assert(first_true(key_hits(t, key)) is None) by {
        assert forall|a: int| 0 <= a < t.len() implies !#[trigger] key_hits(t, key)[a] by {
            let a2 = if a < i { a } else { a + 1 };
            assert(t[a] == s[a2]);
            assert(s[a2].0@ != s[i].0@);
        }
        lemma_first_true_none(key_hits(t, key));
    }
    assert forall|k: Seq<char>| #[trigger] keyed_map(t).contains_key(k) == keyed_map(s).remove(key).contains_key(k) by {
        if k != key {
            assert(first_true(key_hits(t, k)) == (match first_true(key_hits(s, k)) {
                Some(j) => Some(if j < i { j } else { j - 1 }),
                None => None,
            }));
        }
    }
    assert forall|k: Seq<char>| #[trigger] keyed_map(t).contains_key(k) implies keyed_map(t)[k] == keyed_map(s).remove(key)[k] by {
        if k != key {
            lemma_first_true(key_hits(s, k));
            let j = first_true(key_hits(s, k))->0;
            assert(j != i);
            let j1 = if j < i { j } else { j - 1 };
            assert(first_true(key_hits(t, k)) == Some(j1));
            assert(t[j1] == s[if j1 < i { j1 } else { j1 + 1 }]);
        }
    }
    assert(keyed_map(t) =~= keyed_map(s).remove(key));
}

/// The index of the first entry with the key `id`.
fn find_key<V>(s: &Vec<(String, V)>, id: &str) -> (r: Option<usize>)
    ensures
        opt_int(r) == first_true(key_hits(s@, id@)),
        match r {
            Some(k) => k < s@.len(),
            None => true,
        },
{
    let mut i: usize = 0;
    while i < s.len()
        invariant
            i <= s@.len(),
            forall|j: int| 0 <= j < i ==> !#[trigger] key_hits(s@, id@)[j],
        decreases s@.len() - i,
    {
        if str_eq(s[i].0.as_str(), id) {
            proof {
                lemma_first_true_at(key_hits(s@, id@), i as int);
            }
            return Some(i);
        }
        i = i + 1;
    }
    proof {
        lemma_first_true_none(key_hits(s@, id@));
    }
    None
}

/// The index of the last string of `v` equal to `text`.
fn find_last_string(v: &Vec<String>, text: &str) -> (r: Option<usize>)
    ensures
        opt_int(r) == last_true(Seq::new(strings_view(v@).len(), |i: int| strings_view(v@)[i] == text@)),
        match r {
            Some(k) => k < v@.len(),
            None => true,
        },
{
    let ghost h = strings_view(v@);
    let ghost p = Seq::new(h.len(), |i: int| h[i] == text@);
    let mut i: usize = v.len();
    while i > 0
        invariant
            i <= h.len(),
            h == strings_view(v@),
            p == Seq::new(h.len(), |i: int| h[i] == text@),
            forall|j: int| i <= j < h.len() ==> !#[trigger] p[j],
        decreases i,
    {
        if str_eq(v[i - 1].as_str(), text) {
            proof {
                lemma_last_true_at(p, i - 1);
            }
            return Some(i - 1);
        }
        i = i - 1;
    }
    proof {
        lemma_last_true_none(p);
    }
    None
}

/// Which buffers belong to the channel `k`.
pub open spec fn history_hits(hs: Seq<(Seq<char>, Seq<MessageView>)>, k: Seq<char>) -> Seq<bool> {
    Seq::new(hs.len(), |i: int| hs[i].0 == k)
}

/// The buffered messages of the channel `k`, if it has a buffer.
pub open spec fn history_of(hs: Seq<(Seq<char>, Seq<MessageView>)>, k: Seq<char>) -> Option<Seq<MessageView>> {
    match first_true(history_hits(hs, k)) {
        Some(i) => Some(hs[i].1),
        None => None,
    }
}

/// The buffered messages of the channel `k`; none if it has no buffer.
pub open spec fn buffer_of(hs: Seq<(Seq<char>, Seq<MessageView>)>, k: Seq<char>) -> Seq<MessageView> {
    match history_of(hs, k) {
        Some(h) => h,
        None => Seq::empty(),
    }
}

/// Where a buffer for the channel `k` goes to keep the ids in order.
pub open spec fn sorted_position(hs: Seq<(Seq<char>, Seq<MessageView>)>, k: Seq<char>) -> int {
    match first_true(Seq::new(hs.len(), |i: int| chars_less(k, hs[i].0))) {
        Some(i) => i,
        None => hs.len() as int,
    }
}

/// The buffers with the channel `k`'s buffer set to `h`, as `BTreeMap::insert` does.
pub open spec fn set_history(hs: Seq<(Seq<char>, Seq<MessageView>)>, k: Seq<char>, h: Seq<MessageView>) -> Seq<(Seq<char>, Seq<MessageView>)> {
    match first_true(history_hits(hs, k)) {
        Some(i) => hs.update(i, (k, h)),
        None => hs.insert(sorted_position(hs, k), (k, h)),
    }
}

/// In ordered buffers, the buffer at `i` is the one its id finds.
proof fn lemma_history_at(hs: Seq<(Seq<char>, Seq<MessageView>)>, i: int)
    requires
        histories_sorted(hs),
        0 <= i < hs.len(),
    ensures
        first_true(history_hits(hs, hs[i].0)) == Some(i),
{
    let p = history_hits(hs, hs[i].0);
    assert forall|j: int| 0 <= j < i implies !#[trigger] p[j] by {
        assert(chars_less(hs[j].0, hs[i].0));
        crate::chat::normalize::lemma_chars_less_irreflexive(hs[i].0);
    }
    lemma_first_true_at(p, i);
}

/// Setting a buffer keeps the ids in order, and reads back.
pub proof fn lemma_set_history(hs: Seq<(Seq<char>, Seq<MessageView>)>, k: Seq<char>, h: Seq<MessageView>)
    requires
        histories_sorted(hs),
    ensures
        histories_sorted(set_history(hs, k, h)),
        history_of(set_history(hs, k, h), k) == Some(h),
        forall|k2: Seq<char>| k2 != k ==> #[trigger] history_of(set_history(hs, k, h), k2) == history_of(hs, k2),
{
    let t = set_history(hs, k, h);
    lemma_first_true(history_hits(hs, k));
    match first_true(history_hits(hs, k)) {
        Some(i) => {
            assert forall|a: int, b: int| 0 <= a < b < t.len() implies chars_less((#[trigger] t[a]).0, (#[trigger] t[b]).0) by {
                assert(chars_less(hs[a].0, hs[b].0));
            }
            assert forall|k2: Seq<char>| #[trigger] history_hits(t, k2) == history_hits(hs, k2) by {
                assert(history_hits(t, k2) =~= history_hits(hs, k2));
            }
            lemma_history_at(t, i);
            assert forall|k2: Seq<char>| k2 != k implies #[trigger] history_of(t, k2) == history_of(hs, k2) by {
                lemma_first_true(history_hits(hs, k2));
                assert(history_hits(t, k2) == history_hits(hs, k2));
            }
        },
        None => {
            let pos = sorted_position(hs, k);
            let less = Seq::new(hs.len(), |i: int| chars_less(k, hs[i].0));
            lemma_first_true(less);
            assert(0 <= pos <= hs.len());
            assert forall|j: int| 0 <= j < pos implies chars_less(#[trigger] hs[j].0, k) by {
                assert(!less[j]);
                assert(!history_hits(hs, k)[j]);
                crate::chat::normalize::lemma_chars_less_total(hs[j].0, k);
            }
            assert forall|j: int| pos <= j < hs.len() implies chars_less(k, #[trigger] hs[j].0) by {
                if j > pos {
                    assert(chars_less(hs[pos].0, hs[j].0));
                    crate::chat::normalize::lemma_chars_less_transitive(k, hs[pos].0, hs[j].0);
                }
            }
            assert forall|a: int| 0 <= a < t.len() implies #[trigger] t[a] == (if a < pos {
                hs[a]
            } else if a == pos {
                (k, h)
            } else {
                hs[a - 1]
            }) by {}
            assert forall|a: int, b: int| 0 <= a < b < t.len() implies chars_less((#[trigger] t[a]).0, (#[trigger] t[b]).0) by {
                if a < pos && b < pos {
                    assert(chars_less(hs[a].0, hs[b].0));
                } else if a < pos && b == pos {
                } else if a < pos {
                    assert(chars_less(hs[a].0, k));
                    assert(chars_less(k, hs[b - 1].0));
                    crate::chat::normalize::lemma_chars_less_transitive(hs[a].0, k, hs[b - 1].0);
                } else if a == pos {
                } else {
                    assert(chars_less(hs[a - 1].0, hs[b - 1].0));
                }
            }
            lemma_history_at(t, pos);
            assert forall|k2: Seq<char>| k2 != k implies #[trigger] history_of(t, k2) == history_of(hs, k2) by {
                let ph = history_hits(hs, k2);
                let pt = history_hits(t, k2);
                lemma_first_true(ph);
                match first_true(ph) {
                    Some(j) => {
                        let j1 = if j < pos { j } else { j + 1 };
                        assert(pt[j1]);
                        assert forall|a: int| 0 <= a < j1 implies !#[trigger] pt[a] by {
                            if a < pos {
                                assert(!ph[a]);
                            } else if a > pos {
                                assert(!ph[a - 1]);
                            }
                        }
                        lemma_first_true_at(pt, j1);
                    },
                    None => {
                        assert forall|a: int| 0 <= a < t.len() implies !#[trigger] pt[a] by {
                            if a < pos {
                                assert(!ph[a]);
                            } else if a > pos {
                                assert(!ph[a - 1]);
                            }
                        }
                        lemma_first_true_none(pt);
                    },
                }
            }
        },
    }
}

/// The index of the buffer of the channel `id`.
fn find_history(hs: &Vec<(String, Vec<NormalizedChatMessage>)>, id: &str) -> (r: Option<usize>)
    ensures
        opt_int(r) == first_true(history_hits(histories_view(hs@), id@)),
        match r {
            Some(k) => k < hs@.len(),
            None => true,
        },
{
    let ghost p = history_hits(histories_view(hs@), id@);
    let mut i: usize = 0;
    while i < hs.len()
        invariant
            i <= hs@.len(),
            p == history_hits(histories_view(hs@), id@),
            forall|j: int| 0 <= j < i ==> !#[trigger] p[j],
        decreases hs@.len() - i,
    {
        if str_eq(hs[i].0.as_str(), id) {
            proof {
                lemma_first_true_at(p, i as int);
            }
            return Some(i);
        }
        i = i + 1;
    }
    proof {
        lemma_first_true_none(p);
    }
    None
}

/// Sets the buffer of the channel `key` ([`set_history`]).
fn set_channel_history(hs: &mut Vec<(String, Vec<NormalizedChatMessage>)>, key: &str, h: Vec<NormalizedChatMessage>)
    requires
        histories_sorted(histories_view(old(hs)@)),
    ensures
        histories_sorted(histories_view(final(hs)@)),
        histories_view(final(hs)@) == set_history(histories_view(old(hs)@), key@, views(h@)),
{
    let ghost v0 = histories_view(hs@);
    proof {
        lemma_set_history(v0, key@, views(h@));
    }
    match find_history(hs, key) {
        Some(i) => {
            hs.set(i, (owned(key), h));
            proof {
                assert(histories_view(hs@) =~= v0.update(i as int, (key@, views(h@))));
            }
        },
        None => {
            let ghost less = Seq::new(v0.len(), |i: int| chars_less(key@, v0[i].0));
            let mut pos: usize = 0;
            while pos < hs.len() && !crate::chat::normalize::str_less(key, hs[pos].0.as_str())
                invariant
                    pos <= hs@.len(),
                    v0 == histories_view(hs@),
                    less == Seq::new(v0.len(), |i: int| chars_less(key@, v0[i].0)),
                    forall|j: int| 0 <= j < pos ==> !#[trigger] less[j],
                decreases hs@.len() - pos,
            {
                pos = pos + 1;
            }
            proof {
                if pos < hs.len() {
                    lemma_first_true_at(less, pos as int);
                } else {
                    lemma_first_true_none(less);
                }
            }
            hs.insert(pos, (owned(key), h));
            proof {
                assert(histories_view(hs@) =~= v0.insert(pos as int, (key@, views(h@))));
            }
        },
    }
}

/// The sequence number after `n`, stopping at `u64::MAX`.
pub open spec fn next_sequence_after(n: u64) -> u64 {
    if n < u64::MAX {
        (n + 1) as u64
    } else {
        n
    }
}

/// The client id of a message sent from the app at `now_ms` as the `seq`th:
/// `local:<now_ms>:<seq>`.
pub open spec fn client_message_id(now_ms: u64, seq: u64) -> Seq<char> {
    "local:"@ + decimal(now_ms as nat) + ":"@ + decimal(seq as nat)
}

/// The author id the app gives itself on a platform when no account says better.
pub open spec fn local_self_id(p: Platform) -> Seq<char> {
    match p {
        Platform::Twitch => "local-self-twitch"@,
        Platform::Youtube => "local-self-youtube"@,
        Platform::Kick => "local-self-kick"@,
    }
}

/// The reply that answering the message `m` carries ([`chat_reply_from_message`]).
pub open spec fn reply_view_of(m: MessageView) -> ChatReplyView {
    (
        m.0,
        m.4,
        m.3.0,
        match m.3.1 {
            Some(u) => u,
            None => Seq::empty(),
        },
        m.3.2,
    )
}

/// The view of an optional message.
pub open spec fn opt_message_view(o: Option<&NormalizedChatMessage>) -> Option<MessageView> {
    match o {
        Some(m) => Some(m@),
        None => None,
    }
}

/// The message was written by the account: same platform, and its author id is the account's
/// user id, ignoring ASCII case.
pub open spec fn is_own_message(m: MessageView, a: AccountRecord) -> bool {
    m.1 == a.platform && eq_ignore_ascii_case(m.3.0, a.platform_user_id@)
}

/// Which messages of `h` the account wrote.
pub open spec fn own_message_hits(h: Seq<MessageView>, a: AccountRecord) -> Seq<bool> {
    Seq::new(h.len(), |i: int| is_own_message(h[i], a))
}

/// The last message the account wrote in the buffer of the channel `cid`.
pub open spec fn cached_self_message(hs: Seq<(Seq<char>, Seq<MessageView>)>, cid: Seq<char>, account: Option<AccountRecord>) -> Option<MessageView> {
    match account {
        Some(a) => match history_of(hs, cid) {
            Some(h) => match last_true(own_message_hits(h, a)) {
                Some(k) => Some(h[k]),
                None => None,
            },
            None => None,
        },
        None => None,
    }
}

/// The watched channel `cid`'s account for the app ([`self_account_of`]), if the channel is
/// watched.
pub open spec fn channel_self_account(v: WatchedChatView, cid: Seq<char>) -> Option<AccountRecord> {
    match channel_of(v.watched_channels, cid) {
        Some(c) => self_account_of(v.accounts, c),
        None => None,
    }
}

/// The message the app shows at once when it sends `text` to the watched channel `cid` at
/// `now_ms`: written by the channel's account for the app (its user id, else a local id;
/// its names; its avatar), with the badges, and the colour and avatar where the account has
/// none, of the last message that account wrote in the channel's buffer.
pub open spec fn optimistic_message(v: WatchedChatView, cid: Seq<char>, text: Seq<char>, reply: Option<MessageView>, now_ms: u64) -> MessageView {
    let channel = channel_of(v.watched_channels, cid);
    let account = channel_self_account(v, cid);
    let platform = match channel {
        Some(c) => c.platform,
        None => Platform::Twitch,
    };
    let cached = cached_self_message(v.histories, cid, account);
    let avatar = match account {
        Some(a) => opt_seq(a.avatar_url),
        None => None,
    };
    (
        client_message_id(now_ms, next_sequence_after(v.next_sequence)),
        platform,
        cid,
        (
            match account {
                Some(a) => if a.platform_user_id@.len() > 0 {
                    a.platform_user_id@
                } else {
                    local_self_id(platform)
                },
                None => local_self_id(platform),
            },
            match account {
                Some(a) => Some(a.username@),
                None => None,
            },
            match account {
                Some(a) => a.display_name@,
                None => match channel {
                    Some(c) => c.display_name@,
                    None => "You"@,
                },
            },
            match cached {
                Some(m) => m.3.3,
                None => None,
            },
            match avatar {
                Some(x) => Some(x),
                None => match cached {
                    Some(m) => m.3.4,
                    None => None,
                },
            },
            match cached {
                Some(m) => m.3.5,
                None => Seq::empty(),
            },
        ),
        text,
        Seq::empty(),
        decimal(now_ms as nat),
        ChatMessageType::Message,
        match reply {
            Some(r) => Some(reply_view_of(r)),
            None => None,
        },
    )
}

/// The state after the app sends `text` to the watched channel `cid` at `now_ms`: the next
/// sequence number taken, the optimistic message ([`optimistic_message`]) added to the
/// channel's buffer, and to the home feed if the channel is the user's own, and its client id
/// pending.
pub open spec fn with_optimistic_message(v: WatchedChatView, cid: Seq<char>, text: Seq<char>, reply: Option<MessageView>, now_ms: u64) -> WatchedChatView {
    let m = optimistic_message(v, cid, text, reply, now_ms);
    WatchedChatView {
        next_sequence: next_sequence_after(v.next_sequence),
        messages: if is_home_channel_id(v.watched_channels, v.accounts, cid) {
            v.messages.push(m)
        } else {
            v.messages
        },
        histories: set_history(v.histories, cid, buffer_of(v.histories, cid).push(m)),
        statuses: v.statuses.insert(m.0, OutgoingChatMessageStatus::Pending),
        ..v
    }
}

/// The index of the last message of `h` the account wrote.
fn find_last_own_message(h: &Vec<NormalizedChatMessage>, a: &AccountRecord) -> (r: Option<usize>)
    ensures
        opt_int(r) == last_true(own_message_hits(views(h@), *a)),
        match r {
            Some(k) => k < h@.len(),
            None => true,
        },
{
    let ghost p = own_message_hits(views(h@), *a);
    let mut i: usize = h.len();
    while i > 0
        invariant
            i <= h@.len(),
            p == own_message_hits(views(h@), *a),
            forall|j: int| i <= j < h@.len() ==> !#[trigger] p[j],
        decreases i,
    {
        let m = &h[i - 1];
        if m.platform == a.platform && str_eq_ignore_ascii_case(m.author.id.as_str(), a.platform_user_id.as_str()) {
            proof {
                lemma_last_true_at(p, i - 1);
            }
            return Some(i - 1);
        }
        i = i - 1;
    }
    proof {
        lemma_last_true_none(p);
    }
    None
}

/// The author id the app gives itself on a platform ([`local_self_id`]).
fn local_self_author_id(p: Platform) -> (r: String)
    ensures
        r@ == local_self_id(p),
{
    match p {
        Platform::Twitch => owned("local-self-twitch"),
        Platform::Youtube => owned("local-self-youtube"),
        Platform::Kick => owned("local-self-kick"),
    }
}

/// A copy of an optional string.
fn copy_opt_string(o: &Option<String>) -> (r: Option<String>)
    ensures
        opt_seq(r) == opt_seq(*o),
{
    match o {
        Some(s) => Some(s.clone()),
        None => None,
    }
}

/// Which messages of `h` have the id `id`.
pub open spec fn id_hits(h: Seq<MessageView>, id: Seq<char>) -> Seq<bool> {
    Seq::new(h.len(), |i: int| h[i].0 == id)
}

/// Some message of `h` has the id `id`.
pub open spec fn has_message_id(h: Seq<MessageView>, id: Seq<char>) -> bool {
    first_true(id_hits(h, id)) is Some
}

/// The message `c` of the buffer of the channel `cid` is the optimistic copy of the echo
/// `message`: same channel, platform and text, a client id (`local:`) still pending or sent,
/// and, where the app has an account in the channel, an echo written by that account.
pub open spec fn is_echo_of(statuses: Map<Seq<char>, OutgoingChatMessageStatus>, cid: Seq<char>, message: MessageView, account: Option<AccountRecord>, c: MessageView) -> bool {
    &&& c.2 == cid
    &&& c.1 == message.1
    &&& c.4 == message.4
    &&& has_prefix(c.0, "local:"@)
    &&& statuses.contains_key(c.0)
    &&& (statuses[c.0] == OutgoingChatMessageStatus::Pending || statuses[c.0] == OutgoingChatMessageStatus::Sent)
    &&& match account {
        Some(a) => eq_ignore_ascii_case(message.3.0, a.platform_user_id@),
        None => true,
    }
}

/// Which messages of `h` are optimistic copies of the echo `message` ([`is_echo_of`]).
pub open spec fn echo_hits(statuses: Map<Seq<char>, OutgoingChatMessageStatus>, cid: Seq<char>, message: MessageView, account: Option<AccountRecord>, h: Seq<MessageView>) -> Seq<bool> {
    Seq::new(h.len(), |i: int| is_echo_of(statuses, cid, message, account, h[i]))
}

/// The client id of the optimistic message that the echo `message` in the watched channel
/// `cid` answers: the first optimistic copy in the channel's buffer ([`is_echo_of`]).
pub open spec fn optimistic_echo_id(v: WatchedChatView, cid: Seq<char>, message: MessageView) -> Option<Seq<char>> {
    match channel_of(v.watched_channels, cid) {
        Some(c) => match history_of(v.histories, cid) {
            Some(h) => match first_true(echo_hits(v.statuses, cid, message, self_account_of(v.accounts, c), h)) {
                Some(k) => Some(h[k].0),
                None => None,
            },
            None => None,
        },
        None => None,
    }
}

/// The list with the first message of id `oid` replaced by the echo `message`, or dropped if
/// the list already has a message with the echo's id.
pub open spec fn echo_in(h: Seq<MessageView>, oid: Seq<char>, message: MessageView) -> Seq<MessageView> {
    match first_true(id_hits(h, oid)) {
        Some(p) => if has_message_id(h, message.0) {
            h.remove(p)
        } else {
            h.update(p, message)
        },
        None => h,
    }
}

/// The home feed after the echo `message` of the optimistic message `oid`: as [`echo_in`],
/// and where the feed lacks the optimistic message, the echo added unless already there.
pub open spec fn home_echo(h: Seq<MessageView>, oid: Seq<char>, message: MessageView) -> Seq<MessageView> {
    if first_true(id_hits(h, oid)) is Some {
        echo_in(h, oid, message)
    } else if has_message_id(h, message.0) {
        h
    } else {
        h.push(message)
    }
}

/// The state after the echo `message` arrives in the watched channel `cid`: where it answers
/// an optimistic message ([`optimistic_echo_id`]), that message gives way to it in the
/// channel's buffer and, for the user's own channel, in the home feed, and its client id is
/// forgotten; else nothing changes.
pub open spec fn reconciled(v: WatchedChatView, cid: Seq<char>, message: MessageView) -> WatchedChatView {
    match optimistic_echo_id(v, cid, message) {
        Some(oid) => WatchedChatView {
            histories: set_history(v.histories, cid, echo_in(buffer_of(v.histories, cid), oid, message)),
            messages: if is_home_channel_id(v.watched_channels, v.accounts, cid) {
                home_echo(v.messages, oid, message)
            } else {
                v.messages
            },
            statuses: v.statuses.remove(oid),
            ..v
        },
        None => v,
    }
}

/// Whether `s` starts with `p`.
fn str_starts_with(s: &str, p: &str) -> (r: bool)
    ensures
        r == has_prefix(s@, p@),
{
    let v = chars_of(s);
    let pv = chars_of(p);
    let r = crate::text::range_has_prefix(&v, 0, v.len(), &pv);
    assert(v@.subrange(0, v@.len() as int) =~= s@);
    r
}

/// The index of the first message of `h` with the id `id`.
fn find_message_id(h: &Vec<NormalizedChatMessage>, id: &str) -> (r: Option<usize>)
    ensures
        opt_int(r) == first_true(id_hits(views(h@), id@)),
        match r {
            Some(k) => k < h@.len(),
            None => true,
        },
{
    let ghost p = id_hits(views(h@), id@);
    let mut i: usize = 0;
    while i < h.len()
        invariant
            i <= h@.len(),
            p == id_hits(views(h@), id@),
            forall|j: int| 0 <= j < i ==> !#[trigger] p[j],
        decreases h@.len() - i,
    {
        if str_eq(h[i].id.as_str(), id) {
            proof {
                lemma_first_true_at(p, i as int);
            }
            return Some(i);
        }
        i = i + 1;
    }
    proof {
        lemma_first_true_none(p);
    }
    None
}

/// The list with the echo in place of the optimistic message ([`echo_in`]).
fn apply_echo(h: &mut Vec<NormalizedChatMessage>, oid: &str, message: &NormalizedChatMessage)
    ensures
        views(final(h)@) == echo_in(views(old(h)@), oid@, message@),
{
    let ghost h0 = views(h@);
    if let Some(p) = find_message_id(h, oid) {
        if find_message_id(h, message.id.as_str()).is_some() {
            h.remove(p);
            proof {
                assert(views(h@) =~= h0.remove(p as int));
            }
        } else {
            h.set(p, message.clone());
            proof {
                assert(views(h@) =~= h0.update(p as int, message@));
            }
        }
    }
}

/// The text of the first message with the id `id`, in the buffers' order.
pub open spec fn message_text_in(hs: Seq<(Seq<char>, Seq<MessageView>)>, id: Seq<char>) -> Option<Seq<char>>
    decreases hs.len(),
{
    if hs.len() == 0 {
        None
    } else {
        match first_true(id_hits(hs[0].1, id)) {
            Some(j) => Some(hs[0].1[j].4),
            None => message_text_in(hs.drop_first(), id),
        }
    }
}

/// The last `n` items of `s`.
pub open spec fn keep_last<T>(s: Seq<T>, n: usize) -> Seq<T> {
    if s.len() > n {
        s.skip(s.len() - n)
    } else {
        s
    }
}

/// The message with the emotes of the catalog that its text uses added
/// ([`enrich_message_with_seven_tv`], looked up by the message's own channel).
pub open spec fn enriched(m: MessageView, catalog: Seq<CatalogEntry>) -> MessageView {
    with_emotes(m, add_new_emotes(m.5, add_new_emotes(m.5, found_emotes(message_tokens(m.4), catalog, m.1, m.2))))
}

/// The state after the watched channel `cid` buffered the live message `message`: enriched
/// with the 7TV catalog ([`enriched`]); if it is the echo of a message sent from the app it
/// takes that message's place ([`reconciled`]); else it joins the home feed for the user's
/// own channel, and the channel's buffer, which keeps its last `buffer_size` messages.
pub open spec fn with_buffered_message(v: WatchedChatView, cid: Seq<char>, message: MessageView) -> WatchedChatView {
    let m = enriched(message, v.catalog);
    if optimistic_echo_id(v, cid, m) is Some {
        reconciled(v, cid, m)
    } else {
        WatchedChatView {
            messages: if is_home_channel_id(v.watched_channels, v.accounts, cid) {
                v.messages.push(m)
            } else {
                v.messages
            },
            histories: set_history(v.histories, cid, keep_last(buffer_of(v.histories, cid).push(m), v.buffer_size)),
            ..v
        }
    }
}

/// The text of the first message with the id `id` in the buffers ([`message_text_in`]).
fn find_message_text(hs: &Vec<(String, Vec<NormalizedChatMessage>)>, id: &str) -> (r: Option<String>)
    ensures
        opt_seq(r) == message_text_in(histories_view(hs@), id@),
{
    let ghost v = histories_view(hs@);
    let mut i: usize = 0;
    proof {
        assert(v.skip(0) =~= v);
    }
    while i < hs.len()
        invariant
            i <= hs@.len(),
            v == histories_view(hs@),
            message_text_in(v, id@) == message_text_in(v.skip(i as int), id@),
        decreases hs@.len() - i,
    {
        proof {
            assert(v.skip(i as int)[0] == v[i as int]);
            assert(v.skip(i as int).drop_first() =~= v.skip(i + 1));
        }
        if let Some(j) = find_message_id(&hs[i].1, id) {
            return Some(hs[i].1[j].text.clone());
        }
        i = i + 1;
    }
    None
}

/// The emote is served by 7TV, as its image address shows ([`is_seven_tv_emote`]).
pub open spec fn is_seven_tv_view(e: EmoteView) -> bool {
    contains_seq(e.2, "7tv"@) || contains_seq(e.2, "/proxy/7tv/"@)
}

/// The emotes that 7TV does not serve, in order.
pub open spec fn without_seven_tv(s: Seq<EmoteView>) -> Seq<EmoteView>
    decreases s.len(),
{
    if s.len() == 0 {
        s
    } else {
        let r = without_seven_tv(s.drop_last());
        if is_seven_tv_view(s.last()) {
            r
        } else {
            r.push(s.last())
        }
    }
}

/// The message with the emotes of the 7TV channel `cid` in the catalog that its text uses
/// added ([`enrich_message_with_seven_tv`]).
pub open spec fn enriched_for(m: MessageView, cid: Seq<char>, catalog: Seq<CatalogEntry>) -> MessageView {
    with_emotes(m, add_new_emotes(m.5, add_new_emotes(m.5, found_emotes(message_tokens(m.4), catalog, m.1, cid))))
}

/// The message's 7TV emotes looked up again in the catalog for the 7TV channel `cid`.
pub open spec fn rehydrated(m: MessageView, cid: Seq<char>, catalog: Seq<CatalogEntry>) -> MessageView {
    enriched_for(with_emotes(m, without_seven_tv(m.5)), cid, catalog)
}

/// The home feed with the 7TV emotes of the platform `p`'s channel `cid` looked up again in
/// every message of it but system messages.
pub open spec fn home_rehydrated(ms: Seq<MessageView>, ws: Seq<WatchedChannel>, p: Platform, cid: Seq<char>, catalog: Seq<CatalogEntry>) -> Seq<MessageView> {
    Seq::new(
        ms.len(),
        |i: int|
            if ms[i].7 != ChatMessageType::System && ms[i].1 == p && matches_seven_tv_channel(ws, ms[i].1, ms[i].2, cid) {
                rehydrated(ms[i], cid, catalog)
            } else {
                ms[i]
            },
    )
}

/// A buffer with the 7TV emotes looked up again in the messages of the platform `p`'s
/// channel `cid`, but system messages.
pub open spec fn buffer_rehydrated(ms: Seq<MessageView>, p: Platform, cid: Seq<char>, catalog: Seq<CatalogEntry>) -> Seq<MessageView> {
    Seq::new(
        ms.len(),
        |i: int|
            if ms[i].7 != ChatMessageType::System && ms[i].1 == p && ms[i].2 == cid {
                rehydrated(ms[i], cid, catalog)
            } else {
                ms[i]
            },
    )
}

/// The state after the 7TV emotes of the platform `p`'s channel `cid` changed: looked up
/// again in the home feed and in every buffer.
pub open spec fn with_rehydrated(v: WatchedChatView, p: Platform, cid: Seq<char>) -> WatchedChatView {
    WatchedChatView {
        messages: home_rehydrated(v.messages, v.watched_channels, p, cid, v.catalog),
        histories: Seq::new(v.histories.len(), |i: int| (v.histories[i].0, buffer_rehydrated(v.histories[i].1, p, cid, v.catalog))),
        ..v
    }
}

/// The name `Debug` gives a platform.
pub open spec fn platform_name(p: Platform) -> Seq<char> {
    match p {
        Platform::Twitch => "Twitch"@,
        Platform::Youtube => "Youtube"@,
        Platform::Kick => "Kick"@,
    }
}

/// The channel that a 7TV notice of the platform `p`'s channel `cid` shows in: the first
/// watched channel of that platform whose slug is `cid`, else `cid` itself.
pub open spec fn display_channel_for_seven_tv(ws: Seq<WatchedChannel>, p: Platform, cid: Seq<char>) -> Seq<char> {
    match first_true(Seq::new(ws.len(), |i: int| ws[i].platform == p && ws[i].channel_slug@ == cid)) {
        Some(k) => ws[k].id@,
        None => cid,
    }
}

/// The system message that tells of a change to the 7TV emotes of the platform `p`'s channel
/// `cid`, at `now_ms`.
pub open spec fn seven_tv_notice(ws: Seq<WatchedChannel>, p: Platform, cid: Seq<char>, text: Seq<char>, emotes: Seq<EmoteView>, now_ms: u64) -> MessageView {
    (
        "seventv-system-"@ + platform_name(p) + "-"@ + cid + "-"@ + decimal(now_ms as nat),
        p,
        display_channel_for_seven_tv(ws, p, cid),
        ("seventv"@, Some("7tv"@), "7TV"@, Some("#4ade80"@), None, Seq::empty()),
        text,
        emotes,
        decimal(now_ms as nat),
        ChatMessageType::System,
        None,
    )
}

/// The state with the system message `m` added to the buffer of its channel when that
/// channel is watched, else to the home feed.
pub open spec fn with_system_message(v: WatchedChatView, m: MessageView) -> WatchedChatView {
    if first_true(channel_hits(v.watched_channels, m.2)) is Some {
        WatchedChatView { histories: set_history(v.histories, m.2, buffer_of(v.histories, m.2).push(m)), ..v }
    } else {
        WatchedChatView { messages: v.messages.push(m), ..v }
    }
}

/// The statuses with `e` in place of its platform's status, or added in platform order.
pub open spec fn set_platform_status(s: Seq<PlatformStatusInfo>, e: PlatformStatusInfo) -> Seq<PlatformStatusInfo> {
    match first_true(Seq::new(s.len(), |i: int| s[i].platform == e.platform)) {
        Some(i) => s.update(i, e),
        None => s.insert(
            match first_true(Seq::new(s.len(), |i: int| platform_rank(e.platform) < platform_rank(s[i].platform))) {
                Some(i) => i,
                None => s.len() as int,
            },
            e,
        ),
    }
}

/// The status a platform has when the backend reports it.
pub open spec fn backend_status(b: BackendPlatformStatus) -> PlatformStatus {
    match b {
        BackendPlatformStatus::Connected => PlatformStatus::Connected,
        BackendPlatformStatus::Disconnected => PlatformStatus::Disconnected,
        BackendPlatformStatus::Error => PlatformStatus::Error,
    }
}

/// A 7TV emote of the backend as the catalog keeps it ([`map_backend_seven_tv_emote`]).
pub open spec fn backend_emote_view(e: BackendSevenTvEmote) -> SevenTvEmoteView {
    (e.id@, e.alias@, e.image_url@, e.animated, e.zero_width, e.aspect_ratio_bits)
}

/// The state after the backend's message `msg`, taken at `now_ms`:
/// - a chat message joins the home feed, with the catalog's 7TV emotes of its own channel,
///   after the feed's messages took the badge images it shows ([`backfilled_message`]);
/// - a change to a channel's 7TV emotes changes the catalog, then the messages of that
///   channel look their 7TV emotes up again ([`with_rehydrated`]);
/// - a 7TV notice becomes a system message ([`seven_tv_notice`], [`with_system_message`]);
/// - an event is kept, and counts as unread unless the events are on screen;
/// - a platform status replaces that platform's status, as anonymous and without a channel;
/// - anything else changes nothing.
pub open spec fn after_backend_message(v: WatchedChatView, msg: BackendToDesktopMessage, now_ms: u64) -> WatchedChatView {
    match msg {
        BackendToDesktopMessage::ChatMessage { data } => {
            let m = enriched(data@, v.catalog);
            WatchedChatView { messages: Seq::new(v.messages.len(), |i: int| backfilled_message(v.messages[i], m)).push(m), ..v }
        },
        BackendToDesktopMessage::SeventvEmoteSet { platform, channel_id, emotes } => with_rehydrated(
            WatchedChatView {
                catalog: insert_all(
                    drop_channel(v.catalog, platform, channel_id@),
                    platform,
                    channel_id@,
                    Seq::new(emotes@.len(), |i: int| backend_emote_view(emotes@[i])),
                ),
                ..v
            },
            platform,
            channel_id@,
        ),
        BackendToDesktopMessage::SeventvEmoteAdded { platform, channel_id, emote } => with_rehydrated(
            WatchedChatView { catalog: catalog_insert(v.catalog, (platform, channel_id@, backend_emote_view(emote))), ..v },
            platform,
            channel_id@,
        ),
        BackendToDesktopMessage::SeventvEmoteRemoved { platform, channel_id, emote_id } => with_rehydrated(
            WatchedChatView { catalog: drop_emote_id(v.catalog, platform, channel_id@, emote_id@), ..v },
            platform,
            channel_id@,
        ),
        BackendToDesktopMessage::SeventvEmoteUpdated { platform, channel_id, emote_id, alias } => with_rehydrated(
            WatchedChatView {
                catalog: match last_with_id(v.catalog, platform, channel_id@, emote_id@) {
                    Some(e) => catalog_insert(
                        drop_emote_id(v.catalog, platform, channel_id@, emote_id@),
                        (platform, channel_id@, (e.0, alias@, e.2, e.3, e.4, e.5)),
                    ),
                    None => v.catalog,
                },
                ..v
            },
            platform,
            channel_id@,
        ),
        BackendToDesktopMessage::SeventvSystemMessage { platform, channel_id, message } => with_system_message(
            v,
            seven_tv_notice(
                v.watched_channels,
                platform,
                channel_id@,
                seven_tv_notice_text(message),
                seven_tv_notice_emotes(message),
                now_ms,
            ),
        ),
        BackendToDesktopMessage::ChatEvent { data } => WatchedChatView {
            events: v.events.push(data),
            unread_events: if v.active_section != MainSection::Events {
                if v.unread_events < usize::MAX {
                    (v.unread_events + 1) as usize
                } else {
                    v.unread_events
                }
            } else {
                v.unread_events
            },
            ..v
        },
        BackendToDesktopMessage::PlatformStatus { platform, status, error } => WatchedChatView {
            platform_statuses: set_platform_status(
                v.platform_statuses,
                PlatformStatusInfo {
                    platform,
                    status: backend_status(status),
                    error,
                    mode: PlatformStatusMode::Anonymous,
                    channel_login: None,
                },
            ),
            ..v
        },
        _ => v,
    }
}

/// The emotes that 7TV does not serve ([`without_seven_tv`]).
fn emotes_without_seven_tv(emotes: &Vec<Emote>) -> (r: Vec<Emote>)
    ensures
        emotes_view(r@) == without_seven_tv(emotes_view(emotes@)),
{
    let ghost ev = emotes_view(emotes@);
    let mut r: Vec<Emote> = Vec::new();
    let mut i: usize = 0;
    proof {
        assert(ev.take(0) =~= Seq::<EmoteView>::empty());
    }
    while i < emotes.len()
        invariant
            i <= emotes@.len(),
            ev == emotes_view(emotes@),
            emotes_view(r@) == without_seven_tv(ev.take(i as int)),
        decreases emotes@.len() - i,
    {
        proof {
            assert(ev.take(i + 1).drop_last() =~= ev.take(i as int));
            assert(ev.take(i + 1).last() == emotes@[i as int]@);
        }
        if !is_seven_tv_emote(&emotes[i]) {
            let ghost before = r@;
            r.push(emotes[i].clone());
            proof {
                assert(emotes_view(r@) =~= emotes_view(before).push(emotes@[i as int]@));
            }
        }
        i = i + 1;
    }
    proof {
        assert(ev.take(i as int) =~= ev);
    }
    r
}

/// The message with its 7TV emotes looked up again for the 7TV channel `cid` ([`rehydrated`]).
fn rehydrate_message(m: &NormalizedChatMessage, cid: &str, catalog: &SevenTvCatalog) -> (r: NormalizedChatMessage)
    ensures
        r@ == rehydrated(m@, cid@, catalog@),
{
    let mut base = m.clone();
    base.emotes = emotes_without_seven_tv(&m.emotes);
    enrich_message_with_seven_tv(base, cid, catalog)
}

/// A copy of a 7TV emote of the backend.
fn copy_backend_emote(e: &BackendSevenTvEmote) -> (r: BackendSevenTvEmote)
    ensures
        r == *e,
{
    BackendSevenTvEmote {
        id: e.id.clone(),
        alias: e.alias.clone(),
        name: e.name.clone(),
        animated: e.animated,
        zero_width: e.zero_width,
        aspect_ratio_bits: e.aspect_ratio_bits,
        image_url: e.image_url.clone(),
    }
}

/// A channel the home composer sends to: the own channel of a connected platform.
#[derive(Debug, Clone, PartialEq, Eq)]
pub struct HomeChannelTarget {
    pub id: String,
    pub platform: Platform,
    pub channel_login: String,
    pub watched_channel_id: Option<String>,
}

/// A target's id, platform, channel login and the watched channel that shows it.
pub type TargetView = (Seq<char>, Platform, Seq<char>, Option<Seq<char>>);

impl View for HomeChannelTarget {
    type V = TargetView;

    open spec fn view(&self) -> TargetView {
        (self.id@, self.platform, self.channel_login@, opt_seq(self.watched_channel_id))
    }
}

/// The views of a list of targets.
pub open spec fn targets_view(s: Seq<HomeChannelTarget>) -> Seq<TargetView> {
    Seq::new(s.len(), |i: int| s[i]@)
}

/// The first watched channel of the platform `p` whose slug is `login`, ignoring ASCII case.
pub open spec fn watched_channel_for(ws: Seq<WatchedChannel>, p: Platform, login: Seq<char>) -> Option<Seq<char>> {
    match first_true(Seq::new(ws.len(), |i: int| ws[i].platform == p && eq_ignore_ascii_case(ws[i].channel_slug@, login))) {
        Some(k) => Some(ws[k].id@),
        None => None,
    }
}

/// Some target of `ts` has the id `id`.
pub open spec fn has_target_id(ts: Seq<TargetView>, id: Seq<char>) -> bool {
    first_true(Seq::new(ts.len(), |k: int| ts[k].0 == id)) is Some
}

/// The targets of the home composer: for each platform status in order that is connected or
/// connecting and has a channel login, the target `<Platform>:<login in lower case>`, unless
/// an earlier status gave the same id.
pub open spec fn home_targets(statuses: Seq<PlatformStatusInfo>, ws: Seq<WatchedChannel>) -> Seq<TargetView>
    decreases statuses.len(),
{
    if statuses.len() == 0 {
        Seq::empty()
    } else {
        let prev = home_targets(statuses.drop_last(), ws);
        let st = statuses.last();
        match st.channel_login {
            Some(login) => if st.status == PlatformStatus::Connected || st.status == PlatformStatus::Connecting {
                let id = platform_debug_name(st.platform) + ":"@ + unicode_lowercase(login@);
                if has_target_id(prev, id) {
                    prev
                } else {
                    prev.push((id, st.platform, login@, watched_channel_for(ws, st.platform, login@)))
                }
            } else {
                prev
            },
            None => prev,
        }
    }
}

/// The composer sends to the target: not switched off, and of the platform of the message
/// being answered, if any.
pub open spec fn target_enabled(v: WatchedChatView, t: TargetView) -> bool {
    &&& !v.composer_disabled.contains(t.0)
    &&& match v.reply_target {
        Some(r) => r.1 == t.1,
        None => true,
    }
}

/// The state after the composer's `text` is queued for the target `t` at `now_ms`: for a
/// watched channel, shown at once ([`with_optimistic_message`]) and queued for that channel
/// with the answered message's id and the client id; else queued for the backend as a chat
/// send.
pub open spec fn queue_to_target(v: WatchedChatView, text: Seq<char>, t: TargetView, now_ms: u64) -> WatchedChatView {
    if !target_enabled(v, t) {
        v
    } else {
        match t.3 {
            Some(wid) => {
                let v1 = with_optimistic_message(v, wid, text, v.reply_target, now_ms);
                WatchedChatView {
                    pending_watched: v.pending_watched.push(
                        (
                            wid,
                            text,
                            match v.reply_target {
                                Some(r) => Some(r.0),
                                None => None,
                            },
                            Some(client_message_id(now_ms, next_sequence_after(v.next_sequence))),
                        ),
                    ),
                    ..v1
                }
            },
            None => WatchedChatView { pending_backend: v.pending_backend.push(BackendOutgoingView::Send(t.1, t.2, text)), ..v },
        }
    }
}

/// [`queue_to_target`] for each target in turn.
pub open spec fn queue_to_targets(v: WatchedChatView, text: Seq<char>, ts: Seq<TargetView>, now_ms: u64) -> WatchedChatView
    decreases ts.len(),
{
    if ts.len() == 0 {
        v
    } else {
        queue_to_target(queue_to_targets(v, text, ts.drop_last(), now_ms), text, ts.last(), now_ms)
    }
}

/// How many targets the composer sends to through the backend.
pub open spec fn backend_target_count(v: WatchedChatView, ts: Seq<TargetView>) -> nat
    decreases ts.len(),
{
    if ts.len() == 0 {
        0
    } else {
        backend_target_count(v, ts.drop_last()) + if target_enabled(v, ts.last()) && ts.last().3 is None {
            1nat
        } else {
            0nat
        }
    }
}

/// The composer sends to some target.
pub open spec fn any_target_enabled(v: WatchedChatView, ts: Seq<TargetView>) -> bool {
    exists|i: int| 0 <= i < ts.len() && target_enabled(v, #[trigger] ts[i])
}

/// The state after the composer sends `text` to the targets `ts` at `now_ms`: queued for
/// each ([`queue_to_targets`]); if it went anywhere, remembered in the sent history, awaited
/// from the backend for as many sends as went through it, and the reply is done.
pub open spec fn after_queue(v: WatchedChatView, text: Seq<char>, ts: Seq<TargetView>, now_ms: u64) -> WatchedChatView {
    let q = queue_to_targets(v, text, ts, now_ms);
    let count = backend_target_count(v, ts);
    if any_target_enabled(v, ts) {
        WatchedChatView {
            sent_history: recorded_history(q.sent_history, text),
            pending_sent: if count > 0 {
                q.pending_sent.push((text, count as usize, 0usize))
            } else {
                q.pending_sent
            },
            reply_target: None,
            ..q
        }
    } else {
        q
    }
}

/// Where the first whitespace after the leading character of `t` is.
pub open spec fn first_ws_after_lead(t: Seq<char>) -> Option<int> {
    first_true(Seq::new(t.len(), |i: int| i >= 1 && is_ws(t[i])))
}

/// The query of a `/user` command (the keyword in any ASCII case, then the rest trimmed), if
/// the trimmed composer text `t` is one.
pub open spec fn user_command_query(t: Seq<char>) -> Option<Seq<char>> {
    if t.len() > 0 && t[0] == '/' {
        match first_ws_after_lead(t) {
            Some(k) => if eq_ignore_ascii_case(t.subrange(1, k), "user"@) {
                Some(trim(t.subrange(k + 1, t.len() as int)))
            } else {
                None
            },
            None => if eq_ignore_ascii_case(t.subrange(1, t.len() as int), "user"@) {
                Some(Seq::empty())
            } else {
                None
            },
        }
    } else {
        None
    }
}

/// What the composer did with a text.
#[derive(Debug, Clone, PartialEq, Eq)]
pub enum ComposerSend {
    /// Nothing was sent.
    NotSent,
    /// The text was queued for at least one channel.
    Sent,
    /// The text was a `/user` command: the user card of this user is to be shown.
    LookUpUser(String),
}

proof fn lemma_queue_keeps_filters(v: WatchedChatView, text: Seq<char>, ts: Seq<TargetView>, now_ms: u64)
    ensures
        queue_to_targets(v, text, ts, now_ms).composer_disabled == v.composer_disabled,
        queue_to_targets(v, text, ts, now_ms).reply_target == v.reply_target,
        queue_to_targets(v, text, ts, now_ms).sent_history == v.sent_history,
        queue_to_targets(v, text, ts, now_ms).pending_sent == v.pending_sent,
    decreases ts.len(),
{
    if ts.len() > 0 {
        lemma_queue_keeps_filters(v, text, ts.drop_last(), now_ms);
    }
}

/// Whether some target of `v` has the id `id` ([`has_target_id`]).
fn has_target(v: &Vec<HomeChannelTarget>, id: &str) -> (r: bool)
    ensures
        r == has_target_id(targets_view(v@), id@),
{
    let ghost tv = targets_view(v@);
    let ghost p = Seq::new(tv.len(), |k: int| tv[k].0 == id@);
    let mut i: usize = 0;
    while i < v.len()
        invariant
            i <= v@.len(),
            tv == targets_view(v@),
            p == Seq::new(tv.len(), |k: int| tv[k].0 == id@),
            forall|j: int| 0 <= j < i ==> !#[trigger] p[j],
        decreases v@.len() - i,
    {
        if str_eq(v[i].id.as_str(), id) {
            proof {
                lemma_first_true_at(p, i as int);
            }
            return true;
        }
        i = i + 1;
    }
    proof {
        lemma_first_true_none(p);
    }
    false
}

/// The watched channel that shows the platform `p`'s channel `login` ([`watched_channel_for`]).
fn find_watched_channel_for(ws: &Vec<WatchedChannel>, p: Platform, login: &str) -> (r: Option<String>)
    ensures
        opt_seq(r) == watched_channel_for(ws@, p, login@),
{
    let ghost hits = Seq::new(ws@.len(), |i: int| ws@[i].platform == p && eq_ignore_ascii_case(ws@[i].channel_slug@, login@));
    let mut i: usize = 0;
    while i < ws.len()
        invariant
            i <= ws@.len(),
            hits == Seq::new(ws@.len(), |i: int| ws@[i].platform == p && eq_ignore_ascii_case(ws@[i].channel_slug@, login@)),
            forall|j: int| 0 <= j < i ==> !#[trigger] hits[j],
        decreases ws@.len() - i,
    {
        if ws[i].platform == p && str_eq_ignore_ascii_case(ws[i].channel_slug.as_str(), login) {
            proof {
                lemma_first_true_at(hits, i as int);
            }
            return Some(ws[i].id.clone());
        }
        i = i + 1;
    }
    proof {
        lemma_first_true_none(hits);
    }
    None
}

/// Which items of `s` are `id`.
pub open spec fn equal_hits(s: Seq<Seq<char>>, id: Seq<char>) -> Seq<bool> {
    Seq::new(s.len(), |i: int| s[i] == id)
}

/// The list of ids with `id` taken out if it is there, else added, as a set toggles.
pub open spec fn toggled(s: Seq<Seq<char>>, id: Seq<char>) -> Seq<Seq<char>> {
    match first_true(equal_hits(s, id)) {
        Some(k) => s.remove(k),
        None => s.push(id),
    }
}

/// The `/user` command query of the trimmed composer text ([`user_command_query`]).
fn parse_user_command(t: &str) -> (r: Option<String>)
    ensures
        opt_seq(r) == user_command_query(t@),
{
    let v = chars_of(t);
    if v.len() == 0 || v[0] != '/' {
        return None;
    }
    let ghost p = Seq::new(t@.len(), |i: int| i >= 1 && is_ws(t@[i]));
    let mut k: usize = 1;
    while k < v.len() && !crate::text::is_whitespace(v[k])
        invariant
            1 <= k <= v@.len(),
            v@ == t@,
            p == Seq::new(t@.len(), |i: int| i >= 1 && is_ws(t@[i])),
            forall|j: int| 0 <= j < k ==> !#[trigger] p[j],
        decreases v@.len() - k,
    {
        k = k + 1;
    }
    let keyword = crate::text::string_from_range(&v, 1, k);
    if !str_eq_ignore_ascii_case(keyword.as_str(), "user") {
        proof {
            if k < v.len() {
                lemma_first_true_at(p, k as int);
            } else {
                lemma_first_true_none(p);
            }
        }
        return None;
    }
    if k < v.len() {
        proof {
            lemma_first_true_at(p, k as int);
        }
        let rest = crate::text::string_from_range(&v, k + 1, v.len());
        Some(crate::text::trimmed(rest.as_str()))
    } else {
        proof {
            lemma_first_true_none(p);
        }
        let e = String::new();
        proof {
            assert(e@ =~= Seq::<char>::empty());
        }
        Some(e)
    }
}

/// Sets the value of `key`, as `BTreeMap::insert` does.
fn keyed_insert<V>(v: &mut Vec<(String, V)>, key: String, value: V)
    requires
        keys_unique(old(v)@),
    ensures
        keys_unique(final(v)@),
        keyed_map(final(v)@) == keyed_map(old(v)@).insert(key@, value),
{
    let ghost s0 = v@;
    proof {
        lemma_first_true(key_hits(s0, key@));
    }
    match find_key(v, key.as_str()) {
        Some(k) => {
            let e = (key, value);
            proof {
                lemma_keyed_update(s0, k as int, e);
            }
            v.set(k, e);
        },
        None => {
            let e = (key, value);
            proof {
                lemma_keyed_push(s0, e);
            }
            v.push(e);
        },
    }
}

/// Drops the value of `key`, as `BTreeMap::remove` does.
fn keyed_remove_key<V>(v: &mut Vec<(String, V)>, key: &str)
    requires
        keys_unique(old(v)@),
    ensures
        keys_unique(final(v)@),
        keyed_map(final(v)@) == keyed_map(old(v)@).remove(key@),
{
    let ghost s0 = v@;
    proof {
        lemma_first_true(key_hits(s0, key@));
    }
    match find_key(v, key) {
        Some(k) => {
            proof {
                lemma_keyed_remove(s0, k as int);
            }
            v.remove(k);
        },
        None => {
            proof {
                assert(keyed_map(s0).remove(key@) =~= keyed_map(s0));
            }
        },
    }
}

/// What the watched channels' service reports; of each report, what the chat state reads.
pub enum WatchedChannelsEvent {
    /// A live message a watched channel buffered.
    MessageBuffered { channel_id: String, message: NormalizedChatMessage },
    /// The connection status of a watched channel.
    StatusChanged { channel_id: String, status: PlatformStatusInfo },
    /// A watched channel's adapter failed.
    AdapterError { channel_id: String, platform: Platform, message: String },
    /// A message planned for the backend, on behalf of a watched channel where there is one.
    BackendMessagePlanned { message: DesktopToBackendMessage, watched_channel_id: Option<String> },
    /// A message sent from the app went out.
    MessageSendSucceeded { client_message_id: String },
    /// A message sent from the app failed.
    MessageSendFailed { client_message_id: String, error: String },
    /// A watched channel is to be removed.
    RemoveRequested { channel_id: String },
    /// The watched channels are to be loaded.
    LoadRequested,
    /// A watched channel is to be added.
    AddRequested,
    /// A watched channel is to reconnect.
    ReconnectRequested,
    /// A message is to be sent to a watched channel.
    SendRequested,
    /// The watched channels are to be polled.
    PollRequested,
}

/// The state after a report of the watched channels' service:
/// - a buffered message as [`with_buffered_message`] says;
/// - a channel's status replaces its earlier one;
/// - an adapter's error is recorded;
/// - a planned backend message is queued, and a 7TV subscription on behalf of a watched
///   channel remembers the 7TV channel it subscribes to;
/// - a send's success or failure marks its message (as [`WatchedChatState::mark_outgoing_message_sent`]
///   and [`WatchedChatState::mark_outgoing_message_error`] do);
/// - a removal forgets the channel's 7TV channel;
/// - anything else changes nothing.
pub open spec fn after_watched_event(v: WatchedChatView, event: WatchedChannelsEvent) -> WatchedChatView {
    match event {
        WatchedChannelsEvent::MessageBuffered { channel_id, message } => with_buffered_message(v, channel_id@, message@),
        WatchedChannelsEvent::StatusChanged { channel_id, status } => WatchedChatView {
            channel_statuses: v.channel_statuses.insert(channel_id@, status),
            ..v
        },
        WatchedChannelsEvent::AdapterError { message, .. } => WatchedChatView { runtime_errors: v.runtime_errors.push(message@), ..v },
        WatchedChannelsEvent::BackendMessagePlanned { message, watched_channel_id } => WatchedChatView {
            seven_tv_channels: match (watched_channel_id, message) {
                (Some(w), DesktopToBackendMessage::SeventvSubscribe { channel_id, .. }) => v.seven_tv_channels.insert(w@, channel_id@),
                _ => v.seven_tv_channels,
            },
            pending_backend: v.pending_backend.push(outgoing_view(message)),
            ..v
        },
        WatchedChannelsEvent::MessageSendSucceeded { client_message_id } => WatchedChatView {
            statuses: if v.statuses.contains_key(client_message_id@) {
                v.statuses.insert(client_message_id@, OutgoingChatMessageStatus::Sent)
            } else {
                v.statuses
            },
            ..v
        },
        WatchedChannelsEvent::MessageSendFailed { client_message_id, error } => WatchedChatView {
            statuses: if v.statuses.contains_key(client_message_id@) {
                v.statuses.insert(client_message_id@, OutgoingChatMessageStatus::Error)
            } else {
                v.statuses
            },
            sent_history: match message_text_in(v.histories, client_message_id@) {
                Some(t) => without_last(v.sent_history, t),
                None => v.sent_history,
            },
            runtime_errors: v.runtime_errors.push(error@),
            ..v
        },
        WatchedChannelsEvent::RemoveRequested { channel_id } => WatchedChatView {
            seven_tv_channels: v.seven_tv_channels.remove(channel_id@),
            ..v
        },
        _ => v,
    }
}

/// The messages with the badge images that the snapshot shows lent across it
/// ([`hydrate_badge_images_from_snapshot`]).
pub open spec fn hydrated(ms: Seq<MessageView>) -> Seq<MessageView> {
    backfill_all(ms, image_sources(ms))
}

/// The statuses after each signed-in account marks its platform connected, as that account,
/// in turn.
pub open spec fn statuses_from_accounts(s: Seq<PlatformStatusInfo>, accs: Seq<AccountRecord>) -> Seq<PlatformStatusInfo>
    decreases accs.len(),
{
    if accs.len() == 0 {
        s
    } else {
        let a = accs.last();
        set_platform_status(
            statuses_from_accounts(s, accs.drop_last()),
            PlatformStatusInfo {
                platform: a.platform,
                status: PlatformStatus::Connected,
                error: None,
                mode: PlatformStatusMode::Authenticated,
                channel_login: Some(a.username),
            },
        )
    }
}

/// The state after the stored history `stored` of the watched channel `c` is loaded: when it
/// holds messages, hydrated, it becomes the channel's buffer and, for the user's own channel,
/// joins the home feed.
pub open spec fn with_stored_history(v: WatchedChatView, c: WatchedChannel, stored: Option<Seq<MessageView>>) -> WatchedChatView {
    match stored {
        Some(h) => if h.len() > 0 {
            WatchedChatView {
                messages: if is_home_channel(v.accounts, c) {
                    v.messages + hydrated(h)
                } else {
                    v.messages
                },
                histories: set_history(v.histories, c.id@, hydrated(h)),
                ..v
            }
        } else {
            v
        },
        None => v,
    }
}

/// [`with_stored_history`] for each channel of `cs` in turn.
pub open spec fn with_stored_histories(v: WatchedChatView, cs: Seq<WatchedChannel>, stored: Seq<(Seq<char>, Seq<MessageView>)>) -> WatchedChatView
    decreases cs.len(),
{
    if cs.len() == 0 {
        v
    } else {
        let c = cs.last();
        with_stored_history(with_stored_histories(v, cs.drop_last(), stored), c, history_of(stored, c.id@))
    }
}

/// Which watched channels are not the user's own and buffer a message with the id `id`.
pub open spec fn foreign_buffer_hits(v: WatchedChatView, id: Seq<char>) -> Seq<bool> {
    Seq::new(
        v.watched_channels.len(),
        |i: int| !is_home_channel(v.accounts, v.watched_channels[i]) && has_message_id(buffer_of(v.histories, v.watched_channels[i].id@), id),
    )
}

/// The home feed without the messages that a watched channel other than the user's own
/// buffers.
pub open spec fn without_foreign(v: WatchedChatView, ms: Seq<MessageView>) -> Seq<MessageView>
    decreases ms.len(),
{
    if ms.len() == 0 {
        ms
    } else {
        let r = without_foreign(v, ms.drop_last());
        if first_true(foreign_buffer_hits(v, ms.last().0)) is Some {
            r
        } else {
            r.push(ms.last())
        }
    }
}

/// The messages with each id kept once, where it first occurs.
pub open spec fn first_of_each_id(ms: Seq<MessageView>) -> Seq<MessageView>
    decreases ms.len(),
{
    if ms.len() == 0 {
        ms
    } else {
        let r = first_of_each_id(ms.drop_last());
        if has_message_id(ms.drop_last(), ms.last().0) {
            r
        } else {
            r.push(ms.last())
        }
    }
}

/// Where `m` goes in a list kept in the order of the timestamps' text: after every message
/// whose timestamp does not come after its own.
pub open spec fn timestamp_position(s: Seq<MessageView>, m: MessageView) -> int {
    match first_true(Seq::new(s.len(), |i: int| chars_less(m.6, s[i].6))) {
        Some(i) => i,
        None => s.len() as int,
    }
}

/// The messages in the order of their timestamps' text, equal ones in their order
/// (`sort_by_key` on the timestamp).
pub open spec fn sorted_by_timestamp(ms: Seq<MessageView>) -> Seq<MessageView>
    decreases ms.len(),
{
    if ms.len() == 0 {
        ms
    } else {
        let s = sorted_by_timestamp(ms.drop_last());
        s.insert(timestamp_position(s, ms.last()), ms.last())
    }
}

/// The state loaded from storage: the recent messages, hydrated, as the home feed; the
/// watched channels; the signed-in accounts, each marking its platform connected; each watched
/// channel's stored history ([`with_stored_histories`]); then the home feed without what other
/// channels buffer, each id once, hydrated, in the order of the timestamps' text. What could
/// not be read (`None`) leaves that part as it was.
pub open spec fn after_snapshot(
    v: WatchedChatView,
    recent: Option<Seq<MessageView>>,
    channels: Option<Seq<WatchedChannel>>,
    accounts: Option<Seq<AccountRecord>>,
    stored: Seq<(Seq<char>, Seq<MessageView>)>,
) -> WatchedChatView {
    let v1 = WatchedChatView {
        messages: match recent {
            Some(r) => hydrated(r),
            None => v.messages,
        },
        watched_channels: match channels {
            Some(c) => c,
            None => v.watched_channels,
        },
        ..v
    };
    let v2 = match accounts {
        Some(a) => WatchedChatView {
            platform_statuses: statuses_from_accounts(v1.platform_statuses, a),
            accounts: a,
            ..v1
        },
        None => v1,
    };
    let v3 = with_stored_histories(v2, v2.watched_channels, stored);
    WatchedChatView { messages: sorted_by_timestamp(hydrated(first_of_each_id(without_foreign(v3, v3.messages)))), ..v3 }
}

/// The messages with the badge images the snapshot shows lent across it ([`hydrated`]).
fn hydrate(ms: Vec<NormalizedChatMessage>) -> (r: Vec<NormalizedChatMessage>)
    ensures
        views(r@) == hydrated(views(ms@)),
{
    let mut ms = ms;
    hydrate_badge_images_from_snapshot(&mut ms);
    ms
}

/// A copy of a list of messages.
fn copy_messages(v: &Vec<NormalizedChatMessage>) -> (r: Vec<NormalizedChatMessage>)
    ensures
        views(r@) == views(v@),
{
    let mut out: Vec<NormalizedChatMessage> = Vec::new();
    let mut i: usize = 0;
    while i < v.len()
        invariant
            i <= v@.len(),
            views(out@) == views(v@).take(i as int),
        decreases v@.len() - i,
    {
        let ghost before = out@;
        out.push(v[i].clone());
        proof {
            assert(views(out@) =~= views(before).push(v@[i as int]@));
            assert(views(v@).take(i + 1) =~= views(v@).take(i as int).push(v@[i as int]@));
        }
        i = i + 1;
    }
    proof {
        assert(views(v@).take(i as int) =~= views(v@));
    }
    out
}

/// A copy of a watched channel.
fn copy_channel(c: &WatchedChannel) -> (r: WatchedChannel)
    ensures
        r == *c,
{
    WatchedChannel {
        id: c.id.clone(),
        platform: c.platform,
        channel_slug: c.channel_slug.clone(),
        broadcaster_id: match &c.broadcaster_id {
            Some(b) => Some(b.clone()),
            None => None,
        },
        display_name: c.display_name.clone(),
        created_at: c.created_at,
    }
}

/// The messages with each id kept once, where it first occurs ([`first_of_each_id`]).
fn keep_first_of_each_id(v: &Vec<NormalizedChatMessage>) -> (r: Vec<NormalizedChatMessage>)
    ensures
        views(r@) == first_of_each_id(views(v@)),
{
    let ghost vs = views(v@);
    let mut out: Vec<NormalizedChatMessage> = Vec::new();
    let mut i: usize = 0;
    while i < v.len()
        invariant
            i <= v@.len(),
            vs == views(v@),
            views(out@) == first_of_each_id(vs.take(i as int)),
        decreases v@.len() - i,
    {
        proof {
            assert(vs.take(i + 1).drop_last() =~= vs.take(i as int));
            assert(vs.take(i + 1).last() == v@[i as int]@);
        }
        let mut seen = false;
        let mut j: usize = 0;
        while j < i
            invariant
                j <= i < v@.len(),
                vs == views(v@),
                seen == (first_true(id_hits(vs.take(i as int).take(j as int), v@[i as int]@.0)) is Some),
            decreases i - j,
        {
            proof {
                let p = vs.take(i as int);
                assert(p.take(j + 1).drop_last() =~= p.take(j as int));
                lemma_first_true(id_hits(p.take(j as int), v@[i as int]@.0));
                lemma_first_true(id_hits(p.take(j + 1), v@[i as int]@.0));
                assert(id_hits(p.take(j + 1), v@[i as int]@.0).drop_last() =~= id_hits(p.take(j as int), v@[i as int]@.0));
            }
            if !seen && str_eq(v[j].id.as_str(), v[i].id.as_str()) {
                seen = true;
            }
            j = j + 1;
        }
        proof {
            assert(vs.take(i as int).take(i as int) =~= vs.take(i as int));
        }
        if !seen {
            let ghost before = out@;
            out.push(v[i].clone());
            proof {
                assert(views(out@) =~= views(before).push(v@[i as int]@));
            }
        }
        i = i + 1;
    }
    proof {
        assert(vs.take(i as int) =~= vs);
    }
    out
}

/// The messages in the order of their timestamps' text, equal ones in their order
/// ([`sorted_by_timestamp`]).
fn sort_by_timestamp(v: &Vec<NormalizedChatMessage>) -> (r: Vec<NormalizedChatMessage>)
    ensures
        views(r@) == sorted_by_timestamp(views(v@)),
{
    let ghost vs = views(v@);
    let mut out: Vec<NormalizedChatMessage> = Vec::new();
    let mut i: usize = 0;
    while i < v.len()
        invariant
            i <= v@.len(),
            vs == views(v@),
            views(out@) == sorted_by_timestamp(vs.take(i as int)),
        decreases v@.len() - i,
    {
        proof {
            assert(vs.take(i + 1).drop_last() =~= vs.take(i as int));
            assert(vs.take(i + 1).last() == v@[i as int]@);
        }
        let ghost ov = views(out@);
        let ghost after = Seq::new(ov.len(), |k: int| chars_less(v@[i as int]@.6, ov[k].6));
        let mut pos: usize = 0;
        while pos < out.len() && !crate::chat::normalize::str_less(v[i].timestamp.as_str(), out[pos].timestamp.as_str())
            invariant
                pos <= out@.len(),
                i < v@.len(),
                ov == views(out@),
                after == Seq::new(ov.len(), |k: int| chars_less(v@[i as int]@.6, ov[k].6)),
                forall|k: int| 0 <= k < pos ==> !#[trigger] after[k],
            decreases out@.len() - pos,
        {
            pos = pos + 1;
        }
        proof {
            if pos < out.len() {
                lemma_first_true_at(after, pos as int);
            } else {
                lemma_first_true_none(after);
            }
        }
        out.insert(pos, v[i].clone());
        proof {
            assert(views(out@) =~= ov.insert(pos as int, v@[i as int]@));
        }
        i = i + 1;
    }
    proof {
        assert(vs.take(i as int) =~= vs);
    }
    out
}

/// How many of the statuses are connected.
pub open spec fn connected_count(s: Seq<PlatformStatusInfo>) -> nat
    decreases s.len(),
{
    if s.len() == 0 {
        0
    } else {
        connected_count(s.drop_last()) + if s.last().status == PlatformStatus::Connected {
            1nat
        } else {
            0nat
        }
    }
}

/// The live statuses of the home channels after each of `statuses` in turn replaced the one
/// kept under its key ([`status_key`]).
pub open spec fn with_home_statuses(m: Map<Seq<char>, ChannelStatus>, statuses: Seq<ChannelStatus>) -> Map<Seq<char>, ChannelStatus>
    decreases statuses.len(),
{
    if statuses.len() == 0 {
        m
    } else {
        let st = statuses.last();
        with_home_statuses(m, statuses.drop_last()).insert(status_key(st.platform, st.channel_login@), st)
    }
}

/// The sent history with `text` added, keeping the last [`SENT_MESSAGE_HISTORY_LIMIT`].
pub open spec fn recorded_history(h: Seq<Seq<char>>, text: Seq<char>) -> Seq<Seq<char>> {
    let t = h.push(text);
    if t.len() > SENT_MESSAGE_HISTORY_LIMIT {
        t.skip(t.len() - SENT_MESSAGE_HISTORY_LIMIT)
    } else {
        t
    }
}

/// The sent history without its last entry equal to `text`, if any.
pub open spec fn without_last(h: Seq<Seq<char>>, text: Seq<char>) -> Seq<Seq<char>> {
    match last_true(Seq::new(h.len(), |i: int| h[i] == text)) {
        Some(k) => h.remove(k),
        None => h,
    }
}

impl WatchedChatState {
    /// The state is well formed: no two statuses share a client id, and the buffers are in the
    /// order of their channel ids.
    pub closed spec fn wf(&self) -> bool {
        &&& keys_unique(self.outgoing_message_statuses@)
        &&& histories_sorted(self@.histories)
        &&& platforms_sorted(self@.platform_statuses)
        &&& keys_unique(self.watched_channel_statuses@)
        &&& keys_unique(self.watched_seven_tv_channel_ids@)
        &&& keys_unique(self.home_channel_statuses@)
        &&& keys_unique(self.watched_reply_targets@)
    }

    /// A state with the watched channels and signed-in accounts, no messages, and buffers of
    /// `buffer_size` messages per channel.
    pub fn new(watched_channels: Vec<WatchedChannel>, accounts: Vec<AccountRecord>, buffer_size: usize) -> (r: Self)
        ensures
            r.wf(),
            r@ == (WatchedChatView {
                watched_channels: watched_channels@,
                accounts: accounts@,
                messages: Seq::empty(),
                histories: Seq::empty(),
                statuses: Map::empty(),
                next_sequence: 0,
                sent_history: Seq::empty(),
                pending_sent: Seq::empty(),
                runtime_errors: Seq::empty(),
                catalog: Seq::empty(),
                buffer_size,
                events: Seq::empty(),
                unread_events: 0,
                active_section: MainSection::Chat,
                platform_statuses: Seq::empty(),
                composer_disabled: Seq::empty(),
                reply_target: None,
                pending_watched: Seq::empty(),
                pending_backend: Seq::empty(),
                channel_statuses: Map::empty(),
                seven_tv_channels: Map::empty(),
                home_statuses: Map::empty(),
                watched_reply_targets: Map::empty(),
            }),
    {
        let r = WatchedChatState {
            watched_channels,
            accounts,
            messages: Vec::new(),
            watched_channel_messages: Vec::new(),
            outgoing_message_statuses: Vec::new(),
            next_outgoing_message_sequence: 0,
            sent_message_history: Vec::new(),
            pending_backend_sent_history: Vec::new(),
            runtime_errors: Vec::new(),
            seven_tv_catalog: SevenTvCatalog::new(),
            buffer_size,
            events: Vec::new(),
            unread_events: 0,
            active_section: MainSection::Chat,
            platform_statuses: Vec::new(),
            composer_disabled_channel_ids: Vec::new(),
            home_reply_target: None,
            pending_watched_channel_messages: Vec::new(),
            pending_backend_messages: Vec::new(),
            watched_channel_statuses: Vec::new(),
            watched_seven_tv_channel_ids: Vec::new(),
            home_channel_statuses: Vec::new(),
            watched_reply_targets: Vec::new(),
        };
        proof {
            assert(views(r.messages@) =~= Seq::empty());
            assert(histories_view(r.watched_channel_messages@) =~= Seq::empty());
            assert(keyed_map(r.outgoing_message_statuses@) =~= Map::empty());
            assert(strings_view(r.sent_message_history@) =~= Seq::empty());
            assert(pending_view(r.pending_backend_sent_history@) =~= Seq::empty());
            assert(strings_view(r.runtime_errors@) =~= Seq::empty());
            assert(strings_view(r.composer_disabled_channel_ids@) =~= Seq::empty());
            assert(pending_messages_view(r.pending_watched_channel_messages@) =~= Seq::empty());
            assert(Seq::new(r.pending_backend_messages@.len(), |i: int| outgoing_view(r.pending_backend_messages@[i])) =~= Seq::empty());
            assert(keyed_map(r.watched_channel_statuses@) =~= Map::empty());
            assert(r@.seven_tv_channels =~= Map::empty());
            assert(keyed_map(r.home_channel_statuses@) =~= Map::empty());
            assert(r@.watched_reply_targets =~= Map::empty());
        }
        r
    }

    /// Whether the channel is the user's own ([`is_home_channel`]).
    pub fn is_home_account_channel(&self, channel: &WatchedChannel) -> (r: bool)
        ensures
            r == is_home_channel(self@.accounts, *channel),
    {
        find_channel_account(&self.accounts, channel).is_some()
    }

    /// Whether the watched channel `channel_id` is the user's own ([`is_home_channel_id`]).
    pub fn is_home_account_channel_id(&self, channel_id: &str) -> (r: bool)
        ensures
            r == is_home_channel_id(self@.watched_channels, self@.accounts, channel_id@),
    {
        match find_channel(&self.watched_channels, channel_id) {
            Some(k) => self.is_home_account_channel(&self.watched_channels[k]),
            None => false,
        }
    }

    /// The status of the message sent with the client id `client_message_id`.
    pub fn outgoing_status(&self, client_message_id: &str) -> (r: Option<OutgoingChatMessageStatus>)
        requires
            self.wf(),
        ensures
            r == (if self@.statuses.contains_key(client_message_id@) {
                Some(self@.statuses[client_message_id@])
            } else {
                None
            }),
    {
        match find_key(&self.outgoing_message_statuses, client_message_id) {
            Some(k) => Some(self.outgoing_message_statuses[k].1),
            None => None,
        }
    }

    /// Marks the message sent with `client_message_id` as sent, if the app knows it.
    pub fn mark_outgoing_message_sent(&mut self, client_message_id: &str)
        requires
            old(self).wf(),
        ensures
            final(self).wf(),
            final(self)@ == (WatchedChatView {
                statuses: if old(self)@.statuses.contains_key(client_message_id@) {
                    old(self)@.statuses.insert(client_message_id@, OutgoingChatMessageStatus::Sent)
                } else {
                    old(self)@.statuses
                },
                ..old(self)@
            }),
    {
        if let Some(k) = find_key(&self.outgoing_message_statuses, client_message_id) {
            let ghost s0 = self.outgoing_message_statuses@;
            proof {
                lemma_first_true(key_hits(s0, client_message_id@));
            }
            let key = self.outgoing_message_statuses[k].0.clone();
            self.outgoing_message_statuses.set(k, (key, OutgoingChatMessageStatus::Sent));
            proof {
                lemma_keyed_update(s0, k as int, (key, OutgoingChatMessageStatus::Sent));
            }
        }
    }

    /// The messages sent from the composer, oldest first.
    pub fn sent_message_history(&self) -> (r: &Vec<String>)
        ensures
            strings_view(r@) == self@.sent_history,
    {
        &self.sent_message_history
    }

    /// The errors the chat state recorded, oldest first.
    pub fn runtime_errors(&self) -> (r: &Vec<String>)
        ensures
            strings_view(r@) == self@.runtime_errors,
    {
        &self.runtime_errors
    }

    /// Remembers a message sent from the composer, keeping the last
    /// [`SENT_MESSAGE_HISTORY_LIMIT`] ([`recorded_history`]).
    pub fn record_sent_message_history(&mut self, text: &str)
        requires
            old(self).wf(),
        ensures
            final(self).wf(),
            final(self)@ == (WatchedChatView { sent_history: recorded_history(old(self)@.sent_history, text@), ..old(self)@ }),
    {
        let ghost h0 = self.sent_message_history@;
        self.sent_message_history.push(owned(text));
        if self.sent_message_history.len() > SENT_MESSAGE_HISTORY_LIMIT {
            let excess = self.sent_message_history.len() - SENT_MESSAGE_HISTORY_LIMIT;
            let kept = self.sent_message_history.split_off(excess);
            self.sent_message_history = kept;
        }
        proof {
            let t = strings_view(h0).push(text@);
            if t.len() > SENT_MESSAGE_HISTORY_LIMIT {
                assert(strings_view(self.sent_message_history@) =~= t.skip(t.len() - SENT_MESSAGE_HISTORY_LIMIT));
            } else {
                assert(strings_view(self.sent_message_history@) =~= t);
            }
        }
    }

    /// Forgets the last remembered message equal to `text` ([`without_last`]).
    pub fn remove_sent_message_history(&mut self, text: &str)
        requires
            old(self).wf(),
        ensures
            final(self).wf(),
            final(self)@ == (WatchedChatView { sent_history: without_last(old(self)@.sent_history, text@), ..old(self)@ }),
    {
        let ghost h = strings_view(self.sent_message_history@);
        if let Some(k) = find_last_string(&self.sent_message_history, text) {
            self.sent_message_history.remove(k);
            proof {
                assert(strings_view(self.sent_message_history@) =~= h.remove(k as int));
            }
        }
    }

    /// Takes the result of one message sent through the backend: `is_send_message` tells a
    /// chat send from other messages, which change nothing; `sent` whether it went out.
    /// The oldest pending composer send counts it; once none of its sends is left it is
    /// dropped, and if none of them went out its text leaves the sent history.
    pub fn apply_backend_send_result(&mut self, is_send_message: bool, sent: bool)
        requires
            old(self).wf(),
        ensures
            final(self).wf(),
            !is_send_message || old(self)@.pending_sent.len() == 0 ==> final(self)@ == old(self)@,
            is_send_message && old(self)@.pending_sent.len() > 0 ==> {
                let front = old(self)@.pending_sent[0];
                let remaining = if front.1 == 0 { 0 } else { (front.1 - 1) as usize };
                let sent_count = if sent && front.2 < usize::MAX { (front.2 + 1) as usize } else { front.2 };
                final(self)@ == (WatchedChatView {
                    pending_sent: if remaining == 0 {
                        old(self)@.pending_sent.drop_first()
                    } else {
                        old(self)@.pending_sent.update(0, (front.0, remaining, sent_count))
                    },
                    sent_history: if remaining == 0 && sent_count == 0 {
                        without_last(old(self)@.sent_history, front.0)
                    } else {
                        old(self)@.sent_history
                    },
                    ..old(self)@
                })
            },
    {
        if !is_send_message || self.pending_backend_sent_history.len() == 0 {
            return;
        }
        let ghost p0 = self.pending_backend_sent_history@;
        let front = &self.pending_backend_sent_history[0];
        let remaining = front.remaining.saturating_sub(1);
        let sent_count = if sent { front.sent.saturating_add(1) } else { front.sent };
        let text = front.text.clone();
        if remaining == 0 {
            self.pending_backend_sent_history.remove(0);
            proof {
                assert(pending_view(self.pending_backend_sent_history@) =~= pending_view(p0).drop_first());
            }
        } else {
            let updated = PendingBackendSentHistory { text: text.clone(), remaining, sent: sent_count };
            self.pending_backend_sent_history.set(0, updated);
            proof {
                assert(pending_view(self.pending_backend_sent_history@) =~= pending_view(p0).update(
                    0,
                    (text@, remaining, sent_count),
                ));
            }
        }
        if remaining == 0 && sent_count == 0 {
            self.remove_sent_message_history(text.as_str());
        }
    }

    /// Adds `m` at the end of the buffer of the channel `cid`, making the buffer if there is
    /// none.
    fn append_channel_message(&mut self, cid: &str, m: NormalizedChatMessage)
        requires
            old(self).wf(),
        ensures
            final(self).wf(),
            final(self)@ == (WatchedChatView {
                histories: set_history(old(self)@.histories, cid@, buffer_of(old(self)@.histories, cid@).push(m@)),
                ..old(self)@
            }),
    {
        let ghost v0 = histories_view(self.watched_channel_messages@);
        proof {
            lemma_first_true(history_hits(v0, cid@));
            lemma_set_history(v0, cid@, buffer_of(v0, cid@).push(m@));
        }
        match find_history(&self.watched_channel_messages, cid) {
            Some(i) => {
                let (key, mut h) = self.watched_channel_messages.remove(i);
                h.push(m);
                self.watched_channel_messages.insert(i, (key, h));
                proof {
                    assert(views(h@) =~= buffer_of(v0, cid@).push(m@));
                    assert(histories_view(self.watched_channel_messages@) =~= v0.update(i as int, (cid@, views(h@))));
                }
            },
            None => {
                let mut h = Vec::new();
                h.push(m);
                proof {
                    assert(views(h@) =~= buffer_of(v0, cid@).push(m@));
                }
                set_channel_history(&mut self.watched_channel_messages, cid, h);
            },
        }
    }

    /// Sets the status of the client id `id`.
    fn set_status(&mut self, id: &String, status: OutgoingChatMessageStatus)
        requires
            old(self).wf(),
        ensures
            final(self).wf(),
            final(self)@ == (WatchedChatView { statuses: old(self)@.statuses.insert(id@, status), ..old(self)@ }),
    {
        let ghost s0 = self.outgoing_message_statuses@;
        proof {
            lemma_first_true(key_hits(s0, id@));
        }
        match find_key(&self.outgoing_message_statuses, id.as_str()) {
            Some(k) => {
                let e = (id.clone(), status);
                proof {
                    lemma_keyed_update(s0, k as int, e);
                }
                self.outgoing_message_statuses.set(k, e);
            },
            None => {
                let e = (id.clone(), status);
                proof {
                    lemma_keyed_push(s0, e);
                }
                self.outgoing_message_statuses.push(e);
            },
        }
    }

    /// Shows `text`, sent by the app to the watched channel `channel_id` at `now_ms`, at once
    /// ([`with_optimistic_message`]); gives the client id it is known by until its echo comes
    /// back.
    pub fn insert_optimistic_watched_message(
        &mut self,
        channel_id: &str,
        text: &str,
        reply_target: Option<&NormalizedChatMessage>,
        now_ms: u64,
    ) -> (r: String)
        requires
            old(self).wf(),
        ensures
            final(self).wf(),
            r@ == client_message_id(now_ms, next_sequence_after(old(self)@.next_sequence)),
            final(self)@ == with_optimistic_message(old(self)@, channel_id@, text@, opt_message_view(reply_target), now_ms),
    {
        let ghost v0 = self@;
        self.next_outgoing_message_sequence = self.next_outgoing_message_sequence.saturating_add(1);
        let mut client_id = owned("local:");
        push_decimal(&mut client_id, now_ms);
        push_str(&mut client_id, ":");
        push_decimal(&mut client_id, self.next_outgoing_message_sequence);

        let channel_idx = find_channel(&self.watched_channels, channel_id);
        let account_idx: Option<usize> = match channel_idx {
            Some(c) => find_self_account(&self.accounts, &self.watched_channels[c]),
            None => None,
        };
        proof {
            lemma_first_true(channel_hits(v0.watched_channels, channel_id@));
        }
        let platform = match channel_idx {
            Some(c) => self.watched_channels[c].platform,
            None => Platform::Twitch,
        };
        let history_idx = find_history(&self.watched_channel_messages, channel_id);
        let cached: Option<(usize, usize)> = match account_idx {
            Some(a) => match history_idx {
                Some(hi) => match find_last_own_message(&self.watched_channel_messages[hi].1, &self.accounts[a]) {
                    Some(k) => Some((hi, k)),
                    None => None,
                },
                None => None,
            },
            None => None,
        };
        proof {
            let hs = v0.histories;
            lemma_first_true(history_hits(hs, channel_id@));
            match cached {
                Some((hi, k)) => {
                    assert(hs[hi as int].1 == views(self.watched_channel_messages@[hi as int].1@));
                    lemma_last_true(own_message_hits(hs[hi as int].1, self.accounts@[account_idx->0 as int]));
                },
                None => {},
            }
        }
        let author_id = match account_idx {
            Some(a) => if chars_of(self.accounts[a].platform_user_id.as_str()).len() > 0 {
                self.accounts[a].platform_user_id.clone()
            } else {
                local_self_author_id(platform)
            },
            None => local_self_author_id(platform),
        };
        let username = match account_idx {
            Some(a) => Some(self.accounts[a].username.clone()),
            None => None,
        };
        let display_name = match account_idx {
            Some(a) => self.accounts[a].display_name.clone(),
            None => match channel_idx {
                Some(c) => self.watched_channels[c].display_name.clone(),
                None => owned("You"),
            },
        };
        let account_avatar = match account_idx {
            Some(a) => copy_opt_string(&self.accounts[a].avatar_url),
            None => None,
        };
        let (color, avatar_url, badges) = match cached {
            Some((hi, k)) => {
                let author = self.watched_channel_messages[hi].1[k].author.clone();
                let avatar = match account_avatar {
                    Some(x) => Some(x),
                    None => author.avatar_url,
                };
                (author.color, avatar, author.badges)
            },
            None => (None, account_avatar, Vec::new()),
        };
        let reply = match reply_target {
            Some(m) => Some(chat_reply_from_message(m)),
            None => None,
        };
        let message = NormalizedChatMessage {
            id: client_id.clone(),
            platform,
            channel_id: owned(channel_id),
            author: ChatAuthor { id: author_id, username, display_name, color, avatar_url, badges },
            text: owned(text),
            emotes: Vec::new(),
            timestamp: crate::text::u64_to_string(now_ms),
            message_type: ChatMessageType::Message,
            reply,
        };
        proof {
            let m = optimistic_message(v0, channel_id@, text@, opt_message_view(reply_target), now_ms);
            assert(crate::protocol::types::emotes_view(message.emotes@) =~= Seq::empty());
            match cached {
                None => {
                    assert(crate::protocol::types::badges_view(message.author.badges@) =~= Seq::empty());
                },
                Some(_) => {},
            }
            assert(message@ == m);
        }
        let home = self.is_home_account_channel_id(channel_id);
        if home {
            self.messages.push(message.clone());
        }
        self.append_channel_message(channel_id, message);
        self.set_status(&client_id, OutgoingChatMessageStatus::Pending);
        proof {
            let m = optimistic_message(v0, channel_id@, text@, opt_message_view(reply_target), now_ms);
            if home {
                assert(views(self.messages@) =~= v0.messages.push(m));
            }
        }
        client_id
    }

    /// The account at `account`, if any.
    pub closed spec fn account_at(&self, account: Option<usize>) -> Option<AccountRecord> {
        match account {
            Some(a) => Some(self.accounts@[a as int]),
            None => None,
        }
    }

    /// Whether `c` is an optimistic copy of the echo `message` ([`is_echo_of`]).
    fn echo_matches(&self, cid: &str, message: &NormalizedChatMessage, account: Option<usize>, c: &NormalizedChatMessage) -> (r: bool)
        requires
            self.wf(),
            account matches Some(a) ==> a < self.accounts@.len(),
        ensures
            r == is_echo_of(self@.statuses, cid@, message@, self.account_at(account), c@),
    {
        if !str_eq(c.channel_id.as_str(), cid) || c.platform != message.platform || !str_eq(c.text.as_str(), message.text.as_str())
            || !str_starts_with(c.id.as_str(), "local:") {
            return false;
        }
        match self.outgoing_status(c.id.as_str()) {
            Some(OutgoingChatMessageStatus::Pending) => {},
            Some(OutgoingChatMessageStatus::Sent) => {},
            _ => {
                return false;
            },
        }
        match account {
            Some(a) => str_eq_ignore_ascii_case(message.author.id.as_str(), self.accounts[a].platform_user_id.as_str()),
            None => true,
        }
    }

    /// Matches the echo `message`, come back from the platform in the watched channel
    /// `channel_id`, to the optimistic message it answers ([`reconciled`]); `true` when it
    /// answered one.
    #[verifier::loop_isolation(false)]
    pub fn reconcile_outgoing_echo(&mut self, channel_id: &str, message: &NormalizedChatMessage) -> (r: bool)
        requires
            old(self).wf(),
        ensures
            final(self).wf(),
            r == optimistic_echo_id(old(self)@, channel_id@, message@) is Some,
            final(self)@ == reconciled(old(self)@, channel_id@, message@),
    {
        let ghost v0 = self@;
        proof {
            lemma_first_true(channel_hits(v0.watched_channels, channel_id@));
            lemma_first_true(history_hits(v0.histories, channel_id@));
        }
        let c = match find_channel(&self.watched_channels, channel_id) {
            Some(c) => c,
            None => {
                return false;
            },
        };
        let account = find_self_account(&self.accounts, &self.watched_channels[c]);
        let hi = match find_history(&self.watched_channel_messages, channel_id) {
            Some(hi) => hi,
            None => {
                return false;
            },
        };
        let ghost h0 = views(self.watched_channel_messages@[hi as int].1@);
        let ghost hits = echo_hits(v0.statuses, channel_id@, message@, self_account_of(v0.accounts, v0.watched_channels[c as int]), h0);
        proof {
            assert(h0 == v0.histories[hi as int].1);
            assert(self.account_at(account) == self_account_of(v0.accounts, v0.watched_channels[c as int]));
        }
        let hlen = self.watched_channel_messages[hi].1.len();
        let mut k: usize = 0;
        while k < hlen && !self.echo_matches(channel_id, message, account, &self.watched_channel_messages[hi].1[k])
            invariant
                k <= hlen,
                hlen == h0.len(),
                forall|j: int| 0 <= j < k ==> !#[trigger] hits[j],
            decreases hlen - k,
        {
            proof {
                assert(hits[k as int]  == is_echo_of(v0.statuses, channel_id@, message@, self.account_at(account), h0[k as int]));
            }
            k = k + 1;
        }
        if k == hlen {
            proof {
                lemma_first_true_none(hits);
            }
            return false;
        }
        proof {
            assert(hits[k as int]);
            lemma_first_true_at(hits, k as int);
        }
        let oid = self.watched_channel_messages[hi].1[k].id.clone();
        let ghost s0 = self.outgoing_message_statuses@;
        proof {
            lemma_set_history(v0.histories, channel_id@, echo_in(h0, oid@, message@));
        }
        let (key, mut h) = self.watched_channel_messages.remove(hi);
        apply_echo(&mut h, oid.as_str(), message);
        self.watched_channel_messages.insert(hi, (key, h));
        proof {
            assert(histories_view(self.watched_channel_messages@) =~= v0.histories.update(
                hi as int,
                (channel_id@, echo_in(h0, oid@, message@)),
            ));
        }
        if self.is_home_account_channel_id(channel_id) {
            match find_message_id(&self.messages, oid.as_str()) {
                Some(_) => {
                    apply_echo(&mut self.messages, oid.as_str(), message);
                },
                None => {
                    if find_message_id(&self.messages, message.id.as_str()).is_none() {
                        self.messages.push(message.clone());
                        proof {
                            assert(views(self.messages@) =~= v0.messages.push(message@));
                        }
                    }
                },
            }
        }
        proof {
            lemma_first_true(key_hits(s0, oid@));
        }
        if let Some(si) = find_key(&self.outgoing_message_statuses, oid.as_str()) {
            self.outgoing_message_statuses.remove(si);
            proof {
                lemma_keyed_remove(s0, si as int);
            }
        }
        proof {
            assert(keyed_map(self.outgoing_message_statuses@) =~= v0.statuses.remove(oid@));
        }
        true
    }

    /// Marks the message sent with `client_message_id` as failed, if the app knows it: its
    /// text, found in the buffers ([`message_text_in`]), leaves the sent history
    /// ([`without_last`]), and the error is recorded.
    pub fn mark_outgoing_message_error(&mut self, client_message_id: &str, error: String)
        requires
            old(self).wf(),
        ensures
            final(self).wf(),
            final(self)@ == (WatchedChatView {
                statuses: if old(self)@.statuses.contains_key(client_message_id@) {
                    old(self)@.statuses.insert(client_message_id@, OutgoingChatMessageStatus::Error)
                } else {
                    old(self)@.statuses
                },
                sent_history: match message_text_in(old(self)@.histories, client_message_id@) {
                    Some(t) => without_last(old(self)@.sent_history, t),
                    None => old(self)@.sent_history,
                },
                runtime_errors: old(self)@.runtime_errors.push(error@),
                ..old(self)@
            }),
    {
        if let Some(k) = find_key(&self.outgoing_message_statuses, client_message_id) {
            let ghost s0 = self.outgoing_message_statuses@;
            proof {
                lemma_first_true(key_hits(s0, client_message_id@));
            }
            let key = self.outgoing_message_statuses[k].0.clone();
            self.outgoing_message_statuses.set(k, (key, OutgoingChatMessageStatus::Error));
            proof {
                lemma_keyed_update(s0, k as int, (key, OutgoingChatMessageStatus::Error));
            }
        }
        if let Some(text) = find_message_text(&self.watched_channel_messages, client_message_id) {
            self.remove_sent_message_history(text.as_str());
        }
        let ghost e0 = self.runtime_errors@;
        self.runtime_errors.push(error);
        proof {
            assert(strings_view(self.runtime_errors@) =~= strings_view(e0).push(error@));
        }
    }

    /// Adds the live message `m` to the buffer of the channel `cid`, keeping its last
    /// `buffer_size` messages.
    fn push_buffered(&mut self, cid: &str, m: NormalizedChatMessage)
        requires
            old(self).wf(),
        ensures
            final(self).wf(),
            final(self)@ == (WatchedChatView {
                histories: set_history(
                    old(self)@.histories,
                    cid@,
                    keep_last(buffer_of(old(self)@.histories, cid@).push(m@), old(self)@.buffer_size),
                ),
                ..old(self)@
            }),
    {
        let ghost v0 = histories_view(self.watched_channel_messages@);
        let ghost want = keep_last(buffer_of(v0, cid@).push(m@), self.buffer_size);
        proof {
            lemma_first_true(history_hits(v0, cid@));
            lemma_set_history(v0, cid@, want);
        }
        let found = find_history(&self.watched_channel_messages, cid);
        let mut h = match found {
            Some(i) => {
                let (_, h) = self.watched_channel_messages.remove(i);
                h
            },
            None => Vec::new(),
        };
        let ghost hv = views(h@);
        proof {
            assert(hv =~= buffer_of(v0, cid@));
        }
        h.push(m);
        if h.len() > self.buffer_size {
            let excess = h.len() - self.buffer_size;
            h = h.split_off(excess);
        }
        proof {
            let t = hv.push(m@);
            if t.len() > self.buffer_size {
                assert(views(h@) =~= t.skip(t.len() - self.buffer_size));
            } else {
                assert(views(h@) =~= t);
            }
        }
        match found {
            Some(i) => {
                self.watched_channel_messages.insert(i, (owned(cid), h));
                proof {
                    assert(histories_view(self.watched_channel_messages@) =~= v0.update(i as int, (cid@, want)));
                }
            },
            None => {
                set_channel_history(&mut self.watched_channel_messages, cid, h);
            },
        }
    }

    /// Takes a live message that the watched channel `channel_id` buffered
    /// ([`with_buffered_message`]).
    pub fn apply_buffered_watched_message(&mut self, channel_id: &str, message: NormalizedChatMessage)
        requires
            old(self).wf(),
        ensures
            final(self).wf(),
            final(self)@ == with_buffered_message(old(self)@, channel_id@, message@),
    {
        let lookup_channel_id = message.channel_id.clone();
        let message = enrich_message_with_seven_tv(message, lookup_channel_id.as_str(), &self.seven_tv_catalog);
        if self.reconcile_outgoing_echo(channel_id, &message) {
            return;
        }
        if self.is_home_account_channel_id(channel_id) {
            let ghost m0 = views(self.messages@);
            self.messages.push(message.clone());
            proof {
                assert(views(self.messages@) =~= m0.push(message@));
            }
        }
        self.push_buffered(channel_id, message);
    }

    /// Replaces the 7TV catalog that live messages are enriched with.
    pub fn set_seven_tv_catalog(&mut self, catalog: SevenTvCatalog)
        requires
            old(self).wf(),
        ensures
            final(self).wf(),
            final(self)@ == (WatchedChatView { catalog: catalog@, ..old(self)@ }),
    {
        self.seven_tv_catalog = catalog;
    }

    /// The home feed.
    pub fn messages(&self) -> (r: &Vec<NormalizedChatMessage>)
        ensures
            views(r@) == self@.messages,
    {
        &self.messages
    }

    /// The buffered messages of the watched channel `channel_id`, if it has a buffer.
    pub fn channel_messages(&self, channel_id: &str) -> (r: Option<&Vec<NormalizedChatMessage>>)
        ensures
            match r {
                Some(h) => history_of(self@.histories, channel_id@) == Some(views(h@)),
                None => history_of(self@.histories, channel_id@) is None,
            },
    {
        proof {
            lemma_first_true(history_hits(self@.histories, channel_id@));
        }
        match find_history(&self.watched_channel_messages, channel_id) {
            Some(i) => Some(&self.watched_channel_messages[i].1),
            None => None,
        }
    }

    /// Looks the 7TV emotes of the platform `platform`'s channel `channel_id` up again in the
    /// home feed and the buffers ([`with_rehydrated`]).
    #[verifier::loop_isolation(false)]
    pub fn rehydrate_channel_seven_tv_emotes(&mut self, platform: Platform, channel_id: &str)
        requires
            old(self).wf(),
        ensures
            final(self).wf(),
            final(self)@ == with_rehydrated(old(self)@, platform, channel_id@),
    {
        let ghost v0 = self@;
        let ghost want = with_rehydrated(v0, platform, channel_id@);
        let mut i: usize = 0;
        while i < self.messages.len()
            invariant
                i <= self.messages@.len(),
                self.wf(),
                self.outgoing_message_statuses@ == old(self).outgoing_message_statuses@,
                self.watched_channel_statuses@ == old(self).watched_channel_statuses@,
                self.watched_seven_tv_channel_ids@ == old(self).watched_seven_tv_channel_ids@,
                self.home_channel_statuses@ == old(self).home_channel_statuses@,
                self.watched_reply_targets@ == old(self).watched_reply_targets@,
                self@ == (WatchedChatView { messages: self@.messages, ..v0 }),
                self@.messages.len() == v0.messages.len(),
                forall|j: int| 0 <= j < i ==> #[trigger] self@.messages[j] == want.messages[j],
                forall|j: int| i <= j < v0.messages.len() ==> #[trigger] self@.messages[j] == v0.messages[j],
            decreases self.messages@.len() - i,
        {
            let m = &self.messages[i];
            if m.message_type != ChatMessageType::System && m.platform == platform && message_matches_seven_tv_channel(
                &self.watched_channels,
                m.platform,
                m.channel_id.as_str(),
                channel_id,
            ) {
                let r = rehydrate_message(m, channel_id, &self.seven_tv_catalog);
                let ghost before = self.messages@;
                proof {
                    assert(self@.messages.len() == self.messages@.len());
                    assert(self@.messages[i as int] == self.messages@[i as int]@);
                    assert(v0.messages[i as int] == m@);
                    assert(want.messages[i as int] == rehydrated(m@, channel_id@, v0.catalog));
                }
                self.messages.set(i, r);
                proof {
                    assert(views(self.messages@) =~= views(before).update(i as int, r@));
                }
            } else {
                proof {
                    assert(self@.messages[i as int] == self.messages@[i as int]@);
                    assert(want.messages[i as int] == v0.messages[i as int]);
                }
            }
            i = i + 1;
        }
        proof {
            assert(self@.messages =~= want.messages);
        }
        let mut k: usize = 0;
        while k < self.watched_channel_messages.len()
            invariant
                k <= self.watched_channel_messages@.len(),
                self.outgoing_message_statuses@ == old(self).outgoing_message_statuses@,
                self.watched_channel_statuses@ == old(self).watched_channel_statuses@,
                self.watched_seven_tv_channel_ids@ == old(self).watched_seven_tv_channel_ids@,
                self.home_channel_statuses@ == old(self).home_channel_statuses@,
                self.watched_reply_targets@ == old(self).watched_reply_targets@,
                self@ == (WatchedChatView { histories: self@.histories, messages: want.messages, ..v0 }),
                self@.histories.len() == v0.histories.len(),
                forall|j: int| 0 <= j < k ==> #[trigger] self@.histories[j] == want.histories[j],
                forall|j: int| k <= j < v0.histories.len() ==> #[trigger] self@.histories[j] == v0.histories[j],
            decreases self.watched_channel_messages@.len() - k,
        {
            let ghost hs0 = self.watched_channel_messages@;
            let (key, mut h) = self.watched_channel_messages.remove(k);
            let ghost h0 = views(h@);
            proof {
                assert(histories_view(hs0)[k as int] == (key@, h0));
            }
            let mut i: usize = 0;
            while i < h.len()
                invariant
                    i <= h@.len(),
                    h@.len() == h0.len(),
                    forall|j: int| 0 <= j < i ==> #[trigger] views(h@)[j] == buffer_rehydrated(h0, platform, channel_id@, v0.catalog)[j],
                    forall|j: int| i <= j < h0.len() ==> #[trigger] views(h@)[j] == h0[j],
                    self.seven_tv_catalog@ == v0.catalog,
                decreases h@.len() - i,
            {
                let m = &h[i];
                if m.message_type != ChatMessageType::System && m.platform == platform && str_eq(m.channel_id.as_str(), channel_id) {
                    let r = rehydrate_message(m, channel_id, &self.seven_tv_catalog);
                    let ghost before = h@;
                    proof {
                        assert(views(h@)[i as int] == h@[i as int]@);
                        assert(h0[i as int] == m@);
                        assert(buffer_rehydrated(h0, platform, channel_id@, v0.catalog)[i as int] == rehydrated(m@, channel_id@, v0.catalog));
                    }
                    h.set(i, r);
                    proof {
                        assert(views(h@) =~= views(before).update(i as int, r@));
                    }
                }
                i = i + 1;
            }
            proof {
                assert(views(h@) =~= buffer_rehydrated(h0, platform, channel_id@, v0.catalog));
            }
            self.watched_channel_messages.insert(k, (key, h));
            proof {
                assert(histories_view(self.watched_channel_messages@) =~= histories_view(hs0).update(
                    k as int,
                    (key@, buffer_rehydrated(h0, platform, channel_id@, v0.catalog)),
                ));
            }
            k = k + 1;
        }
        proof {
            assert(self@.histories =~= want.histories);
            assert forall|a: int, b: int| 0 <= a < b < self@.histories.len() implies chars_less(
                (#[trigger] self@.histories[a]).0,
                (#[trigger] self@.histories[b]).0,
            ) by {
                assert(chars_less(v0.histories[a].0, v0.histories[b].0));
            }
        }
    }

    /// The channel a 7TV notice of the platform `platform`'s channel `cid` shows in
    /// ([`display_channel_for_seven_tv`]).
    fn display_channel_id_for_seven_tv(&self, platform: Platform, cid: &str) -> (r: String)
        ensures
            r@ == display_channel_for_seven_tv(self@.watched_channels, platform, cid@),
    {
        let ghost ws = self.watched_channels@;
        let ghost p = Seq::new(ws.len(), |i: int| ws[i].platform == platform && ws[i].channel_slug@ == cid@);
        let mut i: usize = 0;
        while i < self.watched_channels.len()
            invariant
                i <= ws.len(),
                ws == self.watched_channels@,
                p == Seq::new(ws.len(), |i: int| ws[i].platform == platform && ws[i].channel_slug@ == cid@),
                forall|j: int| 0 <= j < i ==> !#[trigger] p[j],
            decreases ws.len() - i,
        {
            let c = &self.watched_channels[i];
            if c.platform == platform && str_eq(c.channel_slug.as_str(), cid) {
                proof {
                    lemma_first_true_at(p, i as int);
                }
                return c.id.clone();
            }
            i = i + 1;
        }
        proof {
            lemma_first_true_none(p);
        }
        owned(cid)
    }

    /// Adds a system message telling of a change to the 7TV emotes of the platform
    /// `platform`'s channel `cid` at `now_ms` ([`seven_tv_notice`], [`with_system_message`]).
    pub fn push_seven_tv_system_message(&mut self, platform: Platform, cid: &str, text: String, preview_emotes: Vec<Emote>, now_ms: u64)
        requires
            old(self).wf(),
        ensures
            final(self).wf(),
            final(self)@ == with_system_message(
                old(self)@,
                seven_tv_notice(old(self)@.watched_channels, platform, cid@, text@, emotes_view(preview_emotes@), now_ms),
            ),
    {
        let timestamp = crate::text::u64_to_string(now_ms);
        let mut id = owned("seventv-system-");
        match platform {
            Platform::Twitch => push_str(&mut id, "Twitch"),
            Platform::Youtube => push_str(&mut id, "Youtube"),
            Platform::Kick => push_str(&mut id, "Kick"),
        }
        push_str(&mut id, "-");
        push_str(&mut id, cid);
        push_str(&mut id, "-");
        push_str(&mut id, timestamp.as_str());
        let channel_id = self.display_channel_id_for_seven_tv(platform, cid);
        let message = NormalizedChatMessage {
            id,
            platform,
            channel_id,
            author: ChatAuthor {
                id: owned("seventv"),
                username: Some(owned("7tv")),
                display_name: owned("7TV"),
                color: Some(owned("#4ade80")),
                avatar_url: None,
                badges: Vec::new(),
            },
            text,
            emotes: preview_emotes,
            timestamp,
            message_type: ChatMessageType::System,
            reply: None,
        };
        proof {
            assert(crate::protocol::types::badges_view(message.author.badges@) =~= Seq::empty());
            assert(message@ == seven_tv_notice(self@.watched_channels, platform, cid@, text@, emotes_view(preview_emotes@), now_ms));
        }
        if find_channel(&self.watched_channels, message.channel_id.as_str()).is_some() {
            let key = message.channel_id.clone();
            self.append_channel_message(key.as_str(), message);
        } else {
            let ghost m0 = views(self.messages@);
            self.messages.push(message);
            proof {
                assert(views(self.messages@) =~= m0.push(message@));
            }
        }
    }

    /// Sets the status of a platform ([`set_platform_status`]).
    #[verifier::loop_isolation(false)]
    pub fn set_platform_status(&mut self, info: PlatformStatusInfo)
        requires
            old(self).wf(),
        ensures
            final(self).wf(),
            final(self)@ == (WatchedChatView { platform_statuses: set_platform_status(old(self)@.platform_statuses, info), ..old(self)@ }),
    {
        let ghost s0 = self.platform_statuses@;
        let ghost same = Seq::new(s0.len(), |i: int| s0[i].platform == info.platform);
        let ghost after = Seq::new(s0.len(), |i: int| platform_rank(info.platform) < platform_rank(s0[i].platform));
        if let Some(i) = find_platform(&self.platform_statuses, info.platform) {
            proof {
                lemma_first_true(same);
                assert forall|a: int, b: int| 0 <= a < b < s0.len() implies platform_rank(
                    (#[trigger] s0.update(i as int, info)[a]).platform,
                ) < platform_rank((#[trigger] s0.update(i as int, info)[b]).platform) by {
                    assert(platform_rank(s0[a].platform) < platform_rank(s0[b].platform));
                }
            }
            self.platform_statuses.set(i, info);
            return;
        }
        proof {
            lemma_first_true(same);
        }
        let mut pos: usize = 0;
        while pos < self.platform_statuses.len() && !(platform_rank_of(info.platform) < platform_rank_of(self.platform_statuses[pos].platform))
            invariant
                pos <= s0.len(),
                s0 == self.platform_statuses@,
                after == Seq::new(s0.len(), |i: int| platform_rank(info.platform) < platform_rank(s0[i].platform)),
                forall|j: int| 0 <= j < pos ==> !#[trigger] after[j],
            decreases s0.len() - pos,
        {
            pos = pos + 1;
        }
        proof {
            if pos < s0.len() {
                lemma_first_true_at(after, pos as int);
            } else {
                lemma_first_true_none(after);
            }
            let t = s0.insert(pos as int, info);
            assert forall|j: int| 0 <= j < pos implies platform_rank(#[trigger] s0[j].platform) < platform_rank(info.platform) by {
                assert(!after[j]);
                assert(!same[j]);
                assert(s0[j].platform != info.platform);
            }
            assert forall|j: int| pos <= j < s0.len() implies platform_rank(info.platform) < platform_rank(#[trigger] s0[j].platform) by {
                if j > pos {
                    assert(platform_rank(s0[pos as int].platform) < platform_rank(s0[j].platform));
                }
            }
            assert forall|a: int| 0 <= a < t.len() implies #[trigger] t[a] == (if a < pos {
                s0[a]
            } else if a == pos {
                info
            } else {
                s0[a - 1]
            }) by {}
            assert forall|a: int, b: int| 0 <= a < b < t.len() implies platform_rank((#[trigger] t[a]).platform) < platform_rank(
                (#[trigger] t[b]).platform,
            ) by {
                if a < pos && b < pos {
                    assert(platform_rank(s0[a].platform) < platform_rank(s0[b].platform));
                } else if a < pos && b > pos {
                    assert(platform_rank(s0[a].platform) < platform_rank(info.platform));
                    assert(platform_rank(info.platform) < platform_rank(s0[b - 1].platform));
                } else if a > pos {
                    assert(platform_rank(s0[a - 1].platform) < platform_rank(s0[b - 1].platform));
                }
            }
        }
        self.platform_statuses.insert(pos, info);
        proof {
            assert(self.platform_statuses@ == s0.insert(pos as int, info));
            assert(first_true(same) is None);
            assert(set_platform_status(s0, info) == s0.insert(pos as int, info));
            assert(platforms_sorted(self.platform_statuses@));
            assert(self@.platform_statuses == self.platform_statuses@);
        }
    }

    /// The status of a platform, if any.
    pub fn platform_status(&self, platform: Platform) -> (r: Option<&PlatformStatusInfo>)
        ensures
            match first_true(Seq::new(self@.platform_statuses.len(), |i: int| self@.platform_statuses[i].platform == platform)) {
                Some(i) => r == Some(&self@.platform_statuses[i]),
                None => r is None,
            },
    {
        let ghost s0 = self.platform_statuses@;
        let ghost same = Seq::new(s0.len(), |i: int| s0[i].platform == platform);
        let mut i: usize = 0;
        while i < self.platform_statuses.len()
            invariant
                i <= s0.len(),
                s0 == self.platform_statuses@,
                same == Seq::new(s0.len(), |i: int| s0[i].platform == platform),
                forall|j: int| 0 <= j < i ==> !#[trigger] same[j],
            decreases s0.len() - i,
        {
            if self.platform_statuses[i].platform == platform {
                proof {
                    lemma_first_true_at(same, i as int);
                }
                return Some(&self.platform_statuses[i]);
            }
            i = i + 1;
        }
        proof {
            lemma_first_true_none(same);
        }
        None
    }

    /// The events kept, oldest first.
    pub fn events(&self) -> (r: &Vec<NormalizedEvent>)
        ensures
            r@ == self@.events,
    {
        &self.events
    }

    /// How many events came while the events were not on screen.
    pub fn unread_events(&self) -> (r: usize)
        ensures
            r == self@.unread_events,
    {
        self.unread_events
    }

    /// Takes a report of the watched channels' service ([`after_watched_event`]).
    pub fn apply_watched_channels_event(&mut self, event: WatchedChannelsEvent)
        requires
            old(self).wf(),
        ensures
            final(self).wf(),
            final(self)@ == after_watched_event(old(self)@, event),
    {
        match event {
            WatchedChannelsEvent::MessageBuffered { channel_id, message } => {
                self.apply_buffered_watched_message(channel_id.as_str(), message);
            },
            WatchedChannelsEvent::StatusChanged { channel_id, status } => {
                keyed_insert(&mut self.watched_channel_statuses, channel_id, status);
            },
            WatchedChannelsEvent::AdapterError { message, .. } => {
                let ghost e0 = self.runtime_errors@;
                self.runtime_errors.push(message);
                proof {
                    assert(strings_view(self.runtime_errors@) =~= strings_view(e0).push(message@));
                }
            },
            WatchedChannelsEvent::BackendMessagePlanned { message, watched_channel_id } => {
                let ghost ids0 = self@.seven_tv_channels;
                match (&watched_channel_id, &message) {
                    (Some(w), DesktopToBackendMessage::SeventvSubscribe { channel_id, .. }) => {
                        let ghost k0 = self.watched_seven_tv_channel_ids@;
                        keyed_insert(&mut self.watched_seven_tv_channel_ids, w.clone(), channel_id.clone());
                        proof {
                            assert(self@.seven_tv_channels =~= ids0.insert(w@, channel_id@));
                        }
                    },
                    _ => {},
                }
                let ghost b0 = self.pending_backend_messages@;
                self.pending_backend_messages.push(message);
                proof {
                    assert(Seq::new(self.pending_backend_messages@.len(), |j: int| outgoing_view(self.pending_backend_messages@[j]))
                        =~= Seq::new(b0.len(), |j: int| outgoing_view(b0[j])).push(outgoing_view(message)));
                }
            },
            WatchedChannelsEvent::MessageSendSucceeded { client_message_id } => {
                self.mark_outgoing_message_sent(client_message_id.as_str());
            },
            WatchedChannelsEvent::MessageSendFailed { client_message_id, error } => {
                self.mark_outgoing_message_error(client_message_id.as_str(), error);
            },
            WatchedChannelsEvent::RemoveRequested { channel_id } => {
                let ghost ids0 = self@.seven_tv_channels;
                keyed_remove_key(&mut self.watched_seven_tv_channel_ids, channel_id.as_str());
                proof {
                    assert(self@.seven_tv_channels =~= ids0.remove(channel_id@));
                }
            },
            _ => {},
        }
    }

    /// The status of the watched channel `channel_id`, if any.
    pub fn watched_channel_status(&self, channel_id: &str) -> (r: Option<&PlatformStatusInfo>)
        requires
            self.wf(),
        ensures
            match r {
                Some(st) => self@.channel_statuses.contains_key(channel_id@) && *st == self@.channel_statuses[channel_id@],
                None => !self@.channel_statuses.contains_key(channel_id@),
            },
    {
        match find_key(&self.watched_channel_statuses, channel_id) {
            Some(k) => Some(&self.watched_channel_statuses[k].1),
            None => None,
        }
    }

    /// The 7TV channel that the watched channel `channel_id` subscribed to, if any.
    pub fn watched_seven_tv_channel_id(&self, channel_id: &str) -> (r: Option<&String>)
        requires
            self.wf(),
        ensures
            match r {
                Some(c) => self@.seven_tv_channels.contains_key(channel_id@) && c@ == self@.seven_tv_channels[channel_id@],
                None => !self@.seven_tv_channels.contains_key(channel_id@),
            },
    {
        match find_key(&self.watched_seven_tv_channel_ids, channel_id) {
            Some(k) => Some(&self.watched_seven_tv_channel_ids[k].1),
            None => None,
        }
    }

    /// Whether a watched channel other than the user's own buffers a message with the id `id`
    /// ([`foreign_buffer_hits`]).
    fn in_foreign_buffer(&self, id: &str) -> (r: bool)
        ensures
            r == (first_true(foreign_buffer_hits(self@, id@)) is Some),
    {
        let ghost p = foreign_buffer_hits(self@, id@);
        let mut i: usize = 0;
        while i < self.watched_channels.len()
            invariant
                i <= self.watched_channels@.len(),
                p == foreign_buffer_hits(self@, id@),
                forall|j: int| 0 <= j < i ==> !#[trigger] p[j],
            decreases self.watched_channels@.len() - i,
        {
            let c = &self.watched_channels[i];
            if !self.is_home_account_channel(c) {
                proof {
                    lemma_first_true(history_hits(self@.histories, c.id@));
                }
                if let Some(k) = find_history(&self.watched_channel_messages, c.id.as_str()) {
                    let found = find_message_id(&self.watched_channel_messages[k].1, id);
                    proof {
                        assert(buffer_of(self@.histories, c.id@) == views(self.watched_channel_messages@[k as int].1@));
                    }
                    if found.is_some() {
                        proof {
                            assert(p[i as int]);
                            lemma_first_true_at(p, i as int);
                        }
                        return true;
                    }
                } else {
                    proof {
                        lemma_first_true_none(id_hits(buffer_of(self@.histories, c.id@), id@));
                    }
                }
            }
            i = i + 1;
        }
        proof {
            lemma_first_true_none(p);
        }
        false
    }

    /// Loads what storage holds ([`after_snapshot`]): the recent messages, the watched
    /// channels, the signed-in accounts and each watched channel's stored history (the first
    /// entry for its id in `stored`); a part that could not be read is `None`.
    #[verifier::loop_isolation(false)]
    #[verifier::rlimit(60)]
    #[verifier::spinoff_prover]
    pub fn load_storage_snapshot(
        &mut self,
        recent: Option<Vec<NormalizedChatMessage>>,
        channels: Option<Vec<WatchedChannel>>,
        accounts: Option<Vec<AccountRecord>>,
        stored: &Vec<(String, Vec<NormalizedChatMessage>)>,
    )
        requires
            old(self).wf(),
        ensures
            final(self).wf(),
            final(self)@ == after_snapshot(
                old(self)@,
                match recent {
                    Some(r) => Some(views(r@)),
                    None => None,
                },
                match channels {
                    Some(c) => Some(c@),
                    None => None,
                },
                match accounts {
                    Some(a) => Some(a@),
                    None => None,
                },
                histories_view(stored@),
            ),
    {
        let ghost v0 = self@;
        let ghost sv = histories_view(stored@);
        if let Some(r) = recent {
            self.messages = hydrate(r);
        }
        if let Some(c) = channels {
            self.watched_channels = c;
        }
        let ghost v1 = self@;
        if let Some(a) = accounts {
            let mut i: usize = 0;
            while i < a.len()
                invariant
                    i <= a@.len(),
                    self.wf(),
                    self@ == (WatchedChatView { platform_statuses: statuses_from_accounts(v1.platform_statuses, a@.take(i as int)), ..v1 }),
                decreases a@.len() - i,
            {
                proof {
                    assert(a@.take(i + 1).drop_last() =~= a@.take(i as int));
                    assert(a@.take(i + 1).last() == a@[i as int]);
                }
                let info = PlatformStatusInfo {
                    platform: a[i].platform,
                    status: PlatformStatus::Connected,
                    error: None,
                    mode: PlatformStatusMode::Authenticated,
                    channel_login: Some(a[i].username.clone()),
                };
                self.set_platform_status(info);
                i = i + 1;
            }
            proof {
                assert(a@.take(i as int) =~= a@);
            }
            self.accounts = a;
        }
        let ghost v2 = self@;
        let n = self.watched_channels.len();
        let mut i: usize = 0;
        proof {
            assert(v2.watched_channels.take(0) =~= Seq::<WatchedChannel>::empty());
        }
        while i < n
            invariant
                i <= n,
                n == v2.watched_channels.len(),
                self.wf(),
                self@ == with_stored_histories(v2, v2.watched_channels.take(i as int), sv),
                self@.watched_channels == v2.watched_channels,
                self@.accounts == v2.accounts,
            decreases n - i,
        {
            proof {
                assert(v2.watched_channels.take(i + 1).drop_last() =~= v2.watched_channels.take(i as int));
                assert(v2.watched_channels.take(i + 1).last() == v2.watched_channels[i as int]);
                lemma_first_true(history_hits(sv, v2.watched_channels[i as int].id@));
            }
            let c = copy_channel(&self.watched_channels[i]);
            if let Some(j) = find_history(stored, c.id.as_str()) {
                if stored[j].1.len() > 0 {
                    let h = hydrate(copy_messages(&stored[j].1));
                    if self.is_home_account_channel(&c) {
                        let ghost m0 = views(self.messages@);
                        let mut hc = copy_messages(&h);
                        self.messages.append(&mut hc);
                        proof {
                            assert(views(self.messages@) =~= m0 + views(h@));
                        }
                    }
                    let ghost h0 = self@.histories;
                    set_channel_history(&mut self.watched_channel_messages, c.id.as_str(), h);
                }
            }
            i = i + 1;
        }
        proof {
            assert(v2.watched_channels.take(n as int) =~= v2.watched_channels);
        }
        let ghost v3 = self@;
        let mut kept: Vec<NormalizedChatMessage> = Vec::new();
        let mut k: usize = 0;
        proof {
            assert(views(self.messages@).take(0) =~= Seq::<MessageView>::empty());
        }
        while k < self.messages.len()
            invariant
                k <= self.messages@.len(),
                self@ == v3,
                views(kept@) == without_foreign(v3, views(self.messages@).take(k as int)),
            decreases self.messages@.len() - k,
        {
            proof {
                let ms = views(self.messages@);
                assert(ms.take(k + 1).drop_last() =~= ms.take(k as int));
                assert(ms.take(k + 1).last() == self.messages@[k as int]@);
            }
            if !self.in_foreign_buffer(self.messages[k].id.as_str()) {
                let ghost before = kept@;
                kept.push(self.messages[k].clone());
                proof {
                    assert(views(kept@) =~= views(before).push(self.messages@[k as int]@));
                }
            }
            k = k + 1;
        }
        proof {
            assert(views(self.messages@).take(k as int) =~= views(self.messages@));
        }
        let once = keep_first_of_each_id(&kept);
        let lent = hydrate(once);
        self.messages = sort_by_timestamp(&lent);
    }

    /// How many platforms are connected ([`connected_count`]).
    pub fn connected_platform_count(&self) -> (r: usize)
        ensures
            r == connected_count(self@.platform_statuses),
    {
        let ghost st = self.platform_statuses@;
        let mut n: usize = 0;
        let mut i: usize = 0;
        while i < self.platform_statuses.len()
            invariant
                i <= st.len(),
                st == self.platform_statuses@,
                n == connected_count(st.take(i as int)),
                n <= i,
            decreases st.len() - i,
        {
            proof {
                assert(st.take(i + 1).drop_last() =~= st.take(i as int));
                assert(st.take(i + 1).last() == st[i as int]);
            }
            if self.platform_statuses[i].status == PlatformStatus::Connected {
                n = n + 1;
            }
            i = i + 1;
        }
        proof {
            assert(st.take(i as int) =~= st);
        }
        n
    }

    /// Keeps the live statuses the backend reported for the home channels, each under its
    /// key ([`with_home_statuses`]).
    pub fn apply_home_channel_statuses(&mut self, statuses: Vec<ChannelStatus>)
        requires
            old(self).wf(),
        ensures
            final(self).wf(),
            final(self)@ == (WatchedChatView { home_statuses: with_home_statuses(old(self)@.home_statuses, statuses@), ..old(self)@ }),
    {
        let ghost all = statuses@;
        let ghost v0 = self@;
        let total = statuses.len();
        let mut rest = statuses;
        let mut i: usize = 0;
        proof {
            assert(all.skip(0) =~= all);
        }
        while rest.len() > 0
            invariant
                i <= all.len(),
                all.len() == total,
                rest@ == all.skip(i as int),
                self.wf(),
                self@ == (WatchedChatView { home_statuses: with_home_statuses(v0.home_statuses, all.take(i as int)), ..v0 }),
            decreases rest@.len(),
        {
            proof {
                assert(all.take(i + 1).drop_last() =~= all.take(i as int));
                assert(all.take(i + 1).last() == all[i as int]);
                assert(rest@[0] == all[i as int]);
            }
            let st = rest.remove(0);
            let key = home_channel_status_key(st.platform, st.channel_login.as_str());
            keyed_insert(&mut self.home_channel_statuses, key, st);
            proof {
                assert(rest@ =~= all.skip(i + 1));
            }
            i = i + 1;
        }
        proof {
            assert(all.take(i as int) =~= all);
        }
    }

    /// The live status kept for a home channel; none for a platform whose live status the
    /// backend does not report.
    pub fn home_channel_status(&self, platform: Platform, channel_login: &str) -> (r: Option<&ChannelStatus>)
        requires
            self.wf(),
        ensures
            match live_platform(platform) {
                Some(p) => match r {
                    Some(st) => self@.home_statuses.contains_key(status_key(p, channel_login@)) && *st
                        == self@.home_statuses[status_key(p, channel_login@)],
                    None => !self@.home_statuses.contains_key(status_key(p, channel_login@)),
                },
                None => r is None,
            },
    {
        match live_status_platform(platform) {
            Some(p) => {
                let key = home_channel_status_key(p, channel_login);
                match find_key(&self.home_channel_statuses, key.as_str()) {
                    Some(k) => Some(&self.home_channel_statuses[k].1),
                    None => None,
                }
            },
            None => None,
        }
    }

    /// Answers `message` with the next send to the watched channel `channel_id`.
    pub fn set_watched_reply_target(&mut self, channel_id: String, message: NormalizedChatMessage)
        requires
            old(self).wf(),
        ensures
            final(self).wf(),
            final(self)@ == (WatchedChatView {
                watched_reply_targets: old(self)@.watched_reply_targets.insert(channel_id@, message@),
                ..old(self)@
            }),
    {
        let ghost r0 = self@.watched_reply_targets;
        let ghost m = message@;
        keyed_insert(&mut self.watched_reply_targets, channel_id, message);
        proof {
            assert(self@.watched_reply_targets =~= r0.insert(channel_id@, m));
        }
    }

    /// Drops the message the next send to the watched channel `channel_id` would answer.
    pub fn cancel_watched_reply_target(&mut self, channel_id: &str)
        requires
            old(self).wf(),
        ensures
            final(self).wf(),
            final(self)@ == (WatchedChatView {
                watched_reply_targets: old(self)@.watched_reply_targets.remove(channel_id@),
                ..old(self)@
            }),
    {
        let ghost r0 = self@.watched_reply_targets;
        keyed_remove_key(&mut self.watched_reply_targets, channel_id);
        proof {
            assert(self@.watched_reply_targets =~= r0.remove(channel_id@));
        }
    }

    /// The message the next send to the watched channel `channel_id` answers, if any.
    pub fn watched_reply_target(&self, channel_id: &str) -> (r: Option<&NormalizedChatMessage>)
        requires
            self.wf(),
        ensures
            match r {
                Some(m) => self@.watched_reply_targets.contains_key(channel_id@) && m@ == self@.watched_reply_targets[channel_id@],
                None => !self@.watched_reply_targets.contains_key(channel_id@),
            },
    {
        match find_key(&self.watched_reply_targets, channel_id) {
            Some(k) => Some(&self.watched_reply_targets[k].1),
            None => None,
        }
    }

    /// Sends `text`, trimmed, to the watched channel `channel_id` at `now_ms`, answering its
    /// reply target if it has one (which is used up): shown at once
    /// ([`with_optimistic_message`]), queued for the channel and remembered in the sent
    /// history. Nothing happens, and `false` comes back, for blank text or a channel that is not
    /// watched.
    pub fn queue_watched_channel_send(&mut self, channel_id: &str, text: &str, now_ms: u64) -> (r: bool)
        requires
            old(self).wf(),
        ensures
            final(self).wf(),
            r == (trim(text@).len() > 0 && first_true(channel_hits(old(self)@.watched_channels, channel_id@)) is Some),
            !r ==> final(self)@ == old(self)@,
            r ==> {
                let reply = if old(self)@.watched_reply_targets.contains_key(channel_id@) {
                    Some(old(self)@.watched_reply_targets[channel_id@])
                } else {
                    None
                };
                let v1 = with_optimistic_message(
                    WatchedChatView { watched_reply_targets: old(self)@.watched_reply_targets.remove(channel_id@), ..old(self)@ },
                    channel_id@,
                    trim(text@),
                    reply,
                    now_ms,
                );
                final(self)@ == (WatchedChatView {
                    pending_watched: old(self)@.pending_watched.push(
                        (
                            channel_id@,
                            trim(text@),
                            match reply {
                                Some(m) => Some(m.0),
                                None => None,
                            },
                            Some(client_message_id(now_ms, next_sequence_after(old(self)@.next_sequence))),
                        ),
                    ),
                    sent_history: recorded_history(old(self)@.sent_history, trim(text@)),
                    ..v1
                })
            },
    {
        let t = crate::text::trimmed(text);
        if chars_of(t.as_str()).len() == 0 {
            return false;
        }
        proof {
            lemma_first_true(channel_hits(self@.watched_channels, channel_id@));
        }
        if find_channel(&self.watched_channels, channel_id).is_none() {
            return false;
        }
        let ghost v0 = self@;
        let ghost s0 = self.watched_reply_targets@;
        proof {
            lemma_first_true(key_hits(s0, channel_id@));
        }
        let reply: Option<NormalizedChatMessage> = match find_key(&self.watched_reply_targets, channel_id) {
            Some(k) => {
                proof {
                    lemma_keyed_remove(s0, k as int);
                }
                let (_, m) = self.watched_reply_targets.remove(k);
                proof {
                    assert(self@.watched_reply_targets =~= v0.watched_reply_targets.remove(channel_id@));
                }
                Some(m)
            },
            None => {
                proof {
                    assert(v0.watched_reply_targets.remove(channel_id@) =~= v0.watched_reply_targets);
                }
                None
            },
        };
        let reply_id = match &reply {
            Some(m) => Some(m.id.clone()),
            None => None,
        };
        let reply_ref: Option<&NormalizedChatMessage> = match &reply {
            Some(m) => Some(m),
            None => None,
        };
        let client_id = self.insert_optimistic_watched_message(channel_id, t.as_str(), reply_ref, now_ms);
        let ghost p0 = self.pending_watched_channel_messages@;
        self.pending_watched_channel_messages.push(
            PendingWatchedChannelMessage {
                channel_id: owned(channel_id),
                text: t.clone(),
                reply_to_message_id: reply_id,
                client_message_id: Some(client_id),
            },
        );
        proof {
            assert(pending_messages_view(self.pending_watched_channel_messages@) =~= pending_messages_view(p0).push(
                (
                    channel_id@,
                    t@,
                    match opt_message_view(reply_ref) {
                        Some(m) => Some(m.0),
                        None => None,
                    },
                    Some(client_message_id(now_ms, next_sequence_after(v0.next_sequence))),
                ),
            ));
        }
        self.record_sent_message_history(t.as_str());
        true
    }

    /// Hands out the messages waiting to be sent to watched channels, leaving none.
    pub fn take_pending_watched_channel_messages(&mut self) -> (r: Vec<PendingWatchedChannelMessage>)
        requires
            old(self).wf(),
        ensures
            final(self).wf(),
            pending_messages_view(r@) == old(self)@.pending_watched,
            final(self)@ == (WatchedChatView { pending_watched: Seq::empty(), ..old(self)@ }),
    {
        let mut r: Vec<PendingWatchedChannelMessage> = Vec::new();
        std::mem::swap(&mut r, &mut self.pending_watched_channel_messages);
        proof {
            assert(pending_messages_view(self.pending_watched_channel_messages@) =~= Seq::empty());
        }
        r
    }

    /// Hands out the messages waiting for the backend, leaving none.
    pub fn take_pending_backend_messages(&mut self) -> (r: Vec<DesktopToBackendMessage>)
        requires
            old(self).wf(),
        ensures
            final(self).wf(),
            Seq::new(r@.len(), |i: int| outgoing_view(r@[i])) == old(self)@.pending_backend,
            final(self)@ == (WatchedChatView { pending_backend: Seq::empty(), ..old(self)@ }),
    {
        let mut r: Vec<DesktopToBackendMessage> = Vec::new();
        std::mem::swap(&mut r, &mut self.pending_backend_messages);
        proof {
            assert(Seq::new(self.pending_backend_messages@.len(), |i: int| outgoing_view(self.pending_backend_messages@[i])) =~= Seq::empty());
        }
        r
    }

    /// Takes the failure to hand a message to a watched channel: a message sent from the app
    /// is marked failed ([`WatchedChatState::mark_outgoing_message_error`]); otherwise the error
    /// is recorded.
    pub fn mark_watched_send_dispatch_failed(&mut self, client_message_id: Option<&str>, error: String)
        requires
            old(self).wf(),
        ensures
            final(self).wf(),
            final(self)@ == match client_message_id {
                Some(id) => WatchedChatView {
                    statuses: if old(self)@.statuses.contains_key(id@) {
                        old(self)@.statuses.insert(id@, OutgoingChatMessageStatus::Error)
                    } else {
                        old(self)@.statuses
                    },
                    sent_history: match message_text_in(old(self)@.histories, id@) {
                        Some(t) => without_last(old(self)@.sent_history, t),
                        None => old(self)@.sent_history,
                    },
                    runtime_errors: old(self)@.runtime_errors.push(error@),
                    ..old(self)@
                },
                None => WatchedChatView { runtime_errors: old(self)@.runtime_errors.push(error@), ..old(self)@ },
            },
    {
        match client_message_id {
            Some(id) => self.mark_outgoing_message_error(id, error),
            None => {
                let ghost e0 = self.runtime_errors@;
                self.runtime_errors.push(error);
                proof {
                    assert(strings_view(self.runtime_errors@) =~= strings_view(e0).push(error@));
                }
            },
        }
    }

    /// The section of the main window on screen.
    pub fn active_section(&self) -> (r: MainSection)
        ensures
            r == self@.active_section,
    {
        self.active_section
    }

    /// Shows a section of the main window; showing the events marks them read.
    pub fn select_section(&mut self, section: MainSection)
        requires
            old(self).wf(),
        ensures
            final(self).wf(),
            final(self)@ == (WatchedChatView {
                active_section: section,
                unread_events: if section == MainSection::Events {
                    0
                } else {
                    old(self)@.unread_events
                },
                ..old(self)@
            }),
    {
        self.active_section = section;
        if section == MainSection::Events {
            self.unread_events = 0;
        }
    }

    /// Takes a message of the backend at `now_ms` ([`after_backend_message`]).
    pub fn apply_backend_message(&mut self, message: BackendToDesktopMessage, now_ms: u64)
        requires
            old(self).wf(),
        ensures
            final(self).wf(),
            final(self)@ == after_backend_message(old(self)@, message, now_ms),
    {
        match message {
            BackendToDesktopMessage::ChatMessage { data } => {
                let channel_id = data.channel_id.clone();
                let m = enrich_message_with_seven_tv(data, channel_id.as_str(), &self.seven_tv_catalog);
                backfill_badge_images(&mut self.messages, &m);
                let ghost m0 = views(self.messages@);
                self.messages.push(m);
                proof {
                    assert(m0 =~= Seq::new(old(self)@.messages.len(), |i: int| backfilled_message(old(self)@.messages[i], m@)));
                    assert(views(self.messages@) =~= m0.push(m@));
                }
            },
            BackendToDesktopMessage::SeventvEmoteSet { platform, channel_id, emotes } => {
                let mut mapped: Vec<crate::chat::aggregate::SevenTvEmote> = Vec::new();
                let mut i: usize = 0;
                while i < emotes.len()
                    invariant
                        i <= emotes@.len(),
                        mapped@.len() == i,
                        forall|j: int| 0 <= j < i ==> #[trigger] mapped@[j]@ == backend_emote_view(emotes@[j]),
                    decreases emotes@.len() - i,
                {
                    mapped.push(map_backend_seven_tv_emote(copy_backend_emote(&emotes[i])));
                    i = i + 1;
                }
                proof {
                    assert(Seq::new(mapped@.len(), |i: int| mapped@[i]@) =~= Seq::new(
                        emotes@.len(),
                        |i: int| backend_emote_view(emotes@[i]),
                    ));
                }
                self.seven_tv_catalog.replace_for_channel(platform, channel_id.as_str(), mapped);
                self.rehydrate_channel_seven_tv_emotes(platform, channel_id.as_str());
            },
            BackendToDesktopMessage::SeventvEmoteAdded { platform, channel_id, emote } => {
                let key = channel_id.clone();
                self.seven_tv_catalog.insert(platform, key, map_backend_seven_tv_emote(emote));
                self.rehydrate_channel_seven_tv_emotes(platform, channel_id.as_str());
            },
            BackendToDesktopMessage::SeventvEmoteRemoved { platform, channel_id, emote_id } => {
                self.seven_tv_catalog.remove_by_id(platform, channel_id.as_str(), emote_id.as_str());
                self.rehydrate_channel_seven_tv_emotes(platform, channel_id.as_str());
            },
            BackendToDesktopMessage::SeventvEmoteUpdated { platform, channel_id, emote_id, alias } => {
                self.seven_tv_catalog.update_alias(platform, channel_id.as_str(), emote_id.as_str(), alias.as_str());
                self.rehydrate_channel_seven_tv_emotes(platform, channel_id.as_str());
            },
            BackendToDesktopMessage::SeventvSystemMessage { platform, channel_id, message } => {
                let (text, preview_emotes) = seven_tv_system_message_data(&message);
                self.push_seven_tv_system_message(platform, channel_id.as_str(), text, preview_emotes, now_ms);
            },
            BackendToDesktopMessage::ChatEvent { data } => {
                self.events.push(data);
                if self.active_section != MainSection::Events {
                    self.unread_events = self.unread_events.saturating_add(1);
                }
            },
            BackendToDesktopMessage::PlatformStatus { platform, status, error } => {
                let status = match status {
                    BackendPlatformStatus::Connected => PlatformStatus::Connected,
                    BackendPlatformStatus::Disconnected => PlatformStatus::Disconnected,
                    BackendPlatformStatus::Error => PlatformStatus::Error,
                };
                self.set_platform_status(
                    PlatformStatusInfo { platform, status, error, mode: PlatformStatusMode::Anonymous, channel_login: None },
                );
            },
            _ => {},
        }
    }

    /// The targets of the home composer ([`home_targets`]).
    pub fn home_channel_targets(&self) -> (r: Vec<HomeChannelTarget>)
        ensures
            targets_view(r@) == home_targets(self@.platform_statuses, self@.watched_channels),
    {
        let ghost st = self.platform_statuses@;
        let ghost ws = self.watched_channels@;
        let mut targets: Vec<HomeChannelTarget> = Vec::new();
        let mut i: usize = 0;
        proof {
            assert(targets_view(targets@) =~= home_targets(st.take(0), ws));
        }
        while i < self.platform_statuses.len()
            invariant
                i <= st.len(),
                st == self.platform_statuses@,
                ws == self.watched_channels@,
                targets_view(targets@) == home_targets(st.take(i as int), ws),
            decreases st.len() - i,
        {
            proof {
                assert(st.take(i + 1).drop_last() =~= st.take(i as int));
                assert(st.take(i + 1).last() == st[i as int]);
            }
            let status = &self.platform_statuses[i];
            if let Some(login) = &status.channel_login {
                if status.status == PlatformStatus::Connected || status.status == PlatformStatus::Connecting {
                    let id = home_channel_target_id(status.platform, login.as_str());
                    if !has_target(&targets, id.as_str()) {
                        let watched = find_watched_channel_for(&self.watched_channels, status.platform, login.as_str());
                        let ghost before = targets@;
                        targets.push(
                            HomeChannelTarget { id, platform: status.platform, channel_login: login.clone(), watched_channel_id: watched },
                        );
                        proof {
                            assert(targets_view(targets@) =~= targets_view(before).push(targets@.last()@));
                        }
                    }
                }
            }
            i = i + 1;
        }
        proof {
            assert(st.take(i as int) =~= st);
        }
        targets
    }

    /// Switches the composer off for the channel `channel_id`, or back on ([`toggled`]).
    pub fn toggle_composer_channel(&mut self, channel_id: &str)
        requires
            old(self).wf(),
        ensures
            final(self).wf(),
            final(self)@ == (WatchedChatView { composer_disabled: toggled(old(self)@.composer_disabled, channel_id@), ..old(self)@ }),
    {
        let ghost s0 = strings_view(self.composer_disabled_channel_ids@);
        let ghost p = equal_hits(s0, channel_id@);
        let mut i: usize = 0;
        while i < self.composer_disabled_channel_ids.len() && !str_eq(self.composer_disabled_channel_ids[i].as_str(), channel_id)
            invariant
                i <= s0.len(),
                s0 == strings_view(self.composer_disabled_channel_ids@),
                p == equal_hits(s0, channel_id@),
                forall|j: int| 0 <= j < i ==> !#[trigger] p[j],
            decreases s0.len() - i,
        {
            i = i + 1;
        }
        if i < self.composer_disabled_channel_ids.len() {
            proof {
                lemma_first_true_at(p, i as int);
            }
            self.composer_disabled_channel_ids.remove(i);
            proof {
                assert(strings_view(self.composer_disabled_channel_ids@) =~= s0.remove(i as int));
            }
        } else {
            proof {
                lemma_first_true_none(p);
            }
            self.composer_disabled_channel_ids.push(owned(channel_id));
            proof {
                assert(strings_view(self.composer_disabled_channel_ids@) =~= s0.push(channel_id@));
            }
        }
    }

    /// Answers `message` with the next composer send.
    pub fn set_home_reply_target(&mut self, message: NormalizedChatMessage)
        requires
            old(self).wf(),
        ensures
            final(self).wf(),
            final(self)@ == (WatchedChatView { reply_target: Some(message@), ..old(self)@ }),
    {
        self.home_reply_target = Some(message);
    }

    /// Drops the message the next composer send would answer.
    pub fn cancel_home_reply_target(&mut self)
        requires
            old(self).wf(),
        ensures
            final(self).wf(),
            final(self)@ == (WatchedChatView { reply_target: None, ..old(self)@ }),
    {
        self.home_reply_target = None;
    }

    /// Whether an answer to `message` can be sent: some target of its platform is a watched
    /// channel.
    pub fn home_reply_can_send(&self, message: &NormalizedChatMessage) -> (r: bool)
        ensures
            r == exists|i: int|
                0 <= i < home_targets(self@.platform_statuses, self@.watched_channels).len() && (#[trigger] home_targets(
                    self@.platform_statuses,
                    self@.watched_channels,
                )[i]).3 is Some && home_targets(self@.platform_statuses, self@.watched_channels)[i].1 == message.platform,
    {
        let targets = self.home_channel_targets();
        let ghost tv = targets_view(targets@);
        let mut i: usize = 0;
        while i < targets.len()
            invariant
                i <= targets@.len(),
                tv == targets_view(targets@),
                tv == home_targets(self@.platform_statuses, self@.watched_channels),
                forall|j: int| 0 <= j < i ==> !((#[trigger] tv[j]).3 is Some && tv[j].1 == message.platform),
            decreases targets@.len() - i,
        {
            if targets[i].watched_channel_id.is_some() && targets[i].platform == message.platform {
                proof {
                    assert(tv[i as int].3 is Some && tv[i as int].1 == message.platform);
                }
                return true;
            }
            i = i + 1;
        }
        false
    }

    /// The messages waiting to be sent to watched channels, oldest first.
    pub fn pending_watched_channel_messages(&self) -> (r: &Vec<PendingWatchedChannelMessage>)
        ensures
            pending_messages_view(r@) == self@.pending_watched,
    {
        &self.pending_watched_channel_messages
    }

    /// The messages waiting to be sent to the backend, oldest first.
    pub fn pending_backend_messages(&self) -> (r: &Vec<DesktopToBackendMessage>)
        ensures
            Seq::new(r@.len(), |i: int| outgoing_view(r@[i])) == self@.pending_backend,
    {
        &self.pending_backend_messages
    }

    /// The composer sends awaiting results from the backend: text, sends left, sends done.
    pub fn pending_backend_sent_history(&self) -> (r: &Vec<PendingBackendSentHistory>)
        ensures
            pending_view(r@) == self@.pending_sent,
    {
        &self.pending_backend_sent_history
    }

    /// Whether the composer is switched off for the channel `channel_id`.
    pub fn is_composer_disabled(&self, channel_id: &str) -> (r: bool)
        ensures
            r == self@.composer_disabled.contains(channel_id@),
    {
        let ghost s0 = strings_view(self.composer_disabled_channel_ids@);
        let mut i: usize = 0;
        while i < self.composer_disabled_channel_ids.len()
            invariant
                i <= s0.len(),
                s0 == strings_view(self.composer_disabled_channel_ids@),
                s0 == self@.composer_disabled,
                forall|j: int| 0 <= j < i ==> #[trigger] s0[j] != channel_id@,
            decreases s0.len() - i,
        {
            if str_eq(self.composer_disabled_channel_ids[i].as_str(), channel_id) {
                proof {
                    assert(s0[i as int] == channel_id@);
                }
                return true;
            }
            i = i + 1;
        }
        false
    }

    /// Sends the composer's `text` at `now_ms`: trimmed, nothing when empty; a `/user`
    /// command ([`user_command_query`]) asks for the user card of its query, if any; any other
    /// text goes to each target of the home composer ([`home_targets`], [`after_queue`]).
    #[verifier::loop_isolation(false)]
    #[verifier::rlimit(40)]
    #[verifier::spinoff_prover]
    pub fn queue_composer_send(&mut self, text: &str, now_ms: u64) -> (r: ComposerSend)
        requires
            old(self).wf(),
        ensures
            final(self).wf(),
            trim(text@).len() == 0 ==> r == ComposerSend::NotSent && final(self)@ == old(self)@,
            trim(text@).len() > 0 ==> match user_command_query(trim(text@)) {
                Some(q) => final(self)@ == old(self)@ && if q.len() == 0 {
                    r == ComposerSend::NotSent
                } else {
                    r matches ComposerSend::LookUpUser(x) && x@ == q
                },
                None => {
                    let ts = home_targets(old(self)@.platform_statuses, old(self)@.watched_channels);
                    &&& final(self)@ == after_queue(old(self)@, trim(text@), ts, now_ms)
                    &&& r == if any_target_enabled(old(self)@, ts) {
                        ComposerSend::Sent
                    } else {
                        ComposerSend::NotSent
                    }
                },
            },
    {
        let t = crate::text::trimmed(text);
        if chars_of(t.as_str()).len() == 0 {
            return ComposerSend::NotSent;
        }
        if let Some(q) = parse_user_command(t.as_str()) {
            if chars_of(q.as_str()).len() == 0 {
                return ComposerSend::NotSent;
            }
            return ComposerSend::LookUpUser(q);
        }
        let ghost v0 = self@;
        let targets = self.home_channel_targets();
        let ghost tv = targets_view(targets@);
        let reply: Option<NormalizedChatMessage> = match &self.home_reply_target {
            Some(m) => Some(m.clone()),
            None => None,
        };
        let mut queued = false;
        let mut count: usize = 0;
        let mut i: usize = 0;
        proof {
            assert(tv.take(0) =~= Seq::<TargetView>::empty());
        }
        while i < targets.len()
            invariant
                self.wf(),
                i <= targets@.len(),
                tv == targets_view(targets@),
                self@ == queue_to_targets(v0, t@, tv.take(i as int), now_ms),
                count == backend_target_count(v0, tv.take(i as int)),
                count <= i,
                queued == any_target_enabled(v0, tv.take(i as int)),
                opt_message_view(match &reply {
                    Some(m) => Some(m),
                    None => None,
                }) == v0.reply_target,
            decreases targets@.len() - i,
        {
            let ghost qi = self@;
            proof {
                lemma_queue_keeps_filters(v0, t@, tv.take(i as int), now_ms);
                assert(tv.take(i + 1).drop_last() =~= tv.take(i as int));
                assert(tv.take(i + 1).last() == tv[i as int]);
                assert(tv[i as int] == targets@[i as int]@);
            }
            let target = &targets[i];
            let enabled = !self.is_composer_disabled(target.id.as_str()) && match &reply {
                Some(r) => r.platform == target.platform,
                None => true,
            };
            proof {
                assert(enabled == target_enabled(qi, tv[i as int]));
                assert(enabled == target_enabled(v0, tv[i as int]));
            }
            if enabled {
                match &target.watched_channel_id {
                    Some(wid) => {
                        let reply_ref: Option<&NormalizedChatMessage> = match &reply {
                            Some(m) => Some(m),
                            None => None,
                        };
                        let reply_id = match &reply {
                            Some(m) => Some(m.id.clone()),
                            None => None,
                        };
                        let client_id = self.insert_optimistic_watched_message(wid.as_str(), t.as_str(), reply_ref, now_ms);
                        let ghost p0 = self.pending_watched_channel_messages@;
                        self.pending_watched_channel_messages.push(
                            PendingWatchedChannelMessage {
                                channel_id: wid.clone(),
                                text: t.clone(),
                                reply_to_message_id: reply_id,
                                client_message_id: Some(client_id),
                            },
                        );
                        proof {
                            assert(pending_messages_view(self.pending_watched_channel_messages@) =~= pending_messages_view(p0).push(
                                (
                                    wid@,
                                    t@,
                                    match qi.reply_target {
                                        Some(r) => Some(r.0),
                                        None => None,
                                    },
                                    Some(client_message_id(now_ms, next_sequence_after(qi.next_sequence))),
                                ),
                            ));
                        }
                    },
                    None => {
                        let ghost b0 = self.pending_backend_messages@;
                        self.pending_backend_messages.push(
                            DesktopToBackendMessage::SendMessage {
                                platform: target.platform,
                                channel: target.channel_login.clone(),
                                message: t.clone(),
                            },
                        );
                        proof {
                            assert(Seq::new(self.pending_backend_messages@.len(), |j: int| outgoing_view(self.pending_backend_messages@[j]))
                                =~= Seq::new(b0.len(), |j: int| outgoing_view(b0[j])).push(BackendOutgoingView::Send(target.platform, target.channel_login@, t@)));
                        }
                        count = count + 1;
                    },
                }
                queued = true;
                proof {
                    assert(tv.take(i + 1)[i as int] == tv[i as int]);
                }
            } else {
                proof {
                    if any_target_enabled(v0, tv.take(i + 1)) {
                        let j = choose|j: int| 0 <= j < tv.take(i + 1).len() && target_enabled(v0, #[trigger] tv.take(i + 1)[j]);
                        assert(j != i);
                        assert(tv.take(i as int)[j] == tv.take(i + 1)[j]);
                    }
                    if any_target_enabled(v0, tv.take(i as int)) {
                        let j = choose|j: int| 0 <= j < tv.take(i as int).len() && target_enabled(v0, #[trigger] tv.take(i as int)[j]);
                        assert(tv.take(i as int)[j] == tv.take(i + 1)[j]);
                    }
                }
            }
            proof {
                if queued && !any_target_enabled(v0, tv.take(i as int)) {
                    assert(target_enabled(v0, tv.take(i + 1)[i as int]));
                }
                if any_target_enabled(v0, tv.take(i as int)) {
                    let j = choose|j: int| 0 <= j < tv.take(i as int).len() && target_enabled(v0, #[trigger] tv.take(i as int)[j]);
                    assert(tv.take(i as int)[j] == tv.take(i + 1)[j]);
                }
            }
            i = i + 1;
        }
        proof {
            assert(tv.take(i as int) =~= tv);
            lemma_queue_keeps_filters(v0, t@, tv, now_ms);
        }
        if queued {
            self.record_sent_message_history(t.as_str());
            if count > 0 {
                let ghost p0 = self.pending_backend_sent_history@;
                self.pending_backend_sent_history.push(PendingBackendSentHistory { text: t.clone(), remaining: count, sent: 0 });
                proof {
                    assert(pending_view(self.pending_backend_sent_history@) =~= pending_view(p0).push((t@, count, 0usize)));
                }
            }
            self.home_reply_target = None;
        }
        if queued {
            ComposerSend::Sent
        } else {
            ComposerSend::NotSent
        }
    }
}

/// Setting a buffer twice keeps the second.
proof fn lemma_set_history_twice(hs: Seq<(Seq<char>, Seq<MessageView>)>, k: Seq<char>, x: Seq<MessageView>, y: Seq<MessageView>)
    requires
        histories_sorted(hs),
    ensures
        set_history(set_history(hs, k, x), k, y) == set_history(hs, k, y),
{
    let t = set_history(hs, k, x);
    lemma_set_history(hs, k, x);
    lemma_first_true(history_hits(hs, k));
    match first_true(history_hits(hs, k)) {
        Some(i) => {
            lemma_history_at(t, i);
            assert(t[i].0 == k);
            assert(t.update(i, (k, y)) =~= hs.update(i, (k, y)));
        },
        None => {
            let pos = sorted_position(hs, k);
            let less = Seq::new(hs.len(), |i: int| chars_less(k, hs[i].0));
            lemma_first_true(less);
            assert(t[pos].0 == k);
            lemma_history_at(t, pos);
            assert(t.update(pos, (k, y)) =~= hs.insert(pos, (k, y)));
        },
    }
}

/// A message sent from the app to a watched channel and then answered by its echo leaves the
/// channel's buffer and the home feed as if only the echo had come, and the client id is
/// forgotten again: the echo has the sent text, the channel's platform and id, and, where the
/// app has an account in the channel, that account as author; no older message of the buffer
/// is an optimistic copy of it, and neither the client id nor the echo's id is in the buffer
/// or the home feed yet.
pub proof fn sent_message_is_replaced_by_its_echo(
    v: WatchedChatView,
    cid: Seq<char>,
    text: Seq<char>,
    reply: Option<MessageView>,
    now_ms: u64,
    echo: MessageView,
)
    requires
        histories_sorted(v.histories),
        channel_of(v.watched_channels, cid) is Some,
        !v.statuses.contains_key(client_message_id(now_ms, next_sequence_after(v.next_sequence))),
        echo.1 == channel_of(v.watched_channels, cid)->0.platform,
        echo.2 == cid,
        echo.4 == text,
        match channel_self_account(v, cid) {
            Some(a) => eq_ignore_ascii_case(echo.3.0, a.platform_user_id@),
            None => true,
        },
        forall|j: int|
            0 <= j < buffer_of(v.histories, cid).len() ==> !is_echo_of(
                v.statuses,
                cid,
                echo,
                channel_self_account(v, cid),
                #[trigger] buffer_of(v.histories, cid)[j],
            ),
        !has_message_id(buffer_of(v.histories, cid), client_message_id(now_ms, next_sequence_after(v.next_sequence))),
        !has_message_id(buffer_of(v.histories, cid), echo.0),
        !has_message_id(v.messages, client_message_id(now_ms, next_sequence_after(v.next_sequence))),
        !has_message_id(v.messages, echo.0),
        echo.0 != client_message_id(now_ms, next_sequence_after(v.next_sequence)),
    ensures
        reconciled(with_optimistic_message(v, cid, text, reply, now_ms), cid, echo).histories == set_history(
            v.histories,
            cid,
            buffer_of(v.histories, cid).push(echo),
        ),
        reconciled(with_optimistic_message(v, cid, text, reply, now_ms), cid, echo).messages == if is_home_channel_id(
            v.watched_channels,
            v.accounts,
            cid,
        ) {
            v.messages.push(echo)
        } else {
            v.messages
        },
        reconciled(with_optimistic_message(v, cid, text, reply, now_ms), cid, echo).statuses == v.statuses,
{
    let m = optimistic_message(v, cid, text, reply, now_ms);
    let c = m.0;
    let v1 = with_optimistic_message(v, cid, text, reply, now_ms);
    let h = buffer_of(v.histories, cid);
    let hm = h.push(m);
    let acct = channel_self_account(v, cid);
    lemma_first_true(channel_hits(v.watched_channels, cid));
    lemma_set_history(v.histories, cid, hm);
    assert(buffer_of(v1.histories, cid) == hm);
    assert(channel_self_account(v1, cid) == acct);
    // The optimistic message is the first copy of the echo.
    assert(has_prefix(c, "local:"@)) by {
        let rest = decimal(now_ms as nat) + ":"@ + decimal(next_sequence_after(v.next_sequence) as nat);
        assert(c =~= "local:"@ + rest);
        assert(c.take("local:"@.len() as int) =~= "local:"@);
    }
    let hits = echo_hits(v1.statuses, cid, echo, acct, hm);
    lemma_first_true(id_hits(h, c));
    assert forall|j: int| 0 <= j < h.len() implies !#[trigger] hits[j] by {
        assert(!id_hits(h, c)[j]);
        assert(hm[j] == h[j]);
        assert(!is_echo_of(v.statuses, cid, echo, acct, h[j]));
    }
    assert(hm[h.len() as int] == m);
    assert(hits[h.len() as int]);
    lemma_first_true_at(hits, h.len() as int);
    assert(optimistic_echo_id(v1, cid, echo) == Some(c));
    // In the buffer, the echo takes the optimistic message's place.
    assert(id_hits(hm, c)[h.len() as int]);
    assert forall|j: int| 0 <= j < h.len() implies !#[trigger] id_hits(hm, c)[j] by {
        assert(!id_hits(h, c)[j]);
    }
    lemma_first_true_at(id_hits(hm, c), h.len() as int);
    lemma_first_true(id_hits(h, echo.0));
    assert forall|j: int| 0 <= j < hm.len() implies !#[trigger] id_hits(hm, echo.0)[j] by {
        if j < h.len() {
            assert(!id_hits(h, echo.0)[j]);
        }
    }
    lemma_first_true_none(id_hits(hm, echo.0));
    assert(echo_in(hm, c, echo) =~= h.push(echo));
    lemma_set_history_twice(v.histories, cid, hm, h.push(echo));
    // In the home feed too.
    if is_home_channel_id(v.watched_channels, v.accounts, cid) {
        let mm = v.messages.push(m);
        lemma_first_true(id_hits(v.messages, c));
        lemma_first_true(id_hits(v.messages, echo.0));
        assert forall|j: int| 0 <= j < v.messages.len() implies !#[trigger] id_hits(mm, c)[j] by {
            assert(!id_hits(v.messages, c)[j]);
        }
        lemma_first_true_at(id_hits(mm, c), v.messages.len() as int);
        assert forall|j: int| 0 <= j < mm.len() implies !#[trigger] id_hits(mm, echo.0)[j] by {
            if j < v.messages.len() {
                assert(!id_hits(v.messages, echo.0)[j]);
            }
        }
        lemma_first_true_none(id_hits(mm, echo.0));
        assert(home_echo(mm, c, echo) =~= v.messages.push(echo));
    }
    assert(v.statuses.insert(c, OutgoingChatMessageStatus::Pending).remove(c) =~= v.statuses);
}

/// Switching the composer off for a channel and back on again leaves the same channels
/// switched off, when the channel was listed at most once.
pub proof fn toggling_twice_restores_the_composer(s: Seq<Seq<char>>, id: Seq<char>)
    requires
        forall|i: int, j: int| 0 <= i < j < s.len() && s[i] == id ==> s[j] != id,
    ensures
        forall|x: Seq<char>| #[trigger] toggled(toggled(s, id), id).contains(x) == s.contains(x),
{
    let p = equal_hits(s, id);
    lemma_first_true(p);
    match first_true(p) {
        Some(k) => {
            let t = s.remove(k);
            let q = equal_hits(t, id);
            assert forall|j: int| 0 <= j < t.len() implies !#[trigger] q[j] by {
                if j < k {
                    assert(!p[j]);
                } else {
                    assert(t[j] == s[j + 1]);
                }
            }
            lemma_first_true_none(q);
            assert(toggled(s, id) == t);
            assert(toggled(t, id) == t.push(id));
            assert forall|x: Seq<char>| #[trigger] t.push(id).contains(x) == s.contains(x) by {
                if s.contains(x) {
                    let i = choose|i: int| 0 <= i < s.len() && s[i] == x;
                    if i < k {
                        assert(t.push(id)[i] == x);
                    } else if i == k {
                        assert(t.push(id)[t.len() as int] == x);
                    } else {
                        assert(t.push(id)[i - 1] == x);
                    }
                }
                if t.push(id).contains(x) {
                    let i = choose|i: int| 0 <= i < t.push(id).len() && t.push(id)[i] == x;
                    if i == t.len() {
                        assert(s[k] == x);
                    } else if i < k {
                        assert(s[i] == x);
                    } else {
                        assert(s[i + 1] == x);
                    }
                }
            }
        },
        None => {
            let t = s.push(id);
            let q = equal_hits(t, id);
            assert forall|j: int| 0 <= j < s.len() implies !#[trigger] q[j] by {
                assert(!p[j]);
            }
            lemma_first_true_at(q, s.len() as int);
            assert(t.remove(s.len() as int) =~= s);
            assert(toggled(s, id) == t);
            assert(toggled(t, id) == s);
        },
    }
}


/// `h` without the buffer of channel `id`.
pub open spec fn without_history(h: Seq<(Seq<char>, Seq<MessageView>)>, id: Seq<char>) -> Seq<(Seq<char>, Seq<MessageView>)> {
    match first_true(Seq::new(h.len(), |i: int| h[i].0 == id)) {
        Some(i) => h.remove(i),
        None => h,
    }
}

/// The chat state without the watched channel `id`: the channel, its buffer, its status, its
/// reply target, its composer toggle and its waiting messages are gone.
pub open spec fn without_channel(v: WatchedChatView, id: Seq<char>) -> WatchedChatView {
    WatchedChatView {
        watched_channels: v.watched_channels.filter(|c: WatchedChannel| c.id@ != id),
        histories: without_history(v.histories, id),
        channel_statuses: v.channel_statuses.remove(id),
        watched_reply_targets: v.watched_reply_targets.remove(id),
        composer_disabled: v.composer_disabled.filter(|c: Seq<char>| c != id),
        pending_watched: v.pending_watched.filter(|p: PendingMessageView| p.0 != id),
        ..v
    }
}

/// The watched channels other than `id`, in order.
fn retain_other_channels(v: &mut Vec<WatchedChannel>, id: &str)
    ensures
        final(v)@ == old(v)@.filter(|c: WatchedChannel| c.id@ != id@),
{
    let mut rest: Vec<WatchedChannel> = Vec::new();
    core::mem::swap(&mut rest, v);
    let ghost all = rest@;
    let n: usize = rest.len();
    let mut k: usize = 0;
    while rest.len() > 0
        invariant
            k + rest@.len() == all.len(),
            all.len() == n,
            rest@ == all.skip(k as int),
            v@ == all.take(k as int).filter(|c: WatchedChannel| c.id@ != id@),
        decreases rest@.len(),
    {
        let c = rest.remove(0);
        proof {
            reveal(Seq::filter);
            assert(all.take(k + 1).drop_last() =~= all.take(k as int));
            assert(all.take(k + 1).last() == c);
        }
        if !str_eq(c.id.as_str(), id) {
            v.push(c);
        }
        assert(rest@ =~= all.skip(k + 1));
        k = k + 1;
    }
    assert(all.take(k as int) =~= all);
}

/// The ids other than `id`, in order.
fn retain_other_ids(v: &mut Vec<String>, id: &str)
    ensures
        strings_view(final(v)@) == strings_view(old(v)@).filter(|c: Seq<char>| c != id@),
{
    let mut rest: Vec<String> = Vec::new();
    core::mem::swap(&mut rest, v);
    let ghost all = rest@;
    let n: usize = rest.len();
    let mut k: usize = 0;
    while rest.len() > 0
        invariant
            k + rest@.len() == all.len(),
            all.len() == n,
            rest@ == all.skip(k as int),
            strings_view(v@) == strings_view(all.take(k as int)).filter(|c: Seq<char>| c != id@),
        decreases rest@.len(),
    {
        let c = rest.remove(0);
        let ghost before = v@;
        proof {
            reveal(Seq::filter);
            assert(strings_view(all.take(k + 1)).drop_last() =~= strings_view(all.take(k as int)));
            assert(strings_view(all.take(k + 1)).last() == c@);
        }
        if !str_eq(c.as_str(), id) {
            v.push(c);
            assert(strings_view(v@) =~= strings_view(before).push(v@.last()@));
        }
        assert(rest@ =~= all.skip(k + 1));
        k = k + 1;
    }
    assert(all.take(k as int) =~= all);
}

/// The waiting messages not for `id`, in order.
fn retain_other_pending(v: &mut Vec<PendingWatchedChannelMessage>, id: &str)
    ensures
        pending_messages_view(final(v)@) == pending_messages_view(old(v)@).filter(|p: PendingMessageView| p.0 != id@),
{
    let mut rest: Vec<PendingWatchedChannelMessage> = Vec::new();
    core::mem::swap(&mut rest, v);
    let ghost all = rest@;
    let n: usize = rest.len();
    let mut k: usize = 0;
    while rest.len() > 0
        invariant
            k + rest@.len() == all.len(),
            all.len() == n,
            rest@ == all.skip(k as int),
            pending_messages_view(v@) == pending_messages_view(all.take(k as int)).filter(
                |p: PendingMessageView| p.0 != id@,
            ),
        decreases rest@.len(),
    {
        let c = rest.remove(0);
        let ghost before = v@;
        proof {
            reveal(Seq::filter);
            assert(pending_messages_view(all.take(k + 1)).drop_last() =~= pending_messages_view(all.take(k as int)));
            assert(pending_messages_view(all.take(k + 1)).last().0 == c.channel_id@);
        }
        if !str_eq(c.channel_id.as_str(), id) {
            v.push(c);
            assert(pending_messages_view(v@) =~= pending_messages_view(before).push(pending_messages_view(v@).last()));
        }
        assert(rest@ =~= all.skip(k + 1));
        k = k + 1;
    }
    assert(all.take(k as int) =~= all);
}

/// Where a watched channel with the id `id` is, if there is one.
fn position_of_channel(v: &Vec<WatchedChannel>, id: &str) -> (r: Option<usize>)
    ensures
        match r {
            Some(i) => i < v@.len() && v@[i as int].id@ == id@ && forall|j: int|
                0 <= j < i ==> (#[trigger] v@[j]).id@ != id@,
            None => forall|j: int| 0 <= j < v@.len() ==> (#[trigger] v@[j]).id@ != id@,
        },
{
    let mut i: usize = 0;
    while i < v.len()
        invariant
            i <= v@.len(),
            forall|j: int| 0 <= j < i ==> (#[trigger] v@[j]).id@ != id@,
        decreases v@.len() - i,
    {
        if str_eq(v[i].id.as_str(), id) {
            return Some(i);
        }
        i = i + 1;
    }
    None
}

impl WatchedChatState {
    /// Whether `id` is one of the watched channels.
    pub open spec fn watches(self, id: Seq<char>) -> bool {
        exists|i: int| 0 <= i < self@.watched_channels.len() && (#[trigger] self@.watched_channels[i]).id@ == id
    }

    /// Stops watching the channel `channel_id`: it leaves the watched channels with its
    /// buffer, status, reply target, composer toggle and waiting messages
    /// ([`without_channel`]). Returns whether it was watched; when not, nothing changes.
    pub fn remove_watched_channel(&mut self, channel_id: &str) -> (r: bool)
        requires
            old(self).wf(),
        ensures
            final(self).wf(),
            r == old(self).watches(channel_id@),
            !r ==> final(self)@ == old(self)@,
            r ==> final(self)@ == without_channel(old(self)@, channel_id@),
    {
        let ghost v0 = self@;
        match position_of_channel(&self.watched_channels, channel_id) {
            Some(i) => {
                assert(self@.watched_channels[i as int].id@ == channel_id@);
            },
            None => return false,
        }
        retain_other_channels(&mut self.watched_channels, channel_id);
        keyed_remove_key(&mut self.watched_channel_statuses, channel_id);
        keyed_remove_key(&mut self.watched_reply_targets, channel_id);
        let ghost h0 = self.watched_channel_messages@;
        proof {
            lemma_first_true(key_hits(h0, channel_id@));
            assert(key_hits(h0, channel_id@) =~= Seq::new(
                histories_view(h0).len(),
                |j: int| histories_view(h0)[j].0 == channel_id@,
            ));
        }
        match find_key(&self.watched_channel_messages, channel_id) {
            Some(k) => {
                self.watched_channel_messages.remove(k);
                assert(histories_view(self.watched_channel_messages@) =~= histories_view(h0).remove(k as int));
            },
            None => {},
        }
        retain_other_ids(&mut self.composer_disabled_channel_ids, channel_id);
        retain_other_pending(&mut self.pending_watched_channel_messages, channel_id);
        proof {
            assert(self@.watched_reply_targets =~= v0.watched_reply_targets.remove(channel_id@));
            assert(self@.histories == without_history(v0.histories, channel_id@));
            assert(self@ =~= without_channel(v0, channel_id@));
        }
        true
    }
}


/// The channels of the messages of `platform` among `ms`, newest first.
pub open spec fn history_channel_ids(ms: Seq<MessageView>, platform: Platform) -> Seq<Seq<char>>
    decreases ms.len(),
{
    if ms.len() == 0 {
        Seq::empty()
    } else {
        history_channel_ids(ms.drop_first(), platform) + if ms[0].1 == platform {
            seq![ms[0].2]
        } else {
            Seq::empty()
        }
    }
}

/// The channels of the home messages of channel `c` (by its id, or its slug ignoring ASCII
/// case) among `ms`, newest first.
pub open spec fn home_channel_ids(ms: Seq<MessageView>, c: WatchedChannel) -> Seq<Seq<char>>
    decreases ms.len(),
{
    if ms.len() == 0 {
        Seq::empty()
    } else {
        home_channel_ids(ms.drop_first(), c) + if ms[0].1 == c.platform && (ms[0].2 == c.id@ || eq_ignore_ascii_case(
            ms[0].2,
            c.channel_slug@,
        )) {
            seq![ms[0].2]
        } else {
            Seq::empty()
        }
    }
}

/// The channel ids whose emotes a watched channel `c` shows, without repeats (ignoring
/// case): its 7TV channel when it has one, its slug, its id, the channels of its buffered
/// messages of its platform and of its home-feed messages, newest first.
pub open spec fn emote_source_ids(v: WatchedChatView, c: WatchedChannel) -> Seq<Seq<char>> {
    let seven = if v.seven_tv_channels.contains_key(c.id@) {
        seq![v.seven_tv_channels[c.id@]]
    } else {
        Seq::empty()
    };
    deduped_ids(
        seven + seq![c.channel_slug@, c.id@] + history_channel_ids(buffer_of(v.histories, c.id@), c.platform)
            + home_channel_ids(v.messages, c),
    )
}

/// The first watched channel with the id `id`, if there is one.
pub open spec fn watched_channel_with_id(v: WatchedChatView, id: Seq<char>) -> Option<WatchedChannel> {
    match first_true(Seq::new(v.watched_channels.len(), |i: int| v.watched_channels[i].id@ == id)) {
        Some(i) => Some(v.watched_channels[i]),
        None => None,
    }
}

/// Appends the channels of `platform`'s messages among `ms`, newest first.
fn push_history_channel_ids(out: &mut Vec<String>, ms: &Vec<NormalizedChatMessage>, platform: Platform)
    ensures
        strings_view(final(out)@) == strings_view(old(out)@) + history_channel_ids(views(ms@), platform),
{
    let ghost base = strings_view(out@);
    let mut j: usize = ms.len();
    assert(views(ms@).skip(j as int) =~= Seq::<MessageView>::empty());
    while j > 0
        invariant
            j <= ms@.len(),
            strings_view(out@) == base + history_channel_ids(views(ms@).skip(j as int), platform),
        decreases j,
    {
        j = j - 1;
        let ghost before = out@;
        proof {
            assert(views(ms@).skip(j as int).drop_first() =~= views(ms@).skip(j + 1));
            assert(views(ms@).skip(j as int)[0] == ms@[j as int]@);
        }
        if ms[j].platform == platform {
            out.push(ms[j].channel_id.clone());
            assert(strings_view(out@) =~= strings_view(before).push(ms@[j as int].channel_id@));
        }
    }
    assert(views(ms@).skip(0) =~= views(ms@));
}

/// Appends the channels of the home messages of channel `c` among `ms`, newest first.
fn push_home_channel_ids(out: &mut Vec<String>, ms: &Vec<NormalizedChatMessage>, c: &WatchedChannel)
    ensures
        strings_view(final(out)@) == strings_view(old(out)@) + home_channel_ids(views(ms@), *c),
{
    let ghost base = strings_view(out@);
    let mut j: usize = ms.len();
    assert(views(ms@).skip(j as int) =~= Seq::<MessageView>::empty());
    while j > 0
        invariant
            j <= ms@.len(),
            strings_view(out@) == base + home_channel_ids(views(ms@).skip(j as int), *c),
        decreases j,
    {
        j = j - 1;
        let ghost before = out@;
        proof {
            assert(views(ms@).skip(j as int).drop_first() =~= views(ms@).skip(j + 1));
            assert(views(ms@).skip(j as int)[0] == ms@[j as int]@);
        }
        let m = &ms[j];
        if m.platform == c.platform && (str_eq(m.channel_id.as_str(), c.id.as_str()) || str_eq_ignore_ascii_case(
            m.channel_id.as_str(),
            c.channel_slug.as_str(),
        )) {
            out.push(m.channel_id.clone());
            assert(strings_view(out@) =~= strings_view(before).push(m.channel_id@));
        }
    }
    assert(views(ms@).skip(0) =~= views(ms@));
}

impl WatchedChatState {
    /// Where the emotes of the watched channel `channel_id` come from: its platform and the
    /// channel ids to look them up by ([`emote_source_ids`]); nothing when the channel is not
    /// watched.
    pub fn watched_emote_source_channel(&self, channel_id: &str) -> (r: Option<(Platform, Vec<String>)>)
        requires
            self.wf(),
        ensures
            match watched_channel_with_id(self@, channel_id@) {
                Some(c) => r matches Some(p) && p.0 == c.platform && strings_view(p.1@) == emote_source_ids(self@, c),
                None => r is None,
            },
    {
        let i = match position_of_channel(&self.watched_channels, channel_id) {
            Some(i) => i,
            None => {
                proof {
                    lemma_first_true_none(Seq::new(
                        self@.watched_channels.len(),
                        |i: int| self@.watched_channels[i].id@ == channel_id@,
                    ));
                }
                return None;
            },
        };
        let channel = &self.watched_channels[i];
        proof {
            let p = Seq::new(self@.watched_channels.len(), |k: int| self@.watched_channels[k].id@ == channel_id@);
            lemma_first_true_at(p, i as int);
            assert(watched_channel_with_id(self@, channel_id@) == Some(*channel));
        }
        let ghost c = *channel;
        let ghost seven = if self@.seven_tv_channels.contains_key(c.id@) {
            seq![self@.seven_tv_channels[c.id@]]
        } else {
            Seq::<Seq<char>>::empty()
        };
        let mut ids: Vec<String> = Vec::new();
        match self.watched_seven_tv_channel_id(channel_id) {
            Some(s) => ids.push(s.clone()),
            None => {},
        }
        ids.push(channel.channel_slug.clone());
        ids.push(channel.id.clone());
        let ghost prefix = strings_view(ids@);
        assert(prefix =~= seven + seq![c.channel_slug@, c.id@]);
        let ghost h = self.watched_channel_messages@;
        proof {
            lemma_first_true(key_hits(h, channel_id@));
            assert(key_hits(h, channel_id@) =~= history_hits(histories_view(h), channel_id@));
        }
        match find_key(&self.watched_channel_messages, channel_id) {
            Some(k) => {
                assert(buffer_of(self@.histories, channel_id@) == views(h[k as int].1@));
                push_history_channel_ids(&mut ids, &self.watched_channel_messages[k].1, channel.platform);
            },
            None => {
                assert(buffer_of(self@.histories, channel_id@) =~= Seq::<MessageView>::empty());
                assert(history_channel_ids(Seq::<MessageView>::empty(), c.platform) =~= Seq::<Seq<char>>::empty());
                assert(strings_view(ids@) =~= prefix + history_channel_ids(buffer_of(self@.histories, channel_id@), c.platform));
            },
        }
        push_home_channel_ids(&mut ids, &self.messages, channel);
        assert(strings_view(ids@) =~= seven + seq![c.channel_slug@, c.id@] + history_channel_ids(
            buffer_of(self@.histories, c.id@),
            c.platform,
        ) + home_channel_ids(self@.messages, c));
        dedupe_channel_ids(&mut ids);
        Some((channel.platform, ids))
    }
}


/// A live-status request as `(platform, channel login, channel id, whether it carries a
/// token)`.
pub type StatusRequestView = (LiveStatusPlatform, Seq<char>, Option<Seq<char>>, bool);

/// The views of a list of live-status requests.
pub open spec fn requests_view(r: Seq<ChannelStatusRequest>) -> Seq<StatusRequestView> {
    Seq::new(r.len(), |i: int| (r[i].platform, r[i].channel_login@, opt_seq(r[i].channel_id), r[i].user_access_token is Some))
}

/// The requests and seen keys after asking for the channel `login` of `platform`: nothing
/// is added for a blank login or a key already seen; else the trimmed login is requested
/// with `channel_id` and no token.
pub open spec fn request_step(
    acc: (Seq<StatusRequestView>, Seq<Seq<char>>),
    platform: LiveStatusPlatform,
    login: Seq<char>,
    channel_id: Option<Seq<char>>,
) -> (Seq<StatusRequestView>, Seq<Seq<char>>) {
    let t = trim(login);
    let key = status_key(platform, t);
    if t.len() == 0 || acc.1.contains(key) {
        acc
    } else {
        (acc.0.push((platform, t, channel_id, false)), acc.1.push(key))
    }
}

/// The requests for the signed-in accounts' own channels, in order, by user name and (when
/// known) user id.
pub open spec fn account_requests(accounts: Seq<AccountRecord>) -> (Seq<StatusRequestView>, Seq<Seq<char>>)
    decreases accounts.len(),
{
    if accounts.len() == 0 {
        (Seq::empty(), Seq::empty())
    } else {
        let prev = account_requests(accounts.drop_last());
        let a = accounts.last();
        match live_platform(a.platform) {
            Some(p) => request_step(
                prev,
                p,
                a.username@,
                if a.platform_user_id@.len() == 0 {
                    None
                } else {
                    Some(a.platform_user_id@)
                },
            ),
            None => prev,
        }
    }
}

/// Then the requests for the watched channels, in order, by slug.
pub open spec fn channel_requests(acc: (Seq<StatusRequestView>, Seq<Seq<char>>), channels: Seq<WatchedChannel>) -> (
    Seq<StatusRequestView>,
    Seq<Seq<char>>,
)
    decreases channels.len(),
{
    if channels.len() == 0 {
        acc
    } else {
        let prev = channel_requests(acc, channels.drop_last());
        let c = channels.last();
        match live_platform(c.platform) {
            Some(p) => request_step(prev, p, c.channel_slug@, None),
            None => prev,
        }
    }
}

/// The live-status requests of the home feed: the accounts' channels, then the watched
/// channels, each channel once.
pub open spec fn home_status_requests(v: WatchedChatView) -> Seq<StatusRequestView> {
    channel_requests(account_requests(v.accounts), v.watched_channels).0
}

impl WatchedChatState {
    /// The live-status requests for the home feed ([`home_status_requests`]).
    pub fn home_channel_status_requests(&self) -> (r: Vec<ChannelStatusRequest>)
        ensures
            requests_view(r@) == home_status_requests(self@),
    {
        let mut requests: Vec<ChannelStatusRequest> = Vec::new();
        let mut seen: Vec<String> = Vec::new();
        let mut i: usize = 0;
        while i < self.accounts.len()
            invariant
                i <= self.accounts@.len(),
                (requests_view(requests@), strings_view(seen@)) == account_requests(self.accounts@.take(i as int)),
            decreases self.accounts@.len() - i,
        {
            let a = &self.accounts[i];
            let ghost before = (requests_view(requests@), strings_view(seen@));
            let ghost old_requests = requests@;
            proof {
                assert(self.accounts@.take(i + 1).drop_last() =~= self.accounts@.take(i as int));
                assert(self.accounts@.take(i + 1).last() == *a);
            }
            match live_status_platform(a.platform) {
                Some(p) => {
                    let id = if a.platform_user_id.as_str().is_empty() {
                        None
                    } else {
                        Some(a.platform_user_id.clone())
                    };
                    push_home_channel_status_request(&mut requests, &mut seen, p, a.username.as_str(), id);
                    proof {
                        if requests@.len() > old_requests.len() {
                            assert(requests_view(requests@) =~= requests_view(old_requests).push(
                                requests_view(requests@).last(),
                            ));
                        }
                    }
                },
                None => {},
            }
            i = i + 1;
        }
        assert(self.accounts@.take(i as int) =~= self.accounts@);
        let ghost base = (requests_view(requests@), strings_view(seen@));
        let mut j: usize = 0;
        while j < self.watched_channels.len()
            invariant
                j <= self.watched_channels@.len(),
                base == account_requests(self@.accounts),
                (requests_view(requests@), strings_view(seen@)) == channel_requests(
                    base,
                    self.watched_channels@.take(j as int),
                ),
            decreases self.watched_channels@.len() - j,
        {
            let c = &self.watched_channels[j];
            let ghost old_requests = requests@;
            proof {
                assert(self.watched_channels@.take(j + 1).drop_last() =~= self.watched_channels@.take(j as int));
                assert(self.watched_channels@.take(j + 1).last() == *c);
            }
            match live_status_platform(c.platform) {
                Some(p) => {
                    push_home_channel_status_request(&mut requests, &mut seen, p, c.channel_slug.as_str(), None);
                    proof {
                        if requests@.len() > old_requests.len() {
                            assert(requests_view(requests@) =~= requests_view(old_requests).push(
                                requests_view(requests@).last(),
                            ));
                        }
                    }
                },
                None => {},
            }
            j = j + 1;
        }
        assert(self.watched_channels@.take(j as int) =~= self.watched_channels@);
        requests
    }
}


/// `s` with every string after its first occurrence left out.
pub open spec fn first_occurrences(s: Seq<Seq<char>>) -> Seq<Seq<char>>
    decreases s.len(),
{
    if s.len() == 0 {
        s
    } else {
        let p = first_occurrences(s.drop_last());
        if p.contains(s.last()) {
            p
        } else {
            p.push(s.last())
        }
    }
}

/// The display names of the watched channels with the ids `ids`, in order; an id that no
/// watched channel has gives none.
pub open spec fn watched_names(v: WatchedChatView, ids: Seq<Seq<char>>) -> Seq<Seq<char>>
    decreases ids.len(),
{
    if ids.len() == 0 {
        Seq::empty()
    } else {
        let p = watched_names(v, ids.drop_last());
        match watched_channel_with_id(v, ids.last()) {
            Some(c) => p.push(c.display_name@),
            None => p,
        }
    }
}

/// The title of the watched tab `tab_id` with the custom name `custom_name` and the layout
/// `layout`: the custom name where there is one; none where no watched channel is the tab's;
/// else the names ([`watched_names`]) of the channels its layout shows, each once, joined by
/// `" + "`, or the tab channel's own name where that leaves none.
pub open spec fn tab_title(
    v: WatchedChatView,
    tab_id: Seq<char>,
    custom_name: Option<Seq<char>>,
    layout: Option<LayoutView>,
) -> Option<Seq<char>> {
    match custom_name {
        Some(n) => Some(n),
        None => match watched_channel_with_id(v, tab_id) {
            None => None,
            Some(c) => {
                let ids = match layout {
                    Some(l) => watched_ids(l),
                    None => Seq::empty(),
                };
                let names = watched_names(v, first_occurrences(ids));
                if names.len() == 0 {
                    Some(c.display_name@)
                } else {
                    Some(join_seqs(names, " + "@))
                }
            },
        },
    }
}

/// The characters of the string, if any.
pub open spec fn string_opt_view(o: Option<String>) -> Option<Seq<char>> {
    match o {
        Some(t) => Some(t@),
        None => None,
    }
}

/// The characters of the string, if any.
pub open spec fn str_opt_view(o: Option<&str>) -> Option<Seq<char>> {
    match o {
        Some(t) => Some(t@),
        None => None,
    }
}

/// The view of the layout, if any.
pub open spec fn layout_ref_view(o: Option<&LayoutNode>) -> Option<LayoutView> {
    match o {
        Some(l) => Some(l@),
        None => None,
    }
}

/// Whether `v` holds the string `s`.
fn holds_string(v: &Vec<String>, s: &str) -> (r: bool)
    ensures
        r == strings_view(v@).contains(s@),
{
    let mut i: usize = 0;
    while i < v.len()
        invariant
            i <= v@.len(),
            forall|j: int| 0 <= j < i ==> v@[j]@ != s@,
        decreases v@.len() - i,
    {
        if str_eq(v[i].as_str(), s) {
            proof {
                assert(strings_view(v@)[i as int] == s@);
            }
            return true;
        }
        i = i + 1;
    }
    proof {
        if strings_view(v@).contains(s@) {
            let k = choose|k: int| 0 <= k < strings_view(v@).len() && strings_view(v@)[k] == s@;
            assert(v@[k]@ == s@);
        }
    }
    false
}

impl WatchedChatState {
    /// The watched channel with the id `id` ([`watched_channel_with_id`]), by its position.
    fn watched_channel_index(&self, id: &str) -> (r: Option<usize>)
        ensures
            match watched_channel_with_id(self@, id@) {
                Some(c) => r matches Some(i) && i < self.watched_channels@.len() && self.watched_channels@[i as int] == c,
                None => r is None,
            },
    {
        let ghost p = Seq::new(self@.watched_channels.len(), |k: int| self@.watched_channels[k].id@ == id@);
        match position_of_channel(&self.watched_channels, id) {
            Some(i) => {
                proof {
                    lemma_first_true_at(p, i as int);
                }
                Some(i)
            },
            None => {
                proof {
                    lemma_first_true_none(p);
                }
                None
            },
        }
    }

    /// The title of the watched tab `tab_id` ([`tab_title`]), given the tab's custom name and
    /// its layout, where it has them.
    pub fn watched_tab_title(&self, tab_id: &str, custom_name: Option<&str>, layout: Option<&LayoutNode>) -> (r: Option<String>)
        ensures
            string_opt_view(r) == tab_title(self@, tab_id@, str_opt_view(custom_name), layout_ref_view(layout)),
    {
        match custom_name {
            Some(n) => {
                return Some(owned(n));
            },
            None => {},
        }
        let i = match self.watched_channel_index(tab_id) {
            Some(i) => i,
            None => {
                return None;
            },
        };
        let mut ids: Vec<String> = Vec::new();
        match layout {
            Some(l) => collect_watched_channel_ids(l, &mut ids),
            None => {},
        }
        let ghost all = strings_view(ids@);
        assert(all == match layout_ref_view(layout) {
            Some(l) => watched_ids(l),
            None => Seq::<Seq<char>>::empty(),
        });
        let mut seen: Vec<String> = Vec::new();
        let mut k: usize = 0;
        while k < ids.len()
            invariant
                k <= ids@.len(),
                all == strings_view(ids@),
                strings_view(seen@) == first_occurrences(all.take(k as int)),
            decreases ids@.len() - k,
        {
            proof {
                assert(all.take(k + 1).drop_last() =~= all.take(k as int));
                assert(all.take(k + 1).last() == ids@[k as int]@);
            }
            if !holds_string(&seen, ids[k].as_str()) {
                seen.push(owned(ids[k].as_str()));
                proof {
                    assert(strings_view(seen@) =~= first_occurrences(all.take(k as int)).push(ids@[k as int]@));
                }
            }
            k = k + 1;
        }
        assert(all.take(k as int) =~= all);
        let ghost distinct = strings_view(seen@);
        let mut names: Vec<String> = Vec::new();
        let mut j: usize = 0;
        while j < seen.len()
            invariant
                j <= seen@.len(),
                distinct == strings_view(seen@),
                strings_view(names@) == watched_names(self@, distinct.take(j as int)),
            decreases seen@.len() - j,
        {
            proof {
                assert(distinct.take(j + 1).drop_last() =~= distinct.take(j as int));
                assert(distinct.take(j + 1).last() == seen@[j as int]@);
            }
            match self.watched_channel_index(seen[j].as_str()) {
                Some(c) => {
                    let ghost before = strings_view(names@);
                    names.push(owned(self.watched_channels[c].display_name.as_str()));
                    proof {
                        assert(strings_view(names@) =~= before.push(self.watched_channels@[c as int].display_name@));
                    }
                },
                None => {},
            }
            j = j + 1;
        }
        assert(distinct.take(j as int) =~= distinct);
        if names.len() == 0 {
            Some(owned(self.watched_channels[i].display_name.as_str()))
        } else {
            Some(join_strings(&names, " + "))
        }
    }
}


/// Whether the channel `id` is still referenced: it has a watched tab of its own, or one of
/// the tabs' layouts shows it.
pub open spec fn referenced(tab_ids: Seq<Seq<char>>, layouts: Seq<LayoutView>, id: Seq<char>) -> bool {
    tab_ids.contains(id) || exists|i: int| 0 <= i < layouts.len() && #[trigger] shows_channel(layouts[i], id)
}

/// The ids of the channels of `cs`, in order, that are neither the user's own
/// ([`is_home_channel`]) nor [`referenced`].
pub open spec fn unreferenced_ids(
    cs: Seq<WatchedChannel>,
    accs: Seq<AccountRecord>,
    tab_ids: Seq<Seq<char>>,
    layouts: Seq<LayoutView>,
) -> Seq<Seq<char>>
    decreases cs.len(),
{
    if cs.len() == 0 {
        Seq::empty()
    } else {
        let p = unreferenced_ids(cs.drop_last(), accs, tab_ids, layouts);
        let c = cs.last();
        if !is_home_channel(accs, c) && !referenced(tab_ids, layouts, c.id@) {
            p.push(c.id@)
        } else {
            p
        }
    }
}

/// The views of the layouts.
pub open spec fn layouts_view(v: Seq<LayoutNode>) -> Seq<LayoutView> {
    Seq::new(v.len(), |i: int| v[i]@)
}

impl WatchedChatState {
    /// The watched channels to forget: those that are not the user's own and that neither a
    /// tab of their own (`tab_ids`) nor one of the tabs' layouts (`layouts`) refers to any more
    /// ([`unreferenced_ids`]), by id, in order.
    pub fn unreferenced_watched_channel_ids(&self, tab_ids: &Vec<String>, layouts: &Vec<LayoutNode>) -> (r: Vec<String>)
        ensures
            strings_view(r@) == unreferenced_ids(
                self@.watched_channels,
                self@.accounts,
                strings_view(tab_ids@),
                layouts_view(layouts@),
            ),
    {
        let ghost (cs, accs, tv, lv) = (self@.watched_channels, self@.accounts, strings_view(tab_ids@), layouts_view(layouts@));
        let mut out: Vec<String> = Vec::new();
        let mut i: usize = 0;
        while i < self.watched_channels.len()
            invariant
                i <= cs.len(),
                cs == self.watched_channels@,
                accs == self@.accounts,
                lv == layouts_view(layouts@),
                tv == strings_view(tab_ids@),
                strings_view(out@) == unreferenced_ids(cs.take(i as int), accs, tv, lv),
            decreases cs.len() - i,
        {
            let c = &self.watched_channels[i];
            proof {
                assert(cs.take(i + 1).drop_last() =~= cs.take(i as int));
                assert(cs.take(i + 1).last() == *c);
            }
            let mut shown = holds_string(tab_ids, c.id.as_str());
            let mut j: usize = 0;
            while j < layouts.len() && !shown
                invariant
                    j <= layouts@.len(),
                    lv == layouts_view(layouts@),
                    shown ==> referenced(tv, lv, c.id@),
                    !shown ==> !tv.contains(c.id@) && forall|k: int| 0 <= k < j ==> !#[trigger] shows_channel(lv[k], c.id@),
                decreases layouts@.len() - j,
            {
                if layout_contains_watched_channel(&layouts[j], c.id.as_str()) {
                    assert(shows_channel(lv[j as int], c.id@));
                    shown = true;
                }
                j = j + 1;
            }
            if !shown && !self.is_home_account_channel(c) {
                out.push(owned(c.id.as_str()));
                proof {
                    assert(strings_view(out@) =~= unreferenced_ids(cs.take(i as int), accs, tv, lv).push(c.id@));
                }
            }
            i = i + 1;
        }
        assert(cs.take(i as int) =~= cs);
        out
    }
}


/// Whether the watched channel `c` is the home feed's channel on `platform` for the login
/// `login`: of that platform, with that slug ignoring ASCII case.
pub open spec fn home_login_channel(c: WatchedChannel, platform: Platform, login: Seq<char>) -> bool {
    c.platform == platform && eq_ignore_ascii_case(c.channel_slug@, login)
}

/// The watched channel whose emotes the home feed of `platform` shows for `login`: the last
/// [`home_login_channel`] that has a 7TV channel, else the last one.
pub open spec fn home_emote_channel(v: WatchedChatView, platform: Platform, login: Seq<char>) -> Option<WatchedChannel> {
    let cs = v.watched_channels;
    match last_true(Seq::new(cs.len(), |i: int| home_login_channel(cs[i], platform, login) && v.seven_tv_channels.contains_key(cs[i].id@))) {
        Some(i) => Some(cs[i]),
        None => match last_true(Seq::new(cs.len(), |i: int| home_login_channel(cs[i], platform, login))) {
            Some(i) => Some(cs[i]),
            None => None,
        },
    }
}

/// The channel ids whose emotes the home feed of `platform` shows for `login`, without repeats
/// (ignoring case): the login; the 7TV channel, if any, and the id of its
/// [`home_emote_channel`]; then the channels of the platform's home-feed messages, newest
/// first.
pub open spec fn home_emote_ids(v: WatchedChatView, platform: Platform, login: Seq<char>) -> Seq<Seq<char>> {
    let chosen = match home_emote_channel(v, platform, login) {
        Some(c) => (if v.seven_tv_channels.contains_key(c.id@) {
            seq![v.seven_tv_channels[c.id@]]
        } else {
            Seq::empty()
        }) + seq![c.id@],
        None => Seq::empty(),
    };
    deduped_ids(seq![login] + chosen + history_channel_ids(v.messages, platform))
}

/// Where the home feed's emotes come from, per platform status in order: for each status with
/// a channel login that is connected or connecting, its platform and [`home_emote_ids`].
pub open spec fn home_emote_sources(v: WatchedChatView, ss: Seq<PlatformStatusInfo>) -> Seq<(Platform, Seq<Seq<char>>)>
    decreases ss.len(),
{
    if ss.len() == 0 {
        Seq::empty()
    } else {
        let p = home_emote_sources(v, ss.drop_last());
        let st = ss.last();
        match st.channel_login {
            Some(login) => if st.status == PlatformStatus::Connected || st.status == PlatformStatus::Connecting {
                p.push((st.platform, home_emote_ids(v, st.platform, login@)))
            } else {
                p
            },
            None => p,
        }
    }
}

/// The platform and the channel ids of each source.
pub open spec fn sources_view(v: Seq<(Platform, Vec<String>)>) -> Seq<(Platform, Seq<Seq<char>>)> {
    Seq::new(v.len(), |i: int| (v[i].0, strings_view(v[i].1@)))
}

impl WatchedChatState {
    /// The [`home_emote_channel`] of `platform` for `login`, by its position.
    fn home_emote_channel_index(&self, platform: Platform, login: &str) -> (r: Option<usize>)
        requires
            self.wf(),
        ensures
            match home_emote_channel(self@, platform, login@) {
                Some(c) => r matches Some(i) && i < self.watched_channels@.len() && self.watched_channels@[i as int] == c,
                None => r is None,
            },
    {
        let ghost cs = self@.watched_channels;
        let ghost with_seven = Seq::new(cs.len(), |i: int| home_login_channel(cs[i], platform, login@) && self@.seven_tv_channels.contains_key(cs[i].id@));
        let ghost any = Seq::new(cs.len(), |i: int| home_login_channel(cs[i], platform, login@));
        let mut best_seven: Option<usize> = None;
        let mut best_any: Option<usize> = None;
        let mut i: usize = 0;
        while i < self.watched_channels.len()
            invariant
                self.wf(),
                i <= cs.len(),
                cs == self.watched_channels@,
                with_seven.len() == cs.len() && any.len() == cs.len(),
                forall|k: int| 0 <= k < cs.len() ==> #[trigger] with_seven[k] == (home_login_channel(cs[k], platform, login@) && self@.seven_tv_channels.contains_key(cs[k].id@)),
                forall|k: int| 0 <= k < cs.len() ==> #[trigger] any[k] == home_login_channel(cs[k], platform, login@),
                match best_seven {
                    Some(b) => b < i && with_seven[b as int] && forall|k: int| b < k < i ==> !#[trigger] with_seven[k],
                    None => forall|k: int| 0 <= k < i ==> !#[trigger] with_seven[k],
                },
                match best_any {
                    Some(b) => b < i && any[b as int] && forall|k: int| b < k < i ==> !#[trigger] any[k],
                    None => forall|k: int| 0 <= k < i ==> !#[trigger] any[k],
                },
            decreases cs.len() - i,
        {
            let c = &self.watched_channels[i];
            if c.platform == platform && str_eq_ignore_ascii_case(c.channel_slug.as_str(), login) {
                best_any = Some(i);
                if self.watched_seven_tv_channel_id(c.id.as_str()).is_some() {
                    best_seven = Some(i);
                }
            }
            i = i + 1;
        }
        proof {
            match best_seven {
                Some(b) => lemma_last_true_at(with_seven, b as int),
                None => lemma_last_true_none(with_seven),
            }
            match best_any {
                Some(b) => lemma_last_true_at(any, b as int),
                None => lemma_last_true_none(any),
            }
            assert(with_seven =~= Seq::new(cs.len(), |i: int| home_login_channel(cs[i], platform, login@) && self@.seven_tv_channels.contains_key(cs[i].id@)));
            assert(any =~= Seq::new(cs.len(), |i: int| home_login_channel(cs[i], platform, login@)));
        }
        match best_seven {
            Some(b) => Some(b),
            None => best_any,
        }
    }

    /// Where the home feed's emotes come from ([`home_emote_sources`]).
    pub fn home_emote_source_channels(&self) -> (r: Vec<(Platform, Vec<String>)>)
        requires
            self.wf(),
        ensures
            sources_view(r@) == home_emote_sources(self@, self@.platform_statuses),
    {
        let ghost ss = self@.platform_statuses;
        let mut out: Vec<(Platform, Vec<String>)> = Vec::new();
        let mut i: usize = 0;
        while i < self.platform_statuses.len()
            invariant
                self.wf(),
                i <= ss.len(),
                ss == self.platform_statuses@,
                sources_view(out@) == home_emote_sources(self@, ss.take(i as int)),
            decreases ss.len() - i,
        {
            let st = &self.platform_statuses[i];
            proof {
                assert(ss.take(i + 1).drop_last() =~= ss.take(i as int));
                assert(ss.take(i + 1).last() == *st);
            }
            let live = match st.status {
                PlatformStatus::Connected | PlatformStatus::Connecting => true,
                _ => false,
            };
            match &st.channel_login {
                Some(login) => {
                    if live {
                        let mut ids: Vec<String> = Vec::new();
                        ids.push(login.clone());
                        let ghost mut chosen: Seq<Seq<char>> = Seq::empty();
                        match self.home_emote_channel_index(st.platform, login.as_str()) {
                            Some(k) => {
                                let c = &self.watched_channels[k];
                                match self.watched_seven_tv_channel_id(c.id.as_str()) {
                                    Some(seven) => {
                                        ids.push(seven.clone());
                                        proof {
                                            chosen = seq![seven@];
                                        }
                                    },
                                    None => {},
                                }
                                ids.push(c.id.clone());
                                proof {
                                    chosen = chosen.push(c.id@);
                                }
                            },
                            None => {},
                        }
                        let ghost front = strings_view(ids@);
                        assert(front =~= seq![login@] + chosen);
                        assert(chosen == match home_emote_channel(self@, st.platform, login@) {
                            Some(c) => (if self@.seven_tv_channels.contains_key(c.id@) {
                                seq![self@.seven_tv_channels[c.id@]]
                            } else {
                                Seq::empty()
                            }) + seq![c.id@],
                            None => Seq::empty(),
                        });
                        push_history_channel_ids(&mut ids, &self.messages, st.platform);
                        assert(views(self.messages@) == self@.messages);
                        assert(strings_view(ids@) == seq![login@] + chosen + history_channel_ids(self@.messages, st.platform));
                        dedupe_channel_ids(&mut ids);
                        assert(strings_view(ids@) == home_emote_ids(self@, st.platform, login@));
                        let ghost before = sources_view(out@);
                        out.push((st.platform, ids));
                        proof {
                            assert(sources_view(out@) =~= before.push((st.platform, home_emote_ids(self@, st.platform, login@))));
                        }
                    } else {
                        proof {
                            assert(sources_view(out@) == home_emote_sources(self@, ss.take(i + 1)));
                        }
                    }
                },
                None => {},
            }
            i = i + 1;
        }
        assert(ss.take(i as int) =~= ss);
        out
    }
}


/// What renaming the watched tab `tab_id` to `name` does to the custom tab names `names` (a list
/// of `(tab id, name)` pairs): nothing when `tab_id` is not among the tabs `tab_ids`; else the
/// tab's entry is dropped when `name` is blank, or set to `name` trimmed.
pub open spec fn renamed_tabs(
    tab_ids: Seq<Seq<char>>,
    names: Seq<(String, String)>,
    tab_id: Seq<char>,
    name: Seq<char>,
    after: Seq<(String, String)>,
) -> bool {
    if !tab_ids.contains(tab_id) {
        after == names
    } else if trim(name).len() == 0 {
        after == match crate::platforms::key_index(names, tab_id) {
            Some(i) => names.remove(i),
            None => names,
        }
    } else {
        &&& crate::platforms::keyed_set(names, after, tab_id)
        &&& after[crate::platforms::key_slot(names, tab_id)].1@ == trim(name)
    }
}

/// Renames the watched tab `tab_id` to `name` in the custom tab names `names`
/// ([`renamed_tabs`]); says whether `tab_id` is one of the tabs `tab_ids`.
pub fn rename_watched_tab(tab_ids: &Vec<String>, names: &mut Vec<(String, String)>, tab_id: &str, name: &str) -> (r: bool)
    ensures
        r == strings_view(tab_ids@).contains(tab_id@),
        renamed_tabs(strings_view(tab_ids@), old(names)@, tab_id@, name@, final(names)@),
{
    if !holds_string(tab_ids, tab_id) {
        return false;
    }
    let t = crate::text::trimmed(name);
    if t.as_str().is_empty() {
        match crate::platforms::find_key(names, tab_id) {
            Some(i) => {
                names.remove(i);
            },
            None => {},
        }
    } else {
        crate::platforms::upsert_keyed(names, owned(tab_id), t);
    }
    true
}

} // verus!
