//! Provider-neutral platform adapter boundary for Twitch, YouTube and Kick.
pub mod kick;
pub mod twitch;
pub mod youtube;

use crate::protocol::types::{NormalizedChatMessage, NormalizedEvent, Platform, PlatformStatusInfo};
use vstd::prelude::*;

verus! {

#[derive(Debug, Clone, PartialEq, Eq)]
pub enum PlatformLifecycleState {
    Disconnected,
    Connecting { channel_slug: String },
    Connected { channel_slug: String },
}

#[derive(Debug, Clone, PartialEq, Eq)]
pub struct AdapterIdentity {
    pub platform: Platform,
    pub lifecycle: PlatformLifecycleState,
}

/// An error reported by a platform adapter.
#[derive(Debug, Clone, PartialEq, Eq)]
pub struct PlatformError {
    pub platform: Platform,
    pub message: String,
}

impl PlatformError {
    pub fn new(platform: Platform, message: String) -> (r: Self)
        ensures
            r.platform == platform,
            r.message@ == message@,
    {
        PlatformError { platform, message }
    }

    /// The error's text: `<platform> platform adapter error: <message>`, the platform named as
    /// `{:?}` writes it.
    pub fn to_string(&self) -> (r: String)
        ensures
            r@ == crate::auth::platform_debug_name(self.platform) + " platform adapter error: "@ + self.message@,
    {
        let mut t = crate::text::owned(crate::auth::platform_debug_str(self.platform));
        crate::text::push_str(&mut t, " platform adapter error: ");
        crate::text::push_str(&mut t, self.message.as_str());
        t
    }
}


/// What an adapter hands on: a chat message, a channel event, or a change of its status.
#[derive(Debug)]
pub enum PlatformEvent {
    Message(NormalizedChatMessage),
    Event(NormalizedEvent),
    Status(PlatformStatusInfo),
}

/// Where an adapter sends what it reads from its platform.
pub trait PlatformEventSink {
    /// The events the sink has taken, oldest first.
    spec fn received(&self) -> Seq<PlatformEvent>;

    /// Takes one event: on success it is the last event received; on failure the sink has
    /// taken nothing.
    fn emit(&mut self, event: PlatformEvent) -> (r: Result<(), PlatformError>)
        ensures
            r is Ok ==> final(self).received() == old(self).received().push(event),
            r is Err ==> final(self).received() == old(self).received(),
    ;
}

/// A sink that keeps every event, in the order it came.
#[derive(Debug)]
pub struct CollectingSink {
    pub events: Vec<PlatformEvent>,
}

impl CollectingSink {
    /// A sink that has taken nothing yet.
    pub fn new() -> (r: Self)
        ensures
            r.events@.len() == 0,
    {
        CollectingSink { events: Vec::new() }
    }
}

impl PlatformEventSink for CollectingSink {
    open spec fn received(&self) -> Seq<PlatformEvent> {
        self.events@
    }

    fn emit(&mut self, event: PlatformEvent) -> (r: Result<(), PlatformError>)
        ensures
            r is Ok,
    {
        self.events.push(event);
        Ok(())
    }
}

/// Hands `events` to `sink` in order, stopping at the first it refuses; on success the sink
/// has taken all of them, after what it had.
pub fn emit_all<S: PlatformEventSink>(sink: &mut S, events: Vec<PlatformEvent>) -> (r: Result<(), PlatformError>)
    ensures
        r is Ok ==> final(sink).received() == old(sink).received() + events@,
        r is Err ==> exists|k: int|
            0 <= k < events@.len() && final(sink).received() == old(sink).received() + #[trigger] events@.take(k),
{
    let ghost all = events@;
    let n: usize = events.len();
    let mut rest = events;
    let ghost start = sink.received();
    let mut k: usize = 0;
    while rest.len() > 0
        invariant
            k + rest@.len() == all.len(),
            all.len() == n,
            all == events@,
            start == old(sink).received(),
            rest@ == all.skip(k as int),
            sink.received() == start + all.take(k as int),
        decreases rest@.len(),
    {
        let event = rest.remove(0);
        proof {
            assert(event == all[k as int]);
        }
        match sink.emit(event) {
            Ok(()) => {},
            Err(e) => {
                assert(sink.received() == old(sink).received() + all.take(k as int));
                return Err(e);
            },
        }
        proof {
            assert(all.take(k as int).push(all[k as int]) =~= all.take(k + 1));
            assert(rest@ =~= all.skip(k + 1));
        }
        k = k + 1;
    }
    proof {
        assert(all.take(k as int) =~= all);
    }
    Ok(())
}

/// A fresh access token and what comes with it.
#[derive(Debug, Clone, PartialEq, Eq)]
pub struct TokenPair {
    pub access_token: String,
    pub refresh_token: Option<String>,
    pub expires_at: Option<u64>,
}


/// Index of the first entry of `m` whose key is `key`.
pub open spec fn key_index<V>(m: Seq<(String, V)>, key: Seq<char>) -> Option<int>
    decreases m.len(),
{
    if m.len() == 0 {
        None
    } else if m[0].0@ == key {
        Some(0)
    } else {
        match key_index(m.drop_first(), key) {
            Some(j) => Some(j + 1),
            None => None,
        }
    }
}

pub proof fn lemma_key_index<V>(m: Seq<(String, V)>, key: Seq<char>, i: int)
    requires
        0 <= i <= m.len(),
        forall|j: int| 0 <= j < i ==> (#[trigger] m[j]).0@ != key,
        i < m.len() ==> m[i].0@ == key,
    ensures
        key_index(m, key) == if i < m.len() {
            Some(i)
        } else {
            None::<int>
        },
    decreases i,
{
    if i > 0 {
        assert forall|j: int| 0 <= j < i - 1 implies (#[trigger] m.drop_first()[j]).0@ != key by {
            assert(m.drop_first()[j] == m[j + 1]);
        }
        if i < m.len() {
            assert(m.drop_first()[i - 1] == m[i]);
        }
        lemma_key_index(m.drop_first(), key, i - 1);
        assert(m[0].0@ != key);
    }
}

/// The entry of `key` in a list of `(key, value)` pairs, if there is one.
pub open spec fn lookup(m: Seq<(String, String)>, key: Seq<char>) -> Option<Seq<char>> {
    match key_index(m, key) {
        Some(i) => Some(m[i].1@),
        None => None,
    }
}

/// The value of `key` in `m`, if there is one.
pub fn lookup_exec(m: &Vec<(String, String)>, key: &str) -> (r: Option<String>)
    ensures
        match r {
            Some(v) => lookup(m@, key@) == Some(v@),
            None => lookup(m@, key@) is None,
        },
{
    proof {
        lemma_key_index_bound(m@, key@);
    }
    match find_key(m, key) {
        Some(i) => Some(m[i].1.clone()),
        None => None,
    }
}

/// Where the entry with `key` is in `m`, if there is one.
pub fn find_key<V>(m: &Vec<(String, V)>, key: &str) -> (r: Option<usize>)
    ensures
        match r {
            Some(i) => key_index(m@, key@) == Some(i as int) && i < m@.len(),
            None => key_index(m@, key@) is None,
        },
{
    let mut i: usize = 0;
    while i < m.len()
        invariant
            i <= m@.len(),
            forall|j: int| 0 <= j < i ==> (#[trigger] m@[j]).0@ != key@,
        decreases m@.len() - i,
    {
        if crate::text::str_eq(m[i].0.as_str(), key) {
            proof {
                lemma_key_index(m@, key@, i as int);
            }
            return Some(i);
        }
        i = i + 1;
    }
    proof {
        lemma_key_index(m@, key@, i as int);
    }
    None
}

/// Sets the entry of `key` to `value`: replaced where it is, or added last.
pub fn upsert_keyed<V>(m: &mut Vec<(String, V)>, key: String, value: V)
    ensures
        final(m)@ == match key_index(old(m)@, key@) {
            Some(i) => old(m)@.update(i, (key, value)),
            None => old(m)@.push((key, value)),
        },
        keyed_set(old(m)@, final(m)@, key@),
        final(m)@[key_slot(old(m)@, key@)] == (key, value),
{
    proof {
        lemma_key_index_bound(m@, key@);
    }
    match find_key(m, key.as_str()) {
        Some(i) => m.set(i, (key, value)),
        None => m.push((key, value)),
    }
}


/// Where the entry of `key` is after setting it in `m`: where it was, or last.
pub open spec fn key_slot<V>(m: Seq<(String, V)>, key: Seq<char>) -> int {
    match key_index(m, key) {
        Some(i) => i,
        None => m.len() as int,
    }
}

/// `new` is `old` with the entry of `key` set (in place, or added last).
pub open spec fn keyed_set<V>(old: Seq<(String, V)>, new: Seq<(String, V)>, key: Seq<char>) -> bool {
    &&& 0 <= key_slot(old, key) < new.len()
    &&& new[key_slot(old, key)].0@ == key
    &&& new == match key_index(old, key) {
        Some(i) => old.update(i, new[i]),
        None => old.push(new[old.len() as int]),
    }
}

pub proof fn lemma_key_index_bound<V>(m: Seq<(String, V)>, key: Seq<char>)
    ensures
        key_index(m, key) matches Some(i) ==> 0 <= i < m.len() && m[i].0@ == key,
    decreases m.len(),
{
    if m.len() > 0 && m[0].0@ != key {
        lemma_key_index_bound(m.drop_first(), key);
        if let Some(j) = key_index(m.drop_first(), key) {
            assert(m.drop_first()[j] == m[j + 1]);
        }
    }
}

} // verus!
