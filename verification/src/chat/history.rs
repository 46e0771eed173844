//! The message history of a channel: its order, older pages and live messages.
use crate::chat::normalize::{
    compare_message_keys, message_before, message_order, message_order_antisymmetric,
    message_order_transitive, timestamp_readable,
};
use crate::protocol::types::{MessageView, NormalizedChatMessage};
use std::cmp::Ordering;
use vstd::prelude::*;

verus! {

/// The views of a list of messages.
pub open spec fn views(v: Seq<NormalizedChatMessage>) -> Seq<MessageView> {
    Seq::new(v.len(), |i: int| v[i]@)
}

/// Every timestamp of the list can be read ([`timestamp_readable`]).
pub open spec fn all_readable(s: Seq<MessageView>) -> bool {
    forall|i: int| 0 <= i < s.len() ==> timestamp_readable(#[trigger] s[i].6)
}

/// Compares two messages by timestamp, then by id.
pub fn compare_messages(left: &NormalizedChatMessage, right: &NormalizedChatMessage) -> (r: Ordering)
    requires
        timestamp_readable(left.timestamp@),
        timestamp_readable(right.timestamp@),
    ensures
        r == message_order(left@, right@),
{
    compare_message_keys(left, right)
}

/// Whether `a` sorts strictly before `b`.
fn sorts_before(a: &NormalizedChatMessage, b: &NormalizedChatMessage) -> (r: bool)
    requires
        timestamp_readable(a.timestamp@),
        timestamp_readable(b.timestamp@),
    ensures
        r == message_before(a@, b@),
{
    match compare_messages(a, b) {
        Ordering::Less => true,
        _ => false,
    }
}

/// The position at which `m` goes into `s`: the first message that `m` sorts strictly before,
/// or the end.
pub open spec fn insert_position(s: Seq<MessageView>, m: MessageView) -> nat
    decreases s.len(),
{
    if s.len() == 0 {
        0
    } else if message_before(m, s[0]) {
        0
    } else {
        1 + insert_position(s.drop_first(), m)
    }
}

/// `s` with `m` inserted after every message that does not sort after it.
pub open spec fn insert_sorted(s: Seq<MessageView>, m: MessageView) -> Seq<MessageView> {
    s.insert(insert_position(s, m) as int, m)
}

/// `s` in order, messages that compare equal keeping their order (a stable sort): each message
/// in turn goes in after every earlier one that does not sort after it.
pub open spec fn stable_sorted(s: Seq<MessageView>) -> Seq<MessageView>
    decreases s.len(),
{
    if s.len() == 0 {
        s
    } else {
        insert_sorted(stable_sorted(s.drop_last()), s.last())
    }
}

/// No message sorts strictly before one that comes earlier.
pub open spec fn is_sorted(s: Seq<MessageView>) -> bool {
    forall|i: int, j: int| 0 <= i < j < s.len() ==> !message_before(#[trigger] s[j], #[trigger] s[i])
}

proof fn lemma_insert_position(s: Seq<MessageView>, m: MessageView)
    ensures
        insert_position(s, m) <= s.len(),
        forall|k: int| 0 <= k < insert_position(s, m) ==> !message_before(m, #[trigger] s[k]),
        insert_position(s, m) < s.len() ==> message_before(m, s[insert_position(s, m) as int]),
    decreases s.len(),
{
    if s.len() > 0 && !message_before(m, s[0]) {
        lemma_insert_position(s.drop_first(), m);
        assert forall|k: int| 0 <= k < insert_position(s, m) implies !message_before(m, #[trigger] s[k]) by {
            if k > 0 {
                assert(s[k] == s.drop_first()[k - 1]);
            }
        }
    }
}

/// Finds where `m` goes into `v` ([`insert_position`]).
fn find_insert_position(v: &Vec<NormalizedChatMessage>, m: &NormalizedChatMessage) -> (r: usize)
    requires
        all_readable(views(v@)),
        timestamp_readable(m.timestamp@),
    ensures
        r == insert_position(views(v@), m@),
{
    let ghost s = views(v@);
    let mut k: usize = 0;
    assert(s.skip(0) =~= s);
    while k < v.len()
        invariant
            k <= v@.len(),
            s == views(v@),
            all_readable(s),
            timestamp_readable(m.timestamp@),
            insert_position(s, m@) == k + insert_position(s.skip(k as int), m@),
        decreases v@.len() - k,
    {
        assert(s[k as int] == v@[k as int]@);
        assert(timestamp_readable(s[k as int].6));
        assert(s.skip(k as int)[0] == s[k as int]);
        if sorts_before(m, &v[k]) {
            return k;
        }
        assert(s.skip(k as int).drop_first() =~= s.skip(k + 1));
        k = k + 1;
    }
    k
}

/// Sorts messages by timestamp, then by id, keeping the order of messages that compare equal.
pub fn sort_messages(messages: &mut Vec<NormalizedChatMessage>)
    requires
        all_readable(views(old(messages)@)),
    ensures
        views(final(messages)@) == stable_sorted(views(old(messages)@)),
{
    let ghost s = views(messages@);
    let mut out: Vec<NormalizedChatMessage> = Vec::new();
    let mut i: usize = 0;
    while i < messages.len()
        invariant
            i <= messages@.len(),
            s == views(messages@),
            all_readable(s),
            views(out@) == stable_sorted(s.take(i as int)),
            all_readable(views(out@)),
        decreases messages@.len() - i,
    {
        let m = messages[i].clone();
        assert(s[i as int] == messages@[i as int]@);
        assert(timestamp_readable(s[i as int].6));
        assert(m@ == messages@[i as int]@);
        assert(timestamp_readable(m.timestamp@));
        let k = find_insert_position(&out, &m);
        proof {
            lemma_insert_position(views(out@), m@);
        }
        out.insert(k, m);
        proof {
            assert(s.take(i + 1).drop_last() =~= s.take(i as int));
            assert(s.take(i + 1).last() == m@);
            assert(views(out@) =~= insert_sorted(stable_sorted(s.take(i as int)), m@));
        }
        i = i + 1;
    }
    proof {
        assert(s.take(i as int) =~= s);
    }
    *messages = out;
}

proof fn lemma_not_before_self(m: MessageView)
    ensures
        !message_before(m, m),
{
    message_order_antisymmetric(m, m);
}

proof fn lemma_before_transitive(a: MessageView, b: MessageView, c: MessageView)
    requires
        message_before(a, b),
        message_before(b, c),
    ensures
        message_before(a, c),
{
    message_order_transitive(a, b, c);
}

/// Inserting a message into a sorted history keeps it sorted.
pub proof fn insert_sorted_keeps_order(s: Seq<MessageView>, m: MessageView)
    requires
        is_sorted(s),
    ensures
        is_sorted(insert_sorted(s, m)),
{
    lemma_insert_position(s, m);
    let p = insert_position(s, m) as int;
    let r = insert_sorted(s, m);
    assert forall|i: int, j: int| 0 <= i < j < r.len() implies !message_before(#[trigger] r[j], #[trigger] r[i]) by {
        if j < p {
            assert(r[i] == s[i] && r[j] == s[j]);
        } else if j == p {
            assert(r[i] == s[i] && r[j] == m);
        } else if i == p {
            assert(r[i] == m && r[j] == s[j - 1]);
            if message_before(s[j - 1], m) {
                lemma_before_transitive(s[j - 1], m, s[p]);
                if j - 1 == p {
                    lemma_not_before_self(s[p]);
                }
            }
        } else if i < p {
            assert(r[i] == s[i] && r[j] == s[j - 1]);
        } else {
            assert(r[i] == s[i - 1] && r[j] == s[j - 1]);
        }
    }
}

/// A stable sort puts the messages in order.
pub proof fn stable_sorted_is_sorted(s: Seq<MessageView>)
    ensures
        is_sorted(stable_sorted(s)),
    decreases s.len(),
{
    if s.len() > 0 {
        stable_sorted_is_sorted(s.drop_last());
        insert_sorted_keeps_order(stable_sorted(s.drop_last()), s.last());
    }
}

/// A stable sort keeps every message, each as often as it came: the result is a permutation of
/// the input.
pub proof fn stable_sorted_is_permutation(s: Seq<MessageView>)
    ensures
        stable_sorted(s).to_multiset() == s.to_multiset(),
        stable_sorted(s).len() == s.len(),
    decreases s.len(),
{
    if s.len() > 0 {
        let t = s.drop_last();
        stable_sorted_is_permutation(t);
        lemma_insert_position(stable_sorted(t), s.last());
        vstd::seq_lib::to_multiset_insert(stable_sorted(t), insert_position(stable_sorted(t), s.last()) as int, s.last());
        vstd::seq_lib::to_multiset_build(t, s.last());
        assert(t.push(s.last()) =~= s);
    } else {
        assert(stable_sorted(s) =~= s);
    }
}

/// Sorting a history that is already in order changes nothing; in particular messages that
/// compare equal keep their order.
pub proof fn stable_sorted_of_sorted(s: Seq<MessageView>)
    requires
        is_sorted(s),
    ensures
        stable_sorted(s) == s,
    decreases s.len(),
{
    if s.len() > 0 {
        let t = s.drop_last();
        assert(is_sorted(t)) by {
            assert forall|i: int, j: int| 0 <= i < j < t.len() implies !message_before(#[trigger] t[j], #[trigger] t[i]) by {
                assert(t[i] == s[i] && t[j] == s[j]);
            }
        }
        stable_sorted_of_sorted(t);
        lemma_insert_position(t, s.last());
        if insert_position(t, s.last()) < t.len() {
            let p = insert_position(t, s.last()) as int;
            assert(t[p] == s[p]);
            assert(!message_before(s[s.len() - 1], s[p]));
        }
        assert(t.insert(t.len() as int, s.last()) =~= s);
    }
}

/// Some message of `s` has the id `id`.
pub open spec fn has_id(s: Seq<MessageView>, id: Seq<char>) -> bool {
    exists|i: int| 0 <= i < s.len() && (#[trigger] s[i]).0 == id
}

/// Whether one of the first `hi` messages of `v` has the id `id`.
fn id_among(v: &Vec<NormalizedChatMessage>, hi: usize, id: &str) -> (r: bool)
    requires
        hi <= v@.len(),
    ensures
        r == has_id(views(v@).take(hi as int), id@),
{
    let ghost s = views(v@).take(hi as int);
    let mut i: usize = 0;
    while i < hi
        invariant
            i <= hi <= v@.len(),
            s == views(v@).take(hi as int),
            forall|j: int| 0 <= j < i ==> (#[trigger] s[j]).0 != id@,
        decreases hi - i,
    {
        assert(s[i as int] == v@[i as int]@);
        if crate::text::str_eq(&v[i].id, id) {
            return true;
        }
        i = i + 1;
    }
    false
}

/// Copies of the messages of `v`.
fn clone_messages(v: &Vec<NormalizedChatMessage>) -> (r: Vec<NormalizedChatMessage>)
    ensures
        views(r@) == views(v@),
{
    let mut r: Vec<NormalizedChatMessage> = Vec::new();
    let mut i: usize = 0;
    while i < v.len()
        invariant
            i <= v@.len(),
            views(r@) == views(v@).take(i as int),
        decreases v@.len() - i,
    {
        let c = v[i].clone();
        assert(c@ == v@[i as int]@);
        let ghost old_r = r@;
        r.push(c);
        proof {
            assert(views(r@) =~= views(old_r).push(c@));
            assert(views(r@) =~= views(v@).take(i + 1));
        }
        i = i + 1;
    }
    proof {
        assert(views(v@).take(i as int) =~= views(v@));
    }
    r
}

/// The messages of an older page that are new: those whose id is not already among the
/// `existing` ones, each id kept where it first occurs.
pub open spec fn fresh_older(older: Seq<MessageView>, existing: Seq<MessageView>) -> Seq<MessageView>
    decreases older.len(),
{
    if older.len() == 0 {
        Seq::empty()
    } else {
        let kept = fresh_older(older.drop_last(), existing);
        let m = older.last();
        if has_id(existing, m.0) || has_id(older.drop_last(), m.0) {
            kept
        } else {
            kept.push(m)
        }
    }
}

/// An older page put in front of the messages already loaded ([`fresh_older`]).
pub open spec fn merged_page(older: Seq<MessageView>, existing: Seq<MessageView>) -> Seq<MessageView> {
    fresh_older(older, existing) + existing
}

/// Puts a page of older messages in front of the loaded ones, leaving out the messages whose
/// id is already loaded and repeats of an id within the page.
pub fn merge_older_page(
    older_messages: Vec<NormalizedChatMessage>,
    existing_messages: Vec<NormalizedChatMessage>,
) -> (r: Vec<NormalizedChatMessage>)
    ensures
        views(r@) == merged_page(views(older_messages@), views(existing_messages@)),
{
    let ghost o = views(older_messages@);
    let ghost e = views(existing_messages@);
    let mut existing = existing_messages;
    let mut merged: Vec<NormalizedChatMessage> = Vec::new();
    let mut i: usize = 0;
    while i < older_messages.len()
        invariant
            i <= older_messages@.len(),
            o == views(older_messages@),
            e == views(existing@),
            views(merged@) == fresh_older(o.take(i as int), e),
        decreases older_messages@.len() - i,
    {
        let in_existing = id_among(&existing, existing.len(), &older_messages[i].id);
        let seen = id_among(&older_messages, i, &older_messages[i].id);
        proof {
            assert(views(existing@).take(existing@.len() as int) =~= e);
            assert(o.take(i + 1).drop_last() =~= o.take(i as int));
            assert(o.take(i + 1).last() == older_messages@[i as int]@);
        }
        if !in_existing && !seen {
            let c = older_messages[i].clone();
            assert(c@ == older_messages@[i as int]@);
            merged.push(c);
            proof {
                assert(views(merged@) =~= fresh_older(o.take(i as int), e).push(o[i as int]));
            }
        }
        i = i + 1;
    }
    proof {
        assert(o.take(i as int) =~= o);
    }
    let ghost before = merged@;
    merged.append(&mut existing);
    proof {
        assert(views(merged@) =~= views(before) + e);
    }
    merged
}

/// `s` after a live message arrives: unchanged when a message with its id is there already,
/// else with the message inserted after every one that does not sort after it.
pub open spec fn with_live_message(s: Seq<MessageView>, m: MessageView) -> Seq<MessageView> {
    if has_id(s, m.0) {
        s
    } else {
        insert_sorted(s, m)
    }
}

/// The messages with a live one added ([`with_live_message`]).
pub fn insert_live_message(
    existing_messages: &Vec<NormalizedChatMessage>,
    incoming_message: NormalizedChatMessage,
) -> (r: Vec<NormalizedChatMessage>)
    requires
        all_readable(views(existing_messages@)),
        timestamp_readable(incoming_message.timestamp@),
    ensures
        views(r@) == with_live_message(views(existing_messages@), incoming_message@),
{
    let n = existing_messages.len();
    let duplicate = id_among(existing_messages, n, &incoming_message.id);
    proof {
        assert(views(existing_messages@).take(n as int) =~= views(existing_messages@));
    }
    let mut next = clone_messages(existing_messages);
    if duplicate {
        return next;
    }
    let k = find_insert_position(existing_messages, &incoming_message);
    proof {
        lemma_insert_position(views(existing_messages@), incoming_message@);
    }
    next.insert(k, incoming_message);
    proof {
        assert(views(next@) =~= insert_sorted(views(existing_messages@), incoming_message@));
    }
    next
}

/// Adds a live message in place ([`with_live_message`]); `false` when a message with its id
/// was there already.
pub fn insert_live_message_in_place(
    existing_messages: &mut Vec<NormalizedChatMessage>,
    incoming_message: NormalizedChatMessage,
) -> (r: bool)
    requires
        all_readable(views(old(existing_messages)@)),
        timestamp_readable(incoming_message.timestamp@),
    ensures
        r == !has_id(views(old(existing_messages)@), incoming_message@.0),
        views(final(existing_messages)@) == with_live_message(
            views(old(existing_messages)@),
            incoming_message@,
        ),
{
    let n = existing_messages.len();
    let duplicate = id_among(existing_messages, n, &incoming_message.id);
    proof {
        assert(views(existing_messages@).take(n as int) =~= views(existing_messages@));
    }
    if duplicate {
        return false;
    }
    let k = find_insert_position(existing_messages, &incoming_message);
    proof {
        lemma_insert_position(views(existing_messages@), incoming_message@);
    }
    let ghost before = views(existing_messages@);
    existing_messages.insert(k, incoming_message);
    proof {
        assert(views(existing_messages@) =~= insert_sorted(before, incoming_message@));
    }
    true
}

/// A live message that arrives twice is kept once: the second arrival changes nothing.
pub proof fn live_message_is_idempotent(s: Seq<MessageView>, m: MessageView)
    ensures
        with_live_message(with_live_message(s, m), m) == with_live_message(s, m),
{
    if !has_id(s, m.0) {
        lemma_insert_position(s, m);
        let r = insert_sorted(s, m);
        assert(r[insert_position(s, m) as int] == m);
    }
}

/// A live message keeps a sorted history sorted.
pub proof fn live_message_keeps_order(s: Seq<MessageView>, m: MessageView)
    requires
        is_sorted(s),
    ensures
        is_sorted(with_live_message(s, m)),
{
    if !has_id(s, m.0) {
        insert_sorted_keeps_order(s, m);
    }
}

proof fn lemma_fresh_older_ids(older: Seq<MessageView>, existing: Seq<MessageView>)
    ensures
        forall|k: int| 0 <= k < older.len() ==> has_id(merged_page(older, existing), (#[trigger] older[k]).0),
        forall|k: int| 0 <= k < fresh_older(older, existing).len() ==> !has_id(existing, (#[trigger] fresh_older(older, existing)[k]).0),
    decreases older.len(),
{
    if older.len() > 0 {
        let o2 = older.drop_last();
        lemma_fresh_older_ids(o2, existing);
        let kept = fresh_older(o2, existing);
        let f = fresh_older(older, existing);
        let mg = merged_page(older, existing);
        let mg2 = merged_page(o2, existing);
        let m = older.last();
        // every id of the shorter merge is in the longer one
        assert forall|id: Seq<char>| has_id(mg2, id) implies has_id(mg, id) by {
            let i = choose|i: int| 0 <= i < mg2.len() && (#[trigger] mg2[i]).0 == id;
            if i < kept.len() {
                assert(mg[i] == mg2[i]);
            } else {
                assert(mg[i + (f.len() - kept.len())] == mg2[i]);
            }
        }
        assert forall|k: int| 0 <= k < older.len() implies has_id(mg, (#[trigger] older[k]).0) by {
            if k < o2.len() {
                assert(older[k] == o2[k]);
                assert(has_id(mg2, o2[k].0));
            } else if has_id(existing, m.0) {
                let i = choose|i: int| 0 <= i < existing.len() && (#[trigger] existing[i]).0 == m.0;
                assert(mg[f.len() + i] == existing[i]);
            } else if has_id(o2, m.0) {
                let j = choose|j: int| 0 <= j < o2.len() && (#[trigger] o2[j]).0 == m.0;
                assert(has_id(mg2, o2[j].0));
            } else {
                assert(mg[kept.len() as int] == m);
            }
        }
    }
}

/// Loading the same older page twice adds nothing the second time; and no message it adds has
/// the id of a message that was loaded already.
pub proof fn merge_older_page_is_idempotent(older: Seq<MessageView>, existing: Seq<MessageView>)
    ensures
        merged_page(older, merged_page(older, existing)) == merged_page(older, existing),
        forall|k: int| 0 <= k < fresh_older(older, existing).len() ==> !has_id(existing, (#[trigger] fresh_older(older, existing)[k]).0),
{
    lemma_fresh_older_ids(older, existing);
    lemma_fresh_older_empty(older, merged_page(older, existing));
    assert(merged_page(older, merged_page(older, existing)) =~= merged_page(older, existing));
}

proof fn lemma_fresh_older_empty(older: Seq<MessageView>, existing: Seq<MessageView>)
    requires
        forall|k: int| 0 <= k < older.len() ==> has_id(existing, (#[trigger] older[k]).0),
    ensures
        fresh_older(older, existing) == Seq::<MessageView>::empty(),
    decreases older.len(),
{
    if older.len() > 0 {
        let o2 = older.drop_last();
        assert forall|k: int| 0 <= k < o2.len() implies has_id(existing, (#[trigger] o2[k]).0) by {
            assert(o2[k] == older[k]);
        }
        lemma_fresh_older_empty(o2, existing);
        assert(has_id(existing, older[older.len() - 1].0));
    }
}

} // verus!
