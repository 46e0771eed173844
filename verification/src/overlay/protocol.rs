//! Messages sent to the overlay page, and the parts a chat message is shown in.
use crate::protocol::types::{Emote, EmoteView, NormalizedChatMessage, NormalizedEvent};
use crate::text::{byte_len, byte_slice};
use vstd::prelude::*;

verus! {

/// Whether a part of an overlay message is text or an emote.
#[derive(Debug, Clone, Copy, PartialEq, Eq, Structural)]
pub enum MessagePartType {
    Text,
    Emote,
}

/// A piece of a chat message as the overlay shows it: a run of text or an emote.
#[derive(Debug, Clone, PartialEq)]
pub struct MessagePart {
    pub part_type: MessagePartType,
    pub content: Option<String>,
    pub emote: Option<Emote>,
}

/// A part's type, text and emote, as views.
pub type PartView = (MessagePartType, Option<Seq<char>>, Option<EmoteView>);

impl View for MessagePart {
    type V = PartView;

    open spec fn view(&self) -> PartView {
        (
            self.part_type,
            crate::protocol::types::opt_seq(self.content),
            match self.emote {
                Some(e) => Some(e@),
                None => None,
            },
        )
    }
}

/// A chat message with its parts, for the overlay.
#[derive(Debug, Clone, PartialEq)]
pub struct OverlayChatMessage {
    pub message: NormalizedChatMessage,
    pub parts: Vec<MessagePart>,
}

/// What the overlay page is sent.
#[derive(Debug, Clone, PartialEq)]
pub enum OverlayMessage {
    ChatMessage { data: Box<OverlayChatMessage> },
    ChatEvent { data: Box<NormalizedEvent> },
    Clear,
}

/// The occurrences of the emotes, in order of emote then position: start byte, last byte, and
/// the emote's index.
pub open spec fn occurrences(emotes: Seq<EmoteView>) -> Seq<(int, int, int)>
    decreases emotes.len(),
{
    if emotes.len() == 0 {
        Seq::empty()
    } else {
        let i = emotes.len() - 1;
        occurrences(emotes.drop_last()) + Seq::new(
            emotes[i].3.len(),
            |k: int| (emotes[i].3[k].start as int, emotes[i].3[k].end as int, i),
        )
    }
}

/// Where an occurrence goes among occurrences sorted by start: after every one that does not
/// start later.
pub open spec fn start_position(s: Seq<(int, int, int)>, x: (int, int, int)) -> nat
    decreases s.len(),
{
    if s.len() == 0 {
        0
    } else if x.0 < s[0].0 {
        0
    } else {
        1 + start_position(s.drop_first(), x)
    }
}

/// The occurrences sorted by start, keeping the order of those that start together (a stable
/// sort by start).
pub open spec fn by_start(s: Seq<(int, int, int)>) -> Seq<(int, int, int)>
    decreases s.len(),
{
    if s.len() == 0 {
        s
    } else {
        let t = by_start(s.drop_last());
        t.insert(start_position(t, s.last()) as int, s.last())
    }
}

/// The byte just after an occurrence that ends at byte `end` (at most `usize::MAX`).
pub open spec fn after(end: int) -> int {
    if end + 1 > usize::MAX {
        usize::MAX as int
    } else {
        end + 1
    }
}

/// The parts for the sorted occurrences `occ` of the emotes of text `s`, and the byte where the
/// text after them starts: before each emote, the text since the previous one when there is
/// some and it lies on character boundaries; then the emote.
pub open spec fn parts_fold(s: Seq<char>, emotes: Seq<EmoteView>, occ: Seq<(int, int, int)>) -> (Seq<PartView>, int)
    decreases occ.len(),
{
    if occ.len() == 0 {
        (Seq::empty(), 0)
    } else {
        let prev = parts_fold(s, emotes, occ.drop_last());
        let o = occ.last();
        let with_text = if prev.1 < o.0 && byte_slice(s, prev.1, o.0) is Some {
            prev.0.push((MessagePartType::Text, byte_slice(s, prev.1, o.0), None))
        } else {
            prev.0
        };
        (with_text.push((MessagePartType::Emote, None, Some(emotes[o.2]))), after(o.1))
    }
}

/// The parts of a message: its whole text when it has no emotes; else the text around each
/// emote occurrence, by start, and the text after the last one.
pub open spec fn message_parts(s: Seq<char>, emotes: Seq<EmoteView>) -> Seq<PartView> {
    if emotes.len() == 0 {
        seq![(MessagePartType::Text, Some(s), None)]
    } else {
        let f = parts_fold(s, emotes, by_start(occurrences(emotes)));
        if f.1 < byte_len(s) && byte_slice(s, f.1, byte_len(s) as int) is Some {
            f.0.push((MessagePartType::Text, byte_slice(s, f.1, byte_len(s) as int), None))
        } else {
            f.0
        }
    }
}

proof fn lemma_occurrence_indices(emotes: Seq<EmoteView>)
    ensures
        forall|k: int| 0 <= k < occurrences(emotes).len() ==> 0 <= (#[trigger] occurrences(emotes)[k]).2 < emotes.len(),
    decreases emotes.len(),
{
    if emotes.len() > 0 {
        let p = emotes.drop_last();
        lemma_occurrence_indices(p);
        let a = occurrences(p);
        let i = emotes.len() - 1;
        let b = Seq::new(emotes[i].3.len(), |k: int| (emotes[i].3[k].start as int, emotes[i].3[k].end as int, i));
        assert forall|k: int| 0 <= k < occurrences(emotes).len() implies 0 <= (#[trigger] occurrences(emotes)[k]).2 < emotes.len() by {
            if k < a.len() {
                assert(occurrences(emotes)[k] == a[k]);
            } else {
                assert(occurrences(emotes)[k] == b[k - a.len()]);
            }
        }
    }
}

proof fn lemma_by_start_members(s: Seq<(int, int, int)>)
    ensures
        by_start(s).len() == s.len(),
        forall|k: int| 0 <= k < by_start(s).len() ==> exists|j: int| 0 <= j < s.len() && #[trigger] by_start(s)[k] == s[j],
    decreases s.len(),
{
    if s.len() > 0 {
        let p = s.drop_last();
        lemma_by_start_members(p);
        let t = by_start(p);
        lemma_start_position_bound(t, s.last());
        let pos = start_position(t, s.last()) as int;
        let r = by_start(s);
        assert forall|k: int| 0 <= k < r.len() implies exists|j: int| 0 <= j < s.len() && #[trigger] r[k] == s[j] by {
            if k < pos {
                let j = choose|j: int| 0 <= j < p.len() && t[k] == p[j];
                assert(r[k] == t[k] && p[j] == s[j]);
            } else if k == pos {
                assert(r[k] == s[s.len() - 1]);
            } else {
                let j = choose|j: int| 0 <= j < p.len() && t[k - 1] == p[j];
                assert(r[k] == t[k - 1] && p[j] == s[j]);
            }
        }
    }
}

/// The occurrences of the emotes ([`occurrences`]).
fn emote_occurrences(emotes: &Vec<Emote>) -> (r: Vec<(u32, u32, usize)>)
    ensures
        Seq::new(r@.len(), |k: int| (r@[k].0 as int, r@[k].1 as int, r@[k].2 as int)) == occurrences(
            crate::protocol::types::emotes_view(emotes@),
        ),
{
    let ghost ev = crate::protocol::types::emotes_view(emotes@);
    let mut out: Vec<(u32, u32, usize)> = Vec::new();
    let mut i: usize = 0;
    assert(ev.take(0) =~= Seq::<EmoteView>::empty());
    while i < emotes.len()
        invariant
            i <= emotes@.len(),
            ev == crate::protocol::types::emotes_view(emotes@),
            Seq::new(out@.len(), |k: int| (out@[k].0 as int, out@[k].1 as int, out@[k].2 as int)) == occurrences(ev.take(i as int)),
        decreases emotes@.len() - i,
    {
        let ghost before = Seq::new(out@.len(), |k: int| (out@[k].0 as int, out@[k].1 as int, out@[k].2 as int));
        let ghost positions = emotes@[i as int].positions@;
        let mut j: usize = 0;
        while j < emotes[i].positions.len()
            invariant
                i < emotes@.len(),
                j <= positions.len(),
                positions == emotes@[i as int].positions@,
                Seq::new(out@.len(), |k: int| (out@[k].0 as int, out@[k].1 as int, out@[k].2 as int)) == before + Seq::new(
                    j as nat,
                    |k: int| (positions[k].start as int, positions[k].end as int, i as int),
                ),
            decreases positions.len() - j,
        {
            let p = emotes[i].positions[j];
            let ghost old_out = out@;
            out.push((p.start, p.end, i));
            proof {
                assert(p == positions[j as int]);
                assert(Seq::new(out@.len(), |k: int| (out@[k].0 as int, out@[k].1 as int, out@[k].2 as int)) =~= Seq::new(
                    old_out.len(),
                    |k: int| (old_out[k].0 as int, old_out[k].1 as int, old_out[k].2 as int),
                ).push((p.start as int, p.end as int, i as int)));
                assert(Seq::new(out@.len(), |k: int| (out@[k].0 as int, out@[k].1 as int, out@[k].2 as int)) =~= before + Seq::new(
                    (j + 1) as nat,
                    |k: int| (positions[k].start as int, positions[k].end as int, i as int),
                ));
            }
            j = j + 1;
        }
        proof {
            let t = ev.take(i + 1);
            assert(t.drop_last() =~= ev.take(i as int));
            assert(t[i as int] == ev[i as int]);
            assert(ev[i as int].3 == positions);
        }
        i = i + 1;
    }
    proof {
        assert(ev.take(i as int) =~= ev);
    }
    out
}

proof fn lemma_start_position_bound(s: Seq<(int, int, int)>, x: (int, int, int))
    ensures
        start_position(s, x) <= s.len(),
    decreases s.len(),
{
    if s.len() > 0 && x.0 >= s[0].0 {
        lemma_start_position_bound(s.drop_first(), x);
    }
}

/// The occurrences sorted by start, stably ([`by_start`]).
fn sort_by_start(occ: &Vec<(u32, u32, usize)>) -> (r: Vec<(u32, u32, usize)>)
    ensures
        Seq::new(r@.len(), |k: int| (r@[k].0 as int, r@[k].1 as int, r@[k].2 as int)) == by_start(
            Seq::new(occ@.len(), |k: int| (occ@[k].0 as int, occ@[k].1 as int, occ@[k].2 as int)),
        ),
{
    let ghost s = Seq::new(occ@.len(), |k: int| (occ@[k].0 as int, occ@[k].1 as int, occ@[k].2 as int));
    let mut out: Vec<(u32, u32, usize)> = Vec::new();
    let mut i: usize = 0;
    assert(s.take(0) =~= Seq::<(int, int, int)>::empty());
    while i < occ.len()
        invariant
            i <= occ@.len(),
            s == Seq::new(occ@.len(), |k: int| (occ@[k].0 as int, occ@[k].1 as int, occ@[k].2 as int)),
            Seq::new(out@.len(), |k: int| (out@[k].0 as int, out@[k].1 as int, out@[k].2 as int)) == by_start(s.take(i as int)),
        decreases occ@.len() - i,
    {
        let x = occ[i];
        let ghost t = Seq::new(out@.len(), |k: int| (out@[k].0 as int, out@[k].1 as int, out@[k].2 as int));
        let ghost xv = (x.0 as int, x.1 as int, x.2 as int);
        let mut pos: usize = 0;
        assert(t.skip(0) =~= t);
        while pos < out.len() && out[pos].0 <= x.0
            invariant
                pos <= out@.len(),
                t == Seq::new(out@.len(), |k: int| (out@[k].0 as int, out@[k].1 as int, out@[k].2 as int)),
                xv == (x.0 as int, x.1 as int, x.2 as int),
                start_position(t, xv) == pos + start_position(t.skip(pos as int), xv),
            decreases out@.len() - pos,
        {
            assert(t.skip(pos as int)[0] == t[pos as int]);
            assert(t.skip(pos as int).drop_first() =~= t.skip(pos + 1));
            pos = pos + 1;
        }
        proof {
            if pos < out@.len() {
                assert(t.skip(pos as int)[0] == t[pos as int]);
            }
            lemma_start_position_bound(t, xv);
        }
        out.insert(pos, x);
        proof {
            assert(s.take(i + 1).drop_last() =~= s.take(i as int));
            assert(s.take(i + 1).last() == xv);
            assert(Seq::new(out@.len(), |k: int| (out@[k].0 as int, out@[k].1 as int, out@[k].2 as int)) =~= t.insert(pos as int, xv));
        }
        i = i + 1;
    }
    proof {
        assert(s.take(i as int) =~= s);
    }
    out
}

/// A text part.
fn text_part(content: String) -> (r: MessagePart)
    ensures
        r@ == (MessagePartType::Text, Some(content@), None::<EmoteView>),
{
    MessagePart { part_type: MessagePartType::Text, content: Some(content), emote: None }
}

/// The parts the overlay shows a message in ([`message_parts`]).
pub fn build_message_parts(message: &NormalizedChatMessage) -> (r: Vec<MessagePart>)
    ensures
        Seq::new(r@.len(), |k: int| r@[k]@) == message_parts(message.text@, message@.5),
{
    let ghost ev = message@.5;
    if message.emotes.len() == 0 {
        let mut parts: Vec<MessagePart> = Vec::new();
        parts.push(text_part(message.text.clone()));
        proof {
            assert(Seq::new(parts@.len(), |k: int| parts@[k]@) =~= seq![(MessagePartType::Text, Some(message.text@), None::<EmoteView>)]);
        }
        return parts;
    }
    let occ = emote_occurrences(&message.emotes);
    let sorted = sort_by_start(&occ);
    let ghost os = Seq::new(sorted@.len(), |k: int| (sorted@[k].0 as int, sorted@[k].1 as int, sorted@[k].2 as int));
    proof {
        assert(os == by_start(occurrences(ev)));
        lemma_occurrence_indices(ev);
        lemma_by_start_members(occurrences(ev));
        assert forall|k: int| 0 <= k < os.len() implies 0 <= (#[trigger] os[k]).2 < ev.len() by {
            let j = choose|j: int| 0 <= j < occurrences(ev).len() && os[k] == occurrences(ev)[j];
        }
    }
    let v = crate::text::chars_of(message.text.as_str());
    let total = crate::text::str_byte_len(message.text.as_str());
    let offs = crate::text::byte_offsets(&v, total);
    let mut parts: Vec<MessagePart> = Vec::new();
    let mut index: usize = 0;
    let mut i: usize = 0;
    assert(os.take(0) =~= Seq::<(int, int, int)>::empty());
    while i < sorted.len()
        invariant
            i <= sorted@.len(),
            os == Seq::new(sorted@.len(), |k: int| (sorted@[k].0 as int, sorted@[k].1 as int, sorted@[k].2 as int)),
            os == by_start(occurrences(ev)),
            ev == message@.5,
            ev == crate::protocol::types::emotes_view(message.emotes@),
            v@ == message.text@,
            total == byte_len(v@),
            offs@.len() == v@.len() + 1,
            forall|k: int| 0 <= k <= v@.len() ==> offs@[k] == byte_len(#[trigger] v@.take(k)),
            forall|k: int| 0 <= k < os.len() ==> 0 <= (#[trigger] os[k]).2 < ev.len(),
            (Seq::new(parts@.len(), |k: int| parts@[k]@), index as int) == parts_fold(v@, ev, os.take(i as int)),
        decreases sorted@.len() - i,
    {
        let (start, end, which) = sorted[i];
        let ghost before = Seq::new(parts@.len(), |k: int| parts@[k]@);
        let ghost o = os[i as int];
        proof {
            assert(os.take(i + 1).drop_last() =~= os.take(i as int));
            assert(os.take(i + 1).last() == o);
        }
        let start_at = start as usize;
        if index < start_at {
            match crate::text::byte_slice_of(&v, &offs, index, start_at) {
                Some(content) => {
                    parts.push(text_part(content));
                    proof {
                        assert(Seq::new(parts@.len(), |k: int| parts@[k]@) =~= before.push(
                            (MessagePartType::Text, byte_slice(v@, index as int, start as int), None),
                        ));
                    }
                },
                None => {},
            }
        }
        let ghost mid = Seq::new(parts@.len(), |k: int| parts@[k]@);
        let e = message.emotes[which].clone();
        parts.push(MessagePart { part_type: MessagePartType::Emote, content: None, emote: Some(e) });
        proof {
            assert(e@ == ev[which as int]);
            assert(Seq::new(parts@.len(), |k: int| parts@[k]@) =~= mid.push((MessagePartType::Emote, None, Some(ev[o.2]))));
        }
        let end_at = end as usize;
        index = if end_at == usize::MAX {
            usize::MAX
        } else {
            end_at + 1
        };
        i = i + 1;
    }
    proof {
        assert(os.take(i as int) =~= os);
    }
    if index < total {
        match crate::text::byte_slice_of(&v, &offs, index, total) {
            Some(content) => {
                let ghost before = Seq::new(parts@.len(), |k: int| parts@[k]@);
                parts.push(text_part(content));
                proof {
                    assert(Seq::new(parts@.len(), |k: int| parts@[k]@) =~= before.push(
                        (MessagePartType::Text, byte_slice(v@, index as int, total as int), None),
                    ));
                }
            },
            None => {},
        }
    }
    parts
}

impl OverlayMessage {
    /// The overlay message for a chat message: the message and its parts.
    pub fn from_chat_message(message: NormalizedChatMessage) -> (r: Self)
        ensures
            r matches OverlayMessage::ChatMessage { data } && data.message == message && Seq::new(
                data.parts@.len(),
                |k: int| data.parts@[k]@,
            ) == message_parts(message.text@, message@.5),
    {
        let parts = build_message_parts(&message);
        OverlayMessage::ChatMessage { data: Box::new(OverlayChatMessage { message, parts }) }
    }
}

} // verus!
