//! The layout of the watched-channels view: a tree of splits and panels. The share of room a
//! node takes (its `flex`) is kept as the bit pattern of the `f64` (`f64::to_bits`).
use crate::app_state::{drop_split, pane_drop_split_direction, PaneDropDirection};
use crate::protocol::types::{PanelContent, SplitDirection};
use crate::text::{owned, str_eq};
use vstd::prelude::*;

verus! {

/// A node of a layout tree: a split holding children side by side, or a panel.
#[derive(Debug, PartialEq)]
pub enum LayoutNode {
    Split {
        id: String,
        direction: SplitDirection,
        children: Vec<LayoutNode>,
        flex_bits: u64,
        min_size_bits: Option<u64>,
    },
    Panel { id: String, content: PanelContent, flex_bits: u64 },
}

/// What a panel shows, as a view.
pub enum ContentView {
    Main,
    Watched(Seq<char>),
    Empty,
}

/// The view of a panel's content.
pub open spec fn content_view(c: PanelContent) -> ContentView {
    match c {
        PanelContent::Main => ContentView::Main,
        PanelContent::Watched { channel_id } => ContentView::Watched(channel_id@),
        PanelContent::Empty => ContentView::Empty,
    }
}

/// A layout tree as a view.
pub enum LayoutView {
    Split {
        id: Seq<char>,
        direction: SplitDirection,
        children: Seq<LayoutView>,
        flex_bits: u64,
        min_size_bits: Option<u64>,
    },
    Panel { id: Seq<char>, content: ContentView, flex_bits: u64 },
}

/// The view of a layout tree.
pub open spec fn layout_view(n: LayoutNode) -> LayoutView
    decreases n,
{
    match n {
        LayoutNode::Split { id, direction, children, flex_bits, min_size_bits } => LayoutView::Split {
            id: id@,
            direction,
            children: views_of(children@),
            flex_bits,
            min_size_bits,
        },
        LayoutNode::Panel { id, content, flex_bits } => LayoutView::Panel {
            id: id@,
            content: content_view(content),
            flex_bits,
        },
    }
}

/// The views of a list of layout trees.
pub open spec fn views_of(s: Seq<LayoutNode>) -> Seq<LayoutView>
    decreases s,
{
    if s.len() == 0 {
        Seq::empty()
    } else {
        seq![layout_view(s[0])] + views_of(s.subrange(1, s.len() as int))
    }
}

impl View for LayoutNode {
    type V = LayoutView;

    open spec fn view(&self) -> LayoutView {
        layout_view(*self)
    }
}

proof fn lemma_views_of(s: Seq<LayoutNode>)
    ensures
        views_of(s).len() == s.len(),
        forall|i: int| 0 <= i < s.len() ==> #[trigger] views_of(s)[i] == layout_view(s[i]),
    decreases s.len(),
{
    if s.len() > 0 {
        let rest = s.subrange(1, s.len() as int);
        lemma_views_of(rest);
        assert forall|i: int| 0 <= i < s.len() implies #[trigger] views_of(s)[i] == layout_view(s[i]) by {
            if i > 0 {
                assert(views_of(s)[i] == views_of(rest)[i - 1]);
                assert(rest[i - 1] == s[i]);
            }
        }
    }
}

/// The number of panels of a tree.
pub open spec fn panel_count(v: LayoutView) -> nat
    decreases v,
{
    match v {
        LayoutView::Panel { .. } => 1,
        LayoutView::Split { children, .. } => panels_in(children),
    }
}

/// The number of panels of a list of trees.
pub open spec fn panels_in(s: Seq<LayoutView>) -> nat
    decreases s,
{
    if s.len() == 0 {
        0
    } else {
        panel_count(s[0]) + panels_in(s.subrange(1, s.len() as int))
    }
}

proof fn lemma_panels_in_push(s: Seq<LayoutView>, x: LayoutView)
    ensures
        panels_in(s.push(x)) == panels_in(s) + panel_count(x),
    decreases s.len(),
{
    reveal_with_fuel(collapses_in, 2);
    if s.len() == 0 {
        assert(s.push(x).subrange(1, 1) =~= Seq::<LayoutView>::empty());
        assert(s.push(x)[0] == x);
        assert(panels_in(Seq::<LayoutView>::empty()) == 0);
    } else {
        let rest = s.subrange(1, s.len() as int);
        lemma_panels_in_push(rest, x);
        assert(s.push(x).subrange(1, s.len() as int + 1) =~= rest.push(x));
        assert(s.push(x)[0] == s[0]);
    }
}

proof fn lemma_panels_in_prefix(s: Seq<LayoutView>, i: int)
    requires
        0 <= i <= s.len(),
    ensures
        panels_in(s.take(i)) <= panels_in(s),
    decreases s.len() - i,
{
    if i < s.len() {
        lemma_panels_in_prefix(s, i + 1);
        assert(s.take(i + 1) =~= s.take(i).push(s[i]));
        lemma_panels_in_push(s.take(i), s[i]);
    } else {
        assert(s.take(i) =~= s);
    }
}

/// Every element of `v` lies strictly inside the node it belongs to, for termination.
proof fn lemma_children_decrease(node: &LayoutNode)
    requires
        node is Split,
    ensures
        forall|j: int| 0 <= j < node->children@.len() ==> decreases_to!(*node => node->children@[j]),
{
    assert(decreases_to!(*node => node->children));
    assert forall|j: int| 0 <= j < node->children@.len() implies decreases_to!(*node => node->children@[j]) by {
        assert(decreases_to!(node->children => node->children@[j]));
    }
}

/// The number of panels of a layout.
pub fn count_layout_panels(node: &LayoutNode) -> (r: usize)
    requires
        panel_count(node@) <= usize::MAX,
    ensures
        r == panel_count(node@),
    decreases node,
{
    match node {
        LayoutNode::Panel { .. } => 1,
        LayoutNode::Split { children, .. } => {
            proof {
                lemma_children_decrease(node);
                lemma_views_of(children@);
            }
            let ghost vs = views_of(children@);
            let mut total: usize = 0;
            let mut i: usize = 0;
            assert(vs.take(0) =~= Seq::<LayoutView>::empty());
            while i < children.len()
                invariant
                    i <= children@.len(),
                    vs == views_of(children@),
                    vs.len() == children@.len(),
                    forall|j: int| 0 <= j < children@.len() ==> #[trigger] vs[j] == layout_view(children@[j]),
                    forall|j: int| 0 <= j < children@.len() ==> decreases_to!(*node => children@[j]),
                    panels_in(vs) <= usize::MAX,
                    total == panels_in(vs.take(i as int)),
                decreases children@.len() - i,
            {
                proof {
                    assert(vs.take(i + 1) =~= vs.take(i as int).push(vs[i as int]));
                    lemma_panels_in_push(vs.take(i as int), vs[i as int]);
                    lemma_panels_in_prefix(vs, i + 1);
                }
                let c = count_layout_panels(&children[i]);
                total = total + c;
                i = i + 1;
            }
            proof {
                assert(vs.take(i as int) =~= vs);
            }
            total
        },
    }
}

/// The channels of the watched panels of a tree, in order.
pub open spec fn watched_ids(v: LayoutView) -> Seq<Seq<char>>
    decreases v,
{
    match v {
        LayoutView::Panel { content, .. } => match content {
            ContentView::Watched(c) => seq![c],
            _ => Seq::empty(),
        },
        LayoutView::Split { children, .. } => watched_ids_in(children),
    }
}

/// The channels of the watched panels of a list of trees, in order.
pub open spec fn watched_ids_in(s: Seq<LayoutView>) -> Seq<Seq<char>>
    decreases s,
{
    if s.len() == 0 {
        Seq::empty()
    } else {
        watched_ids(s[0]) + watched_ids_in(s.subrange(1, s.len() as int))
    }
}

proof fn lemma_watched_ids_in_push(s: Seq<LayoutView>, x: LayoutView)
    ensures
        watched_ids_in(s.push(x)) == watched_ids_in(s) + watched_ids(x),
    decreases s.len(),
{
    reveal_with_fuel(collapses_in, 2);
    if s.len() == 0 {
        assert(s.push(x).subrange(1, 1) =~= Seq::<LayoutView>::empty());
        assert(s.push(x)[0] == x);
        assert(watched_ids_in(Seq::<LayoutView>::empty()) =~= Seq::<Seq<char>>::empty());
        assert(watched_ids(x) + Seq::<Seq<char>>::empty() =~= watched_ids(x));
        assert(Seq::<Seq<char>>::empty() + watched_ids(x) =~= watched_ids(x));
    } else {
        let rest = s.subrange(1, s.len() as int);
        lemma_watched_ids_in_push(rest, x);
        assert(s.push(x).subrange(1, s.len() as int + 1) =~= rest.push(x));
        assert(s.push(x)[0] == s[0]);
        assert(watched_ids(s[0]) + (watched_ids_in(rest) + watched_ids(x)) =~= (watched_ids(s[0]) + watched_ids_in(rest)) + watched_ids(x));
    }
}

/// Appends to `ids` the channels of the watched panels of the tree, in order.
pub fn collect_watched_channel_ids(node: &LayoutNode, ids: &mut Vec<String>)
    ensures
        crate::text::strings_view(final(ids)@) == crate::text::strings_view(old(ids)@) + watched_ids(node@),
    decreases node,
{
    match node {
        LayoutNode::Panel { content, .. } => match content {
            PanelContent::Watched { channel_id } => {
                let ghost before = ids@;
                ids.push(channel_id.clone());
                proof {
                    assert(crate::text::strings_view(ids@) =~= crate::text::strings_view(before) + seq![channel_id@]);
                }
            },
            _ => {
                assert(crate::text::strings_view(ids@) =~= crate::text::strings_view(ids@) + Seq::<Seq<char>>::empty());
            },
        },
        LayoutNode::Split { children, .. } => {
            proof {
                lemma_children_decrease(node);
                lemma_views_of(children@);
            }
            let ghost vs = views_of(children@);
            let ghost start = crate::text::strings_view(ids@);
            let mut i: usize = 0;
            assert(vs.take(0) =~= Seq::<LayoutView>::empty());
            assert(start + watched_ids_in(Seq::<LayoutView>::empty()) =~= start);
            while i < children.len()
                invariant
                    i <= children@.len(),
                    vs == views_of(children@),
                    vs.len() == children@.len(),
                    forall|j: int| 0 <= j < children@.len() ==> #[trigger] vs[j] == layout_view(children@[j]),
                    forall|j: int| 0 <= j < children@.len() ==> decreases_to!(*node => children@[j]),
                    crate::text::strings_view(ids@) == start + watched_ids_in(vs.take(i as int)),
                decreases children@.len() - i,
            {
                proof {
                    assert(vs.take(i + 1) =~= vs.take(i as int).push(vs[i as int]));
                    lemma_watched_ids_in_push(vs.take(i as int), vs[i as int]);
                }
                collect_watched_channel_ids(&children[i], ids);
                proof {
                    assert(start + watched_ids_in(vs.take(i + 1)) =~= (start + watched_ids_in(vs.take(i as int))) + watched_ids(vs[i as int]));
                }
                i = i + 1;
            }
            proof {
                assert(vs.take(i as int) =~= vs);
            }
        },
    }
}

/// The channel of the watched panel `panel_id`, the first found in order.
pub open spec fn panel_channel(v: LayoutView, panel_id: Seq<char>) -> Option<Seq<char>>
    decreases v,
{
    match v {
        LayoutView::Panel { id, content, .. } => match content {
            ContentView::Watched(c) => if id == panel_id {
                Some(c)
            } else {
                None
            },
            _ => None,
        },
        LayoutView::Split { children, .. } => panel_channel_in(children, panel_id),
    }
}

/// The first channel found by [`panel_channel`] in a list of trees.
pub open spec fn panel_channel_in(s: Seq<LayoutView>, panel_id: Seq<char>) -> Option<Seq<char>>
    decreases s,
{
    if s.len() == 0 {
        None
    } else {
        match panel_channel(s[0], panel_id) {
            Some(c) => Some(c),
            None => panel_channel_in(s.subrange(1, s.len() as int), panel_id),
        }
    }
}

/// The channel shown by the watched panel `panel_id` ([`panel_channel`]).
pub fn panel_watched_channel_id(node: &LayoutNode, panel_id: &str) -> (r: Option<String>)
    ensures
        crate::protocol::types::opt_seq(r) == panel_channel(node@, panel_id@),
    decreases node,
{
    match node {
        LayoutNode::Panel { id, content, .. } => match content {
            PanelContent::Watched { channel_id } => if str_eq(id.as_str(), panel_id) {
                Some(channel_id.clone())
            } else {
                None
            },
            _ => None,
        },
        LayoutNode::Split { children, .. } => {
            proof {
                lemma_children_decrease(node);
                lemma_views_of(children@);
            }
            let ghost vs = views_of(children@);
            let mut i: usize = 0;
            assert(vs.skip(0) =~= vs);
            while i < children.len()
                invariant
                    i <= children@.len(),
                    vs == views_of(children@),
                    vs.len() == children@.len(),
                    forall|j: int| 0 <= j < children@.len() ==> #[trigger] vs[j] == layout_view(children@[j]),
                    forall|j: int| 0 <= j < children@.len() ==> decreases_to!(*node => children@[j]),
                    panel_channel_in(vs, panel_id@) == panel_channel_in(vs.skip(i as int), panel_id@),
                    panel_channel(node@, panel_id@) == panel_channel_in(vs, panel_id@),
                decreases children@.len() - i,
            {
                proof {
                    assert(vs.skip(i as int)[0] == vs[i as int]);
                    assert(vs.skip(i as int).subrange(1, vs.skip(i as int).len() as int) =~= vs.skip(i + 1));
                }
                let found = panel_watched_channel_id(&children[i], panel_id);
                if found.is_some() {
                    proof {
                        assert(panel_channel(vs[i as int], panel_id@) is Some);
                        assert(panel_channel_in(vs.skip(i as int), panel_id@) == panel_channel(vs[i as int], panel_id@));
                    }
                    return found;
                }
                i = i + 1;
            }
            proof {
                assert(vs.skip(i as int) =~= Seq::<LayoutView>::empty());
            }
            None
        },
    }
}

/// Some watched panel of the tree shows the channel `channel_id`.
pub open spec fn shows_channel(v: LayoutView, channel_id: Seq<char>) -> bool
    decreases v,
{
    match v {
        LayoutView::Panel { content, .. } => content matches ContentView::Watched(c) && c == channel_id,
        LayoutView::Split { children, .. } => shows_channel_in(children, channel_id),
    }
}

/// Some tree of the list shows the channel ([`shows_channel`]).
pub open spec fn shows_channel_in(s: Seq<LayoutView>, channel_id: Seq<char>) -> bool
    decreases s,
{
    if s.len() == 0 {
        false
    } else {
        shows_channel(s[0], channel_id) || shows_channel_in(s.subrange(1, s.len() as int), channel_id)
    }
}

/// Whether some watched panel of the layout shows the channel ([`shows_channel`]).
pub fn layout_contains_watched_channel(node: &LayoutNode, channel_id: &str) -> (r: bool)
    ensures
        r == shows_channel(node@, channel_id@),
    decreases node,
{
    match node {
        LayoutNode::Panel { content, .. } => match content {
            PanelContent::Watched { channel_id: id } => str_eq(id.as_str(), channel_id),
            _ => false,
        },
        LayoutNode::Split { children, .. } => {
            proof {
                lemma_children_decrease(node);
                lemma_views_of(children@);
            }
            let ghost vs = views_of(children@);
            let mut i: usize = 0;
            assert(vs.skip(0) =~= vs);
            while i < children.len()
                invariant
                    i <= children@.len(),
                    vs == views_of(children@),
                    vs.len() == children@.len(),
                    forall|j: int| 0 <= j < children@.len() ==> #[trigger] vs[j] == layout_view(children@[j]),
                    forall|j: int| 0 <= j < children@.len() ==> decreases_to!(*node => children@[j]),
                    shows_channel_in(vs, channel_id@) == shows_channel_in(vs.skip(i as int), channel_id@),
                    shows_channel(node@, channel_id@) == shows_channel_in(vs, channel_id@),
                decreases children@.len() - i,
            {
                proof {
                    assert(vs.skip(i as int)[0] == vs[i as int]);
                    assert(vs.skip(i as int).subrange(1, vs.skip(i as int).len() as int) =~= vs.skip(i + 1));
                }
                if layout_contains_watched_channel(&children[i], channel_id) {
                    return true;
                }
                i = i + 1;
            }
            proof {
                assert(vs.skip(i as int) =~= Seq::<LayoutView>::empty());
            }
            false
        },
    }
}

/// Whether the panel `panel_id` is the main panel, for the first panel with that id in order;
/// `None` when there is none.
pub open spec fn panel_main(v: LayoutView, panel_id: Seq<char>) -> Option<bool>
    decreases v,
{
    match v {
        LayoutView::Panel { id, content, .. } => if id == panel_id {
            Some(content is Main)
        } else {
            None
        },
        LayoutView::Split { children, .. } => panel_main_in(children, panel_id),
    }
}

/// The first answer of [`panel_main`] in a list of trees.
pub open spec fn panel_main_in(s: Seq<LayoutView>, panel_id: Seq<char>) -> Option<bool>
    decreases s,
{
    if s.len() == 0 {
        None
    } else {
        match panel_main(s[0], panel_id) {
            Some(b) => Some(b),
            None => panel_main_in(s.subrange(1, s.len() as int), panel_id),
        }
    }
}

/// Whether the panel `panel_id` is the main panel ([`panel_main`]).
pub fn panel_is_main(node: &LayoutNode, panel_id: &str) -> (r: Option<bool>)
    ensures
        r == panel_main(node@, panel_id@),
    decreases node,
{
    match node {
        LayoutNode::Panel { id, content, .. } => if str_eq(id.as_str(), panel_id) {
            Some(
                match content {
                    PanelContent::Main => true,
                    _ => false,
                },
            )
        } else {
            None
        },
        LayoutNode::Split { children, .. } => {
            proof {
                lemma_children_decrease(node);
                lemma_views_of(children@);
            }
            let ghost vs = views_of(children@);
            let mut i: usize = 0;
            assert(vs.skip(0) =~= vs);
            while i < children.len()
                invariant
                    i <= children@.len(),
                    vs == views_of(children@),
                    vs.len() == children@.len(),
                    forall|j: int| 0 <= j < children@.len() ==> #[trigger] vs[j] == layout_view(children@[j]),
                    forall|j: int| 0 <= j < children@.len() ==> decreases_to!(*node => children@[j]),
                    panel_main_in(vs, panel_id@) == panel_main_in(vs.skip(i as int), panel_id@),
                    panel_main(node@, panel_id@) == panel_main_in(vs, panel_id@),
                decreases children@.len() - i,
            {
                proof {
                    assert(vs.skip(i as int)[0] == vs[i as int]);
                    assert(vs.skip(i as int).subrange(1, vs.skip(i as int).len() as int) =~= vs.skip(i + 1));
                }
                let found = panel_is_main(&children[i], panel_id);
                if found.is_some() {
                    return found;
                }
                i = i + 1;
            }
            proof {
                assert(vs.skip(i as int) =~= Seq::<LayoutView>::empty());
            }
            None
        },
    }
}

/// The node with its children replaced.
pub open spec fn with_children(v: LayoutView, children: Seq<LayoutView>) -> LayoutView {
    match v {
        LayoutView::Split { id, direction, flex_bits, min_size_bits, .. } => LayoutView::Split {
            id,
            direction,
            children,
            flex_bits,
            min_size_bits,
        },
        _ => v,
    }
}

/// The first of `s` that is a panel with the id `panel_id`.
pub open spec fn direct_panel_index(s: Seq<LayoutView>, panel_id: Seq<char>) -> Option<int>
    decreases s.len(),
{
    if s.len() == 0 {
        None
    } else {
        match direct_panel_index(s.drop_last(), panel_id) {
            Some(k) => Some(k),
            None => if s.last() matches LayoutView::Panel { id, .. } && id == panel_id {
                Some(s.len() - 1)
            } else {
                None
            },
        }
    }
}

/// Takes the panel `panel_id` out of the tree: from a split's own children first (the first
/// such panel), else from its children's subtrees in order (the first that has one). Gives the
/// panel taken, if any, and the tree after.
pub open spec fn take_panel(v: LayoutView, panel_id: Seq<char>) -> (Option<LayoutView>, LayoutView)
    decreases v,
{
    match v {
        LayoutView::Panel { .. } => (None, v),
        LayoutView::Split { children, .. } => match direct_panel_index(children, panel_id) {
            Some(k) => (Some(children[k]), with_children(v, children.remove(k))),
            None => {
                let t = take_panel_in(children, panel_id);
                (t.0, with_children(v, t.1))
            },
        },
    }
}

/// [`take_panel`] on the first tree of the list that gives a panel.
pub open spec fn take_panel_in(s: Seq<LayoutView>, panel_id: Seq<char>) -> (Option<LayoutView>, Seq<LayoutView>)
    decreases s,
{
    if s.len() == 0 {
        (None, s)
    } else {
        let first = take_panel(s[0], panel_id);
        if first.0 is Some {
            (first.0, seq![first.1] + s.subrange(1, s.len() as int))
        } else {
            let rest = take_panel_in(s.subrange(1, s.len() as int), panel_id);
            (rest.0, seq![first.1] + rest.1)
        }
    }
}

proof fn lemma_direct_panel_index(s: Seq<LayoutView>, panel_id: Seq<char>)
    ensures
        match direct_panel_index(s, panel_id) {
            Some(k) => 0 <= k < s.len() && (s[k] matches LayoutView::Panel { id, .. } && id == panel_id) && forall|j: int|
                0 <= j < k ==> !(#[trigger] s[j] matches LayoutView::Panel { id, .. } && id == panel_id),
            None => forall|j: int| 0 <= j < s.len() ==> !(#[trigger] s[j] matches LayoutView::Panel { id, .. } && id == panel_id),
        },
    decreases s.len(),
{
    if s.len() > 0 {
        lemma_direct_panel_index(s.drop_last(), panel_id);
        let p = s.drop_last();
        assert forall|j: int| 0 <= j < p.len() implies s[j] == p[j] by {}
    }
}

/// The view of the optional node.
pub open spec fn opt_layout_view(n: Option<LayoutNode>) -> Option<LayoutView> {
    match n {
        Some(x) => Some(layout_view(x)),
        None => None,
    }
}

/// Whether `n` is a panel with the id `panel_id`.
fn is_panel_with_id(n: &LayoutNode, panel_id: &str) -> (r: bool)
    ensures
        r == (n@ matches LayoutView::Panel { id, .. } && id == panel_id@),
{
    match n {
        LayoutNode::Panel { id, .. } => str_eq(id.as_str(), panel_id),
        _ => false,
    }
}

/// Takes the panel `panel_id` out of the layout ([`take_panel`]).
#[verifier::loop_isolation(false)]
pub fn take_panel_from_layout(root: &mut LayoutNode, panel_id: &str) -> (r: Option<LayoutNode>)
    ensures
        (opt_layout_view(r), final(root)@) == take_panel(old(root)@, panel_id@),
    decreases old(root)@,
{
    match root {
        LayoutNode::Panel { .. } => None,
        LayoutNode::Split { children, .. } => {
            let ghost vs = views_of(children@);
            proof {
                lemma_views_of(children@);
                lemma_direct_panel_index(vs, panel_id@);
            }
            let mut k: usize = 0;
            while k < children.len()
                invariant
                    k <= children@.len(),
                    vs == views_of(children@),
                    vs.len() == children@.len(),
                    forall|j: int| 0 <= j < children@.len() ==> #[trigger] vs[j] == layout_view(children@[j]),
                    forall|j: int| 0 <= j < k ==> !(#[trigger] vs[j] matches LayoutView::Panel { id, .. } && id == panel_id@),
                decreases children@.len() - k,
            {
                if is_panel_with_id(&children[k], panel_id) {
                    break;
                }
                k = k + 1;
            }
            if k < children.len() {
                proof {
                    match direct_panel_index(vs, panel_id@) {
                        Some(k2) => {
                            if k2 < k {
                                assert(!(vs[k2] matches LayoutView::Panel { id, .. } && id == panel_id@));
                            }
                            if k2 > k {
                                assert(!(vs[k as int] matches LayoutView::Panel { id, .. } && id == panel_id@));
                            }
                        },
                        None => {
                            assert(!(vs[k as int] matches LayoutView::Panel { id, .. } && id == panel_id@));
                        },
                    }
                    assert(direct_panel_index(vs, panel_id@) == Some(k as int));
                }
                let taken = children.remove(k);
                proof {
                    lemma_views_of(children@);
                    assert(views_of(children@) =~= vs.remove(k as int));
                    assert(take_panel(old(root)@, panel_id@) == (Some(vs[k as int]), with_children(old(root)@, vs.remove(k as int))));
                }
                return Some(taken);
            }
            proof {
                assert(direct_panel_index(vs, panel_id@) is None);
                assert(old(root)@ matches LayoutView::Split { children: c, .. } && c == vs);
                assert forall|j: int| 0 <= j < vs.len() implies decreases_to!(old(root)@ => vs[j]) by {
                    assert(decreases_to!(old(root)@ => old(root)@->children));
                    assert(decreases_to!(old(root)@->children => old(root)@->children[j]));
                }
                assert(take_panel_in(vs, panel_id@) == (take_panel_in(vs.skip(0), panel_id@).0, vs.take(0) + take_panel_in(vs.skip(0), panel_id@).1)) by {
                    assert(vs.skip(0) =~= vs);
                    assert(vs.take(0) + take_panel_in(vs, panel_id@).1 =~= take_panel_in(vs, panel_id@).1);
                }
            }
            let mut i: usize = 0;
            while i < children.len()
                invariant
                    i <= children@.len(),
                    vs.len() == children@.len(),
                    views_of(children@) == vs,
                    forall|j: int| 0 <= j < children@.len() ==> #[trigger] vs[j] == layout_view(children@[j]),
                    forall|j: int| 0 <= j < vs.len() ==> decreases_to!(old(root)@ => vs[j]),
                    take_panel(old(root)@, panel_id@) == (take_panel_in(vs, panel_id@).0, with_children(old(root)@, take_panel_in(vs, panel_id@).1)),
                    take_panel_in(vs, panel_id@) == (take_panel_in(vs.skip(i as int), panel_id@).0, vs.take(i as int)
                        + take_panel_in(vs.skip(i as int), panel_id@).1),
                decreases children@.len() - i,
            {
                let ghost before = children@;
                proof {
                    let rest = vs.skip(i as int);
                    assert(rest[0] == vs[i as int]);
                    assert(rest.subrange(1, rest.len() as int) =~= vs.skip(i + 1));
                }
                let found = take_panel_from_layout(&mut children[i], panel_id);
                if found.is_some() {
                    proof {
                        let nv = take_panel(vs[i as int], panel_id@).1;
                        lemma_views_of(children@);
                        assert(children@ == before.update(i as int, children@[i as int]));
                        assert(views_of(children@) =~= vs.take(i as int) + (seq![nv] + vs.skip(i + 1)));
                        let rest = vs.skip(i as int);
                        assert(take_panel_in(rest, panel_id@) == (take_panel(vs[i as int], panel_id@).0, seq![nv] + vs.skip(i + 1)));
                        assert(take_panel(old(root)@, panel_id@) == (opt_layout_view(found), with_children(old(root)@, views_of(children@))));
                    }
                    return found;
                }
                proof {
                    lemma_take_none(vs[i as int], panel_id@);
                    lemma_views_of(children@);
                    assert(views_of(children@) =~= vs);
                    assert(vs.take(i + 1) =~= vs.take(i as int) + seq![vs[i as int]]);
                    let r1 = take_panel_in(vs.skip(i + 1), panel_id@);
                    assert(vs.take(i as int) + (seq![vs[i as int]] + r1.1) =~= vs.take(i + 1) + r1.1);
                }
                i = i + 1;
            }
            proof {
                assert(vs.skip(i as int) =~= Seq::<LayoutView>::empty());
                assert(vs.take(i as int) + Seq::<LayoutView>::empty() =~= vs);
            }
            None
        },
    }
}

proof fn lemma_take_none(v: LayoutView, panel_id: Seq<char>)
    ensures
        take_panel(v, panel_id).0 is None ==> take_panel(v, panel_id).1 == v,
    decreases v,
{
    match v {
        LayoutView::Split { children, .. } => {
            if direct_panel_index(children, panel_id) is None {
                lemma_take_in_none(children, panel_id);
            }
        },
        _ => {},
    }
}

proof fn lemma_take_in_none(s: Seq<LayoutView>, panel_id: Seq<char>)
    ensures
        take_panel_in(s, panel_id).0 is None ==> take_panel_in(s, panel_id).1 == s,
    decreases s,
{
    if s.len() > 0 {
        lemma_take_none(s[0], panel_id);
        let rest = s.subrange(1, s.len() as int);
        lemma_take_in_none(rest, panel_id);
        assert(seq![s[0]] + rest =~= s);
    }
}

/// Shows the channel `channel_id` in the panel `panel_id`: the first such panel in order. Gives
/// whether there was one, and the tree after.
pub open spec fn assign(v: LayoutView, panel_id: Seq<char>, channel_id: Seq<char>) -> (bool, LayoutView)
    decreases v,
{
    match v {
        LayoutView::Panel { id, flex_bits, .. } => if id == panel_id {
            (true, LayoutView::Panel { id, content: ContentView::Watched(channel_id), flex_bits })
        } else {
            (false, v)
        },
        LayoutView::Split { children, .. } => {
            let t = assign_in(children, panel_id, channel_id);
            (t.0, with_children(v, t.1))
        },
    }
}

/// [`assign`] on the first tree of the list that has the panel.
pub open spec fn assign_in(s: Seq<LayoutView>, panel_id: Seq<char>, channel_id: Seq<char>) -> (bool, Seq<LayoutView>)
    decreases s,
{
    if s.len() == 0 {
        (false, s)
    } else {
        let first = assign(s[0], panel_id, channel_id);
        if first.0 {
            (true, seq![first.1] + s.subrange(1, s.len() as int))
        } else {
            let rest = assign_in(s.subrange(1, s.len() as int), panel_id, channel_id);
            (rest.0, seq![first.1] + rest.1)
        }
    }
}

proof fn lemma_assign_none(v: LayoutView, panel_id: Seq<char>, channel_id: Seq<char>)
    ensures
        !assign(v, panel_id, channel_id).0 ==> assign(v, panel_id, channel_id).1 == v,
    decreases v,
{
    match v {
        LayoutView::Split { children, .. } => {
            lemma_assign_in_none(children, panel_id, channel_id);
        },
        _ => {},
    }
}

proof fn lemma_assign_in_none(s: Seq<LayoutView>, panel_id: Seq<char>, channel_id: Seq<char>)
    ensures
        !assign_in(s, panel_id, channel_id).0 ==> assign_in(s, panel_id, channel_id).1 == s,
    decreases s,
{
    if s.len() > 0 {
        lemma_assign_none(s[0], panel_id, channel_id);
        let rest = s.subrange(1, s.len() as int);
        lemma_assign_in_none(rest, panel_id, channel_id);
        assert(seq![s[0]] + rest =~= s);
    }
}

/// Shows the channel `channel_id` in the panel `panel_id` ([`assign`]); `false` when the layout
/// has no such panel.
#[verifier::loop_isolation(false)]
pub fn assign_channel_to_panel(root: &mut LayoutNode, panel_id: &str, channel_id: &str) -> (r: bool)
    ensures
        (r, final(root)@) == assign(old(root)@, panel_id@, channel_id@),
    decreases old(root)@,
{
    match root {
        LayoutNode::Panel { id, content, .. } => {
            if !str_eq(id.as_str(), panel_id) {
                return false;
            }
            *content = PanelContent::Watched { channel_id: owned(channel_id) };
            true
        },
        LayoutNode::Split { children, .. } => {
            let ghost vs = views_of(children@);
            proof {
                lemma_views_of(children@);
                assert forall|j: int| 0 <= j < vs.len() implies decreases_to!(old(root)@ => vs[j]) by {
                    assert(decreases_to!(old(root)@ => old(root)@->children));
                    assert(decreases_to!(old(root)@->children => old(root)@->children[j]));
                }
                assert(vs.skip(0) =~= vs);
                assert(vs.take(0) + assign_in(vs, panel_id@, channel_id@).1 =~= assign_in(vs, panel_id@, channel_id@).1);
            }
            let mut i: usize = 0;
            while i < children.len()
                invariant
                    i <= children@.len(),
                    vs.len() == children@.len(),
                    views_of(children@) == vs,
                    forall|j: int| 0 <= j < children@.len() ==> #[trigger] vs[j] == layout_view(children@[j]),
                    forall|j: int| 0 <= j < vs.len() ==> decreases_to!(old(root)@ => vs[j]),
                    assign_in(vs, panel_id@, channel_id@) == (assign_in(vs.skip(i as int), panel_id@, channel_id@).0, vs.take(
                        i as int,
                    ) + assign_in(vs.skip(i as int), panel_id@, channel_id@).1),
                decreases children@.len() - i,
            {
                let ghost before = children@;
                proof {
                    let rest = vs.skip(i as int);
                    assert(rest[0] == vs[i as int]);
                    assert(rest.subrange(1, rest.len() as int) =~= vs.skip(i + 1));
                }
                if assign_channel_to_panel(&mut children[i], panel_id, channel_id) {
                    proof {
                        let nv = assign(vs[i as int], panel_id@, channel_id@).1;
                        lemma_views_of(children@);
                        assert(children@ == before.update(i as int, children@[i as int]));
                        assert(views_of(children@) =~= vs.take(i as int) + (seq![nv] + vs.skip(i + 1)));
                    }
                    return true;
                }
                proof {
                    lemma_assign_none(vs[i as int], panel_id@, channel_id@);
                    lemma_views_of(children@);
                    assert(views_of(children@) =~= vs);
                    assert(vs.take(i + 1) =~= vs.take(i as int) + seq![vs[i as int]]);
                    let r1 = assign_in(vs.skip(i + 1), panel_id@, channel_id@);
                    assert(vs.take(i as int) + (seq![vs[i as int]] + r1.1) =~= vs.take(i + 1) + r1.1);
                }
                i = i + 1;
            }
            proof {
                assert(vs.skip(i as int) =~= Seq::<LayoutView>::empty());
                assert(vs.take(i as int) + Seq::<LayoutView>::empty() =~= vs);
            }
            false
        },
    }
}

/// The share of room a node takes, as `f64` bits.
pub open spec fn flex_of(v: LayoutView) -> u64 {
    match v {
        LayoutView::Split { flex_bits, .. } => flex_bits,
        LayoutView::Panel { flex_bits, .. } => flex_bits,
    }
}

/// The node with its share of room set to `bits`.
pub open spec fn with_flex(v: LayoutView, bits: u64) -> LayoutView {
    match v {
        LayoutView::Split { id, direction, children, min_size_bits, .. } => LayoutView::Split {
            id,
            direction,
            children,
            flex_bits: bits,
            min_size_bits,
        },
        LayoutView::Panel { id, content, .. } => LayoutView::Panel { id, content, flex_bits: bits },
    }
}

/// The share of room the node takes ([`flex_of`]).
pub fn layout_flex(node: &LayoutNode) -> (r: u64)
    ensures
        r == flex_of(node@),
{
    match node {
        LayoutNode::Panel { flex_bits, .. } => *flex_bits,
        LayoutNode::Split { flex_bits, .. } => *flex_bits,
    }
}

/// Sets the share of room the node takes ([`with_flex`]).
pub fn set_layout_flex(node: &mut LayoutNode, flex_bits: u64)
    ensures
        final(node)@ == with_flex(old(node)@, flex_bits),
{
    match node {
        LayoutNode::Panel { flex_bits: node_flex, .. } => {
            *node_flex = flex_bits;
        },
        LayoutNode::Split { flex_bits: node_flex, .. } => {
            *node_flex = flex_bits;
        },
    }
}

proof fn lemma_panels_in_concat(a: Seq<LayoutView>, b: Seq<LayoutView>)
    ensures
        panels_in(a + b) == panels_in(a) + panels_in(b),
    decreases a.len(),
{
    if a.len() == 0 {
        assert(a + b =~= b);
    } else {
        let rest = a.subrange(1, a.len() as int);
        lemma_panels_in_concat(rest, b);
        assert((a + b).subrange(1, (a + b).len() as int) =~= rest + b);
        assert((a + b)[0] == a[0]);
    }
}

proof fn lemma_panels_in_cons(x: LayoutView, s: Seq<LayoutView>)
    ensures
        panels_in(seq![x] + s) == panel_count(x) + panels_in(s),
{
    let t = seq![x] + s;
    assert(t[0] == x);
    assert(t.subrange(1, t.len() as int) =~= s);
}

proof fn lemma_panels_in_remove(s: Seq<LayoutView>, k: int)
    requires
        0 <= k < s.len(),
    ensures
        panels_in(s.remove(k)) + panel_count(s[k]) == panels_in(s),
{
    assert(s.remove(k) =~= s.take(k) + s.skip(k + 1));
    assert(s =~= s.take(k) + (seq![s[k]] + s.skip(k + 1)));
    lemma_panels_in_concat(s.take(k), s.skip(k + 1));
    lemma_panels_in_concat(s.take(k), seq![s[k]] + s.skip(k + 1));
    lemma_panels_in_cons(s[k], s.skip(k + 1));
}

/// Taking a panel out of a layout gives a panel with the id asked for, and leaves one panel
/// fewer in the layout.
pub proof fn taking_a_panel_removes_exactly_it(v: LayoutView, panel_id: Seq<char>)
    ensures
        match take_panel(v, panel_id).0 {
            Some(t) => (t matches LayoutView::Panel { id, .. } && id == panel_id) && panel_count(
                take_panel(v, panel_id).1,
            ) + 1 == panel_count(v),
            None => take_panel(v, panel_id).1 == v,
        },
    decreases v,
{
    lemma_take_none(v, panel_id);
    match v {
        LayoutView::Split { children, .. } => {
            lemma_direct_panel_index(children, panel_id);
            match direct_panel_index(children, panel_id) {
                Some(k) => {
                    lemma_panels_in_remove(children, k);
                },
                None => {
                    taking_from_a_list_removes_exactly_it(children, panel_id);
                },
            }
        },
        _ => {},
    }
}

/// [`taking_a_panel_removes_exactly_it`] for a list of trees.
pub proof fn taking_from_a_list_removes_exactly_it(s: Seq<LayoutView>, panel_id: Seq<char>)
    ensures
        match take_panel_in(s, panel_id).0 {
            Some(t) => (t matches LayoutView::Panel { id, .. } && id == panel_id) && panels_in(
                take_panel_in(s, panel_id).1,
            ) + 1 == panels_in(s),
            None => take_panel_in(s, panel_id).1 == s,
        },
    decreases s,
{
    lemma_take_in_none(s, panel_id);
    if s.len() > 0 {
        let rest = s.subrange(1, s.len() as int);
        taking_a_panel_removes_exactly_it(s[0], panel_id);
        taking_from_a_list_removes_exactly_it(rest, panel_id);
        lemma_panels_in_cons(take_panel(s[0], panel_id).1, rest);
        lemma_panels_in_cons(take_panel(s[0], panel_id).1, take_panel_in(rest, panel_id).1);
    }
}

proof fn lemma_assign_false_has_no_channel(v: LayoutView, panel_id: Seq<char>, channel_id: Seq<char>)
    ensures
        !assign(v, panel_id, channel_id).0 ==> panel_channel(v, panel_id) is None,
    decreases v,
{
    match v {
        LayoutView::Split { children, .. } => {
            lemma_assign_in_false_has_no_channel(children, panel_id, channel_id);
        },
        _ => {},
    }
}

proof fn lemma_assign_in_false_has_no_channel(s: Seq<LayoutView>, panel_id: Seq<char>, channel_id: Seq<char>)
    ensures
        !assign_in(s, panel_id, channel_id).0 ==> panel_channel_in(s, panel_id) is None,
    decreases s,
{
    if s.len() > 0 {
        lemma_assign_false_has_no_channel(s[0], panel_id, channel_id);
        lemma_assign_in_false_has_no_channel(s.subrange(1, s.len() as int), panel_id, channel_id);
    }
}

/// After a channel is shown in a panel, that panel reads back the channel; the number of panels
/// stays the same whether or not the panel was found.
pub proof fn assigned_channel_reads_back(v: LayoutView, panel_id: Seq<char>, channel_id: Seq<char>)
    ensures
        assign(v, panel_id, channel_id).0 ==> panel_channel(assign(v, panel_id, channel_id).1, panel_id)
            == Some(channel_id),
        panel_count(assign(v, panel_id, channel_id).1) == panel_count(v),
    decreases v,
{
    match v {
        LayoutView::Split { children, .. } => {
            assigned_channel_reads_back_in(children, panel_id, channel_id);
        },
        _ => {},
    }
}

/// [`assigned_channel_reads_back`] for a list of trees.
pub proof fn assigned_channel_reads_back_in(s: Seq<LayoutView>, panel_id: Seq<char>, channel_id: Seq<char>)
    ensures
        assign_in(s, panel_id, channel_id).0 ==> panel_channel_in(assign_in(s, panel_id, channel_id).1, panel_id)
            == Some(channel_id),
        panels_in(assign_in(s, panel_id, channel_id).1) == panels_in(s),
    decreases s,
{
    if s.len() > 0 {
        let rest = s.subrange(1, s.len() as int);
        let first = assign(s[0], panel_id, channel_id);
        assigned_channel_reads_back(s[0], panel_id, channel_id);
        assigned_channel_reads_back_in(rest, panel_id, channel_id);
        lemma_assign_none(s[0], panel_id, channel_id);
        lemma_assign_false_has_no_channel(s[0], panel_id, channel_id);
        if first.0 {
            let t = seq![first.1] + rest;
            assert(t[0] == first.1);
            lemma_panels_in_cons(first.1, rest);
        } else {
            let r = assign_in(rest, panel_id, channel_id);
            let t = seq![first.1] + r.1;
            assert(t[0] == first.1);
            assert(t.subrange(1, t.len() as int) =~= r.1);
            lemma_panels_in_cons(first.1, r.1);
        }
    }
}


/// The children of a split; none for a panel.
pub open spec fn split_children(v: LayoutView) -> Seq<LayoutView> {
    match v {
        LayoutView::Split { children, .. } => children,
        _ => Seq::empty(),
    }
}

/// Whether `t` is `s` with every node's share set to one value that `even_share` gives for a
/// split of `s.len()` children.
pub open spec fn rebalanced<F: Fn(usize) -> u64>(even_share: F, s: Seq<LayoutView>, t: Seq<LayoutView>) -> bool {
    &&& t.len() == s.len()
    &&& s.len() > 0 ==> call_ensures(even_share, (s.len() as usize,), flex_of(t[0]))
    &&& forall|i: int| 0 <= i < s.len() ==> #[trigger] t[i] == with_flex(s[i], flex_of(t[0]))
}

/// Gives every node of `children` the same share of room, `even_share` of their number.
pub fn rebalance_children<F: Fn(usize) -> u64>(children: &mut Vec<LayoutNode>, even_share: &F)
    requires
        forall|n: usize| call_requires(*even_share, (n,)),
    ensures
        rebalanced(*even_share, views_of(old(children)@), views_of(final(children)@)),
{
    let n = children.len();
    if n == 0 {
        proof {
            lemma_views_of(children@);
        }
        return;
    }
    let share = even_share(n);
    let ghost before = children@;
    let mut i: usize = 0;
    while i < n
        invariant
            n == children@.len(),
            n == before.len(),
            n > 0,
            i <= n,
            call_ensures(*even_share, (n,), share),
            forall|j: int| 0 <= j < i ==> #[trigger] layout_view(children@[j]) == with_flex(layout_view(before[j]), share),
            forall|j: int| i <= j < n ==> #[trigger] children@[j] == before[j],
        decreases n - i,
    {
        set_layout_flex(&mut children[i], share);
        i = i + 1;
    }
    proof {
        lemma_views_of(before);
        lemma_views_of(children@);
        assert(flex_of(views_of(children@)[0]) == share);
    }
}

/// Whether removing the panel `panel_id` finds it: as a child of a split somewhere in `v`.
pub open spec fn removable(v: LayoutView, panel_id: Seq<char>) -> bool
    decreases v,
{
    match v {
        LayoutView::Panel { .. } => false,
        LayoutView::Split { children, .. } => direct_panel_index(children, panel_id) is Some || removable_in(
            children,
            panel_id,
        ),
    }
}

/// [`removable`] in one of the trees of `s`.
pub open spec fn removable_in(s: Seq<LayoutView>, panel_id: Seq<char>) -> bool
    decreases s,
{
    if s.len() == 0 {
        false
    } else {
        removable(s[0], panel_id) || removable_in(s.subrange(1, s.len() as int), panel_id)
    }
}

/// Whether `w` is `v` with the panel `panel_id` removed: from a split's own children first
/// (the first such panel), after which a split left with one child is replaced by that child
/// and one left with more has its children's shares evened out by `even_share`; else from the
/// first child subtree where it can be removed. Where it is found nowhere, `w` is `v`.
pub open spec fn removes_panel<F: Fn(usize) -> u64>(v: LayoutView, panel_id: Seq<char>, even_share: F, w: LayoutView) -> bool
    decreases v,
{
    match v {
        LayoutView::Panel { .. } => w == v,
        LayoutView::Split { children, .. } => match direct_panel_index(children, panel_id) {
            Some(k) => {
                let rest = children.remove(k);
                if rest.len() == 1 {
                    w == rest[0]
                } else {
                    w == with_children(v, split_children(w)) && rebalanced(even_share, rest, split_children(w))
                }
            },
            None => w == with_children(v, split_children(w)) && removes_panel_in(
                children,
                panel_id,
                even_share,
                split_children(w),
            ),
        },
    }
}

/// [`removes_panel`] on the first tree of `s` where the panel can be removed; the others stay.
pub open spec fn removes_panel_in<F: Fn(usize) -> u64>(s: Seq<LayoutView>, panel_id: Seq<char>, even_share: F, t: Seq<LayoutView>) -> bool
    decreases s,
{
    if s.len() == 0 {
        t == s
    } else if removable(s[0], panel_id) {
        &&& t.len() == s.len()
        &&& removes_panel(s[0], panel_id, even_share, t[0])
        &&& t.subrange(1, t.len() as int) == s.subrange(1, s.len() as int)
    } else {
        &&& t.len() == s.len()
        &&& t[0] == s[0]
        &&& removes_panel_in(s.subrange(1, s.len() as int), panel_id, even_share, t.subrange(1, t.len() as int))
    }
}

/// Removes the panel `panel_id` from the layout ([`removes_panel`]); says whether it was found.
#[verifier::loop_isolation(false)]
#[verifier::rlimit(60)]
#[verifier::spinoff_prover]
pub fn remove_panel_from_layout<F: Fn(usize) -> u64>(root: &mut LayoutNode, panel_id: &str, even_share: &F) -> (r: bool)
    requires
        forall|n: usize| call_requires(*even_share, (n,)),
    ensures
        r == removable(old(root)@, panel_id@),
        removes_panel(old(root)@, panel_id@, *even_share, final(root)@),
        !r ==> final(root)@ == old(root)@,
    decreases old(root)@,
{
    let mut lifted: Option<LayoutNode> = None;
    let found = match root {
        LayoutNode::Panel { .. } => false,
        LayoutNode::Split { children, .. } => {
            let ghost vs = views_of(children@);
            proof {
                lemma_views_of(children@);
                lemma_direct_panel_index(vs, panel_id@);
            }
            let mut k: usize = 0;
            while k < children.len()
                invariant
                    k <= children@.len(),
                    vs == views_of(children@),
                    vs.len() == children@.len(),
                    forall|j: int| 0 <= j < children@.len() ==> #[trigger] vs[j] == layout_view(children@[j]),
                    forall|j: int| 0 <= j < k ==> !(#[trigger] vs[j] matches LayoutView::Panel { id, .. } && id == panel_id@),
                decreases children@.len() - k,
            {
                if is_panel_with_id(&children[k], panel_id) {
                    break;
                }
                k = k + 1;
            }
            if k < children.len() {
                proof {
                    match direct_panel_index(vs, panel_id@) {
                        Some(k2) => {
                            if k2 < k {
                                assert(!(vs[k2] matches LayoutView::Panel { id, .. } && id == panel_id@));
                            }
                            if k2 > k {
                                assert(!(vs[k as int] matches LayoutView::Panel { id, .. } && id == panel_id@));
                            }
                        },
                        None => {
                            assert(!(vs[k as int] matches LayoutView::Panel { id, .. } && id == panel_id@));
                        },
                    }
                    assert(direct_panel_index(vs, panel_id@) == Some(k as int));
                }
                children.remove(k);
                proof {
                    lemma_views_of(children@);
                    assert(views_of(children@) =~= vs.remove(k as int));
                }
                if children.len() == 1 {
                    lifted = Some(children.remove(0));
                } else {
                    rebalance_children(children, even_share);
                }
                true
            } else {
                proof {
                    assert(direct_panel_index(vs, panel_id@) is None);
                    assert forall|j: int| 0 <= j < vs.len() implies decreases_to!(old(root)@ => vs[j]) by {
                        assert(decreases_to!(old(root)@ => old(root)@->children));
                        assert(decreases_to!(old(root)@->children => old(root)@->children[j]));
                    }
                    assert(vs.skip(0) =~= vs);
                    assert(vs.take(0) =~= Seq::<LayoutView>::empty());
                }
                let mut i: usize = 0;
                let mut done = false;
                while i < children.len() && !done
                    invariant
                        i <= children@.len(),
                        vs.len() == children@.len(),
                        forall|j: int| 0 <= j < vs.len() ==> decreases_to!(old(root)@ => vs[j]),
                        !done ==> views_of(children@) == vs,
                        !done ==> removable_in(vs, panel_id@) == removable_in(vs.skip(i as int), panel_id@),
                        !done ==> forall|t: Seq<LayoutView>| #[trigger] removes_panel_in(vs.skip(i as int), panel_id@, *even_share, t)
                            ==> removes_panel_in(vs, panel_id@, *even_share, vs.take(i as int) + t),
                        done ==> removable_in(vs, panel_id@) && removes_panel_in(vs, panel_id@, *even_share, views_of(children@)),
                    decreases children@.len() - i,
                {
                    let ghost before = children@;
                    proof {
                        lemma_views_of(children@);
                        let rest = vs.skip(i as int);
                        assert(rest[0] == vs[i as int]);
                        assert(rest.subrange(1, rest.len() as int) =~= vs.skip(i + 1));
                    }
                    let hit = remove_panel_from_layout(&mut children[i], panel_id, even_share);
                    proof {
                        lemma_views_of(children@);
                        assert(children@ == before.update(i as int, children@[i as int]));
                        let rest = vs.skip(i as int);
                        let nv = layout_view(children@[i as int]);
                        if hit {
                            let t = seq![nv] + vs.skip(i + 1);
                            assert(t[0] == nv);
                            assert(t.subrange(1, t.len() as int) =~= rest.subrange(1, rest.len() as int));
                            assert(removes_panel_in(rest, panel_id@, *even_share, t));
                            assert(views_of(children@) =~= vs.take(i as int) + t);
                        } else {
                            assert(views_of(children@) =~= vs);
                            assert(vs.take(i + 1) =~= vs.take(i as int) + seq![vs[i as int]]);
                            assert forall|t: Seq<LayoutView>| #[trigger] removes_panel_in(vs.skip(i + 1), panel_id@, *even_share, t)
                                implies removes_panel_in(vs, panel_id@, *even_share, vs.take(i + 1) + t) by {
                                let u = seq![vs[i as int]] + t;
                                assert(u[0] == vs[i as int]);
                                assert(u.subrange(1, u.len() as int) =~= t);
                                assert(removes_panel_in(rest, panel_id@, *even_share, u));
                                assert(vs.take(i as int) + u =~= vs.take(i + 1) + t);
                            }
                        }
                    }
                    done = hit;
                    i = i + 1;
                }
                proof {
                    if !done {
                        assert(vs.skip(i as int) =~= Seq::<LayoutView>::empty());
                        assert(removes_panel_in(vs.skip(i as int), panel_id@, *even_share, vs.skip(i as int)));
                        assert(vs.take(i as int) + vs.skip(i as int) =~= vs);
                    }
                }
                done
            }
        },
    };
    match lifted {
        Some(node) => {
            *root = node;
        },
        None => {},
    }
    found
}


/// The share of room, as `f64` bits, of each half of a split made by a drop: `50.0`.
pub const HALF_SHARE_BITS: u64 = 0x4049_0000_0000_0000;

/// Whether a drop on this side puts the dropped pane after the target (right or below).
pub open spec fn drops_after(direction: PaneDropDirection) -> bool {
    direction == PaneDropDirection::Right || direction == PaneDropDirection::Bottom
}

/// Whether a panel with the id `panel_id` is anywhere in `v`.
pub open spec fn has_panel(v: LayoutView, panel_id: Seq<char>) -> bool
    decreases v,
{
    match v {
        LayoutView::Panel { id, .. } => id == panel_id,
        LayoutView::Split { children, .. } => has_panel_in(children, panel_id),
    }
}

/// [`has_panel`] in one of the trees of `s`.
pub open spec fn has_panel_in(s: Seq<LayoutView>, panel_id: Seq<char>) -> bool
    decreases s,
{
    if s.len() == 0 {
        false
    } else {
        has_panel(s[0], panel_id) || has_panel_in(s.subrange(1, s.len() as int), panel_id)
    }
}

/// The split `split_id` that a drop of `source` on `target` makes: the two halves, each at
/// [`HALF_SHARE_BITS`], the dropped one after the target when `after`, and the split taking the
/// target's former share.
pub open spec fn pair_split(
    split_id: Seq<char>,
    direction: SplitDirection,
    target: LayoutView,
    source: LayoutView,
    after: bool,
) -> LayoutView {
    let t = with_flex(target, HALF_SHARE_BITS);
    let s = with_flex(source, HALF_SHARE_BITS);
    LayoutView::Split {
        id: split_id,
        direction,
        children: if after { seq![t, s] } else { seq![s, t] },
        flex_bits: flex_of(target),
        min_size_bits: None,
    }
}

/// Whether `w` is `v` with `source` dropped on the side `drop` of the panel `target_id`: a
/// target panel that is the whole tree becomes a [`pair_split`]; one that is a child of a split
/// in the drop's direction gets `source` beside it in that split, whose children then share
/// room evenly by `even_share`; one in a split across it is replaced by a [`pair_split`]. The
/// target is looked for among a split's own children first, else in the first child subtree
/// that has it. Where it is found nowhere, `w` is `v`.
pub open spec fn inserts_panel<F: Fn(usize) -> u64>(
    v: LayoutView,
    source: LayoutView,
    target_id: Seq<char>,
    drop: PaneDropDirection,
    split_id: Seq<char>,
    even_share: F,
    w: LayoutView,
) -> bool
    decreases v,
{
    match v {
        LayoutView::Panel { id, .. } => if id == target_id {
            w == pair_split(split_id, drop_split(drop), v, source, drops_after(drop))
        } else {
            w == v
        },
        LayoutView::Split { direction, children, .. } => match direct_panel_index(children, target_id) {
            Some(k) => if direction == drop_split(drop) {
                let at = if drops_after(drop) { k + 1 } else { k };
                w == with_children(v, split_children(w)) && rebalanced(even_share, children.insert(at, source), split_children(w))
            } else {
                w == with_children(
                    v,
                    children.update(k, pair_split(split_id, drop_split(drop), children[k], source, drops_after(drop))),
                )
            },
            None => w == with_children(v, split_children(w)) && inserts_panel_in(
                children,
                source,
                target_id,
                drop,
                split_id,
                even_share,
                split_children(w),
            ),
        },
    }
}

/// [`inserts_panel`] on the first tree of `s` that has the target; the others stay.
pub open spec fn inserts_panel_in<F: Fn(usize) -> u64>(
    s: Seq<LayoutView>,
    source: LayoutView,
    target_id: Seq<char>,
    drop: PaneDropDirection,
    split_id: Seq<char>,
    even_share: F,
    t: Seq<LayoutView>,
) -> bool
    decreases s,
{
    if s.len() == 0 {
        t == s
    } else if has_panel(s[0], target_id) {
        &&& t.len() == s.len()
        &&& inserts_panel(s[0], source, target_id, drop, split_id, even_share, t[0])
        &&& t.subrange(1, t.len() as int) == s.subrange(1, s.len() as int)
    } else {
        &&& t.len() == s.len()
        &&& t[0] == s[0]
        &&& inserts_panel_in(s.subrange(1, s.len() as int), source, target_id, drop, split_id, even_share, t.subrange(1, t.len() as int))
    }
}

proof fn lemma_direct_has(s: Seq<LayoutView>, panel_id: Seq<char>, k: int)
    requires
        0 <= k < s.len(),
        s[k] matches LayoutView::Panel { id, .. } && id == panel_id,
    ensures
        has_panel_in(s, panel_id),
    decreases s.len(),
{
    if k > 0 {
        assert(s.subrange(1, s.len() as int)[k - 1] == s[k]);
        lemma_direct_has(s.subrange(1, s.len() as int), panel_id, k - 1);
    } else {
        assert(has_panel(s[0], panel_id));
    }
}

/// The split that dropping `source` on `target` makes ([`pair_split`]).
fn make_pair_split(
    split_id: &str,
    direction: SplitDirection,
    target: LayoutNode,
    source: LayoutNode,
    after: bool,
) -> (r: LayoutNode)
    ensures
        r@ == pair_split(split_id@, direction, target@, source@, after),
{
    let flex_bits = layout_flex(&target);
    let mut t = target;
    set_layout_flex(&mut t, HALF_SHARE_BITS);
    let mut s = source;
    set_layout_flex(&mut s, HALF_SHARE_BITS);
    let ghost (tv, sv) = (t@, s@);
    let mut children: Vec<LayoutNode> = Vec::new();
    if after {
        children.push(t);
        children.push(s);
    } else {
        children.push(s);
        children.push(t);
    }
    proof {
        lemma_views_of(children@);
        assert(views_of(children@) =~= if after { seq![tv, sv] } else { seq![sv, tv] });
    }
    LayoutNode::Split {
        id: owned(split_id),
        direction,
        children,
        flex_bits,
        min_size_bits: None,
    }
}

/// Drops the panel held in `source` on the side `drop` of the panel `target_id`
/// ([`inserts_panel`]), any new split being named `split_id`; says whether the target was
/// found, and takes the panel out of `source` when it was.
#[verifier::loop_isolation(false)]
#[verifier::rlimit(60)]
#[verifier::spinoff_prover]
fn insert_near<F: Fn(usize) -> u64>(
    node: &mut LayoutNode,
    source: &mut Option<LayoutNode>,
    target_id: &str,
    drop: PaneDropDirection,
    split_id: &str,
    even_share: &F,
) -> (r: bool)
    requires
        old(source).is_some(),
        forall|n: usize| call_requires(*even_share, (n,)),
    ensures
        r == has_panel(old(node)@, target_id@),
        r ==> final(source).is_none(),
        !r ==> *final(source) == *old(source) && final(node)@ == old(node)@,
        inserts_panel(old(node)@, old(source).unwrap()@, target_id@, drop, split_id@, *even_share, final(node)@),
    decreases old(node)@,
{
    let split_direction = pane_drop_split_direction(drop);
    let after = match drop {
        PaneDropDirection::Right | PaneDropDirection::Bottom => true,
        _ => false,
    };
    let ghost sv = old(source).unwrap()@;
    let is_target = is_panel_with_id(node, target_id);
    if is_target {
        let mut target = LayoutNode::Panel { id: String::new(), content: PanelContent::Empty, flex_bits: 0 };
        std::mem::swap(node, &mut target);
        let src = source.take().unwrap();
        *node = make_pair_split(split_id, split_direction, target, src, after);
        return true;
    }
    match node {
        LayoutNode::Panel { .. } => false,
        LayoutNode::Split { direction, children, .. } => {
            let ghost vs = views_of(children@);
            proof {
                lemma_views_of(children@);
                lemma_direct_panel_index(vs, target_id@);
            }
            let mut k: usize = 0;
            while k < children.len()
                invariant
                    k <= children@.len(),
                    vs == views_of(children@),
                    vs.len() == children@.len(),
                    forall|j: int| 0 <= j < children@.len() ==> #[trigger] vs[j] == layout_view(children@[j]),
                    forall|j: int| 0 <= j < k ==> !(#[trigger] vs[j] matches LayoutView::Panel { id, .. } && id == target_id@),
                decreases children@.len() - k,
            {
                if is_panel_with_id(&children[k], target_id) {
                    break;
                }
                k = k + 1;
            }
            if k < children.len() {
                proof {
                    match direct_panel_index(vs, target_id@) {
                        Some(k2) => {
                            if k2 < k {
                                assert(!(vs[k2] matches LayoutView::Panel { id, .. } && id == target_id@));
                            }
                            if k2 > k {
                                assert(!(vs[k as int] matches LayoutView::Panel { id, .. } && id == target_id@));
                            }
                        },
                        None => {
                            assert(!(vs[k as int] matches LayoutView::Panel { id, .. } && id == target_id@));
                        },
                    }
                    assert(direct_panel_index(vs, target_id@) == Some(k as int));
                    lemma_direct_has(vs, target_id@, k as int);
                }
                let src = source.take().unwrap();
                if *direction == split_direction {
                    let at = if after { k + 1 } else { k };
                    children.insert(at, src);
                    proof {
                        lemma_views_of(children@);
                        assert(views_of(children@) =~= vs.insert(at as int, sv));
                    }
                    rebalance_children(children, even_share);
                } else {
                    let target = children.remove(k);
                    let pair = make_pair_split(split_id, split_direction, target, src, after);
                    children.insert(k, pair);
                    proof {
                        lemma_views_of(children@);
                        assert(views_of(children@) =~= vs.update(
                            k as int,
                            pair_split(split_id@, drop_split(drop), vs[k as int], sv, drops_after(drop)),
                        ));
                    }
                }
                true
            } else {
                proof {
                    assert(direct_panel_index(vs, target_id@) is None);
                    assert forall|j: int| 0 <= j < vs.len() implies decreases_to!(old(node)@ => vs[j]) by {
                        assert(decreases_to!(old(node)@ => old(node)@->children));
                        assert(decreases_to!(old(node)@->children => old(node)@->children[j]));
                    }
                    assert(vs.skip(0) =~= vs);
                    assert(vs.take(0) =~= Seq::<LayoutView>::empty());
                }
                let mut i: usize = 0;
                let mut done = false;
                while i < children.len() && !done
                    invariant
                        i <= children@.len(),
                        vs.len() == children@.len(),
                        forall|j: int| 0 <= j < vs.len() ==> decreases_to!(old(node)@ => vs[j]),
                        !done ==> views_of(children@) == vs && *source == *old(source),
                        !done ==> has_panel_in(vs, target_id@) == has_panel_in(vs.skip(i as int), target_id@),
                        !done ==> forall|t: Seq<LayoutView>| #[trigger] inserts_panel_in(vs.skip(i as int), sv, target_id@, drop, split_id@, *even_share, t)
                            ==> inserts_panel_in(vs, sv, target_id@, drop, split_id@, *even_share, vs.take(i as int) + t),
                        done ==> has_panel_in(vs, target_id@) && source.is_none() && inserts_panel_in(vs, sv, target_id@, drop, split_id@, *even_share, views_of(children@)),
                    decreases children@.len() - i,
                {
                    let ghost before = children@;
                    proof {
                        lemma_views_of(children@);
                        let rest = vs.skip(i as int);
                        assert(rest[0] == vs[i as int]);
                        assert(rest.subrange(1, rest.len() as int) =~= vs.skip(i + 1));
                    }
                    let hit = insert_near(&mut children[i], source, target_id, drop, split_id, even_share);
                    proof {
                        lemma_views_of(children@);
                        assert(children@ == before.update(i as int, children@[i as int]));
                        let rest = vs.skip(i as int);
                        let nv = layout_view(children@[i as int]);
                        if hit {
                            let t = seq![nv] + vs.skip(i + 1);
                            assert(t[0] == nv);
                            assert(t.subrange(1, t.len() as int) =~= rest.subrange(1, rest.len() as int));
                            assert(inserts_panel_in(rest, sv, target_id@, drop, split_id@, *even_share, t));
                            assert(views_of(children@) =~= vs.take(i as int) + t);
                        } else {
                            assert(views_of(children@) =~= vs);
                            assert(vs.take(i + 1) =~= vs.take(i as int) + seq![vs[i as int]]);
                            assert forall|t: Seq<LayoutView>| #[trigger] inserts_panel_in(vs.skip(i + 1), sv, target_id@, drop, split_id@, *even_share, t)
                                implies inserts_panel_in(vs, sv, target_id@, drop, split_id@, *even_share, vs.take(i + 1) + t) by {
                                let u = seq![vs[i as int]] + t;
                                assert(u[0] == vs[i as int]);
                                assert(u.subrange(1, u.len() as int) =~= t);
                                assert(inserts_panel_in(rest, sv, target_id@, drop, split_id@, *even_share, u));
                                assert(vs.take(i as int) + u =~= vs.take(i + 1) + t);
                            }
                        }
                    }
                    done = hit;
                    i = i + 1;
                }
                proof {
                    if !done {
                        assert(vs.skip(i as int) =~= Seq::<LayoutView>::empty());
                        assert(inserts_panel_in(vs.skip(i as int), sv, target_id@, drop, split_id@, *even_share, vs.skip(i as int)));
                        assert(vs.take(i as int) + vs.skip(i as int) =~= vs);
                    }
                }
                done
            }
        },
    }
}

/// Drops `source_panel` on the side `drop_direction` of the panel `target_id`
/// ([`inserts_panel`]), any new split being named `split_id`; says whether the target was
/// found. Where it was not, the layout is unchanged.
pub fn insert_panel_near_target_with_id<F: Fn(usize) -> u64>(
    node: &mut LayoutNode,
    source_panel: LayoutNode,
    target_id: &str,
    drop_direction: PaneDropDirection,
    split_id: &str,
    even_share: &F,
) -> (r: bool)
    requires
        forall|n: usize| call_requires(*even_share, (n,)),
    ensures
        r == has_panel(old(node)@, target_id@),
        !r ==> final(node)@ == old(node)@,
        inserts_panel(old(node)@, source_panel@, target_id@, drop_direction, split_id@, *even_share, final(node)@),
{
    let mut source = Some(source_panel);
    insert_near(node, &mut source, target_id, drop_direction, split_id, even_share)
}

/// A fresh layout node id: a random (version 4) UUID in its hyphenated form, as
/// `uuid::Uuid::new_v4().to_string()` writes it, which is 36 characters long. Which id comes
/// out is chance and is not stated. (`new_v4` panics where the operating system gives no
/// random bytes.)
#[verifier::external_body]
fn new_node_id() -> (r: String)
    ensures
        r@.len() == 36,
{
    uuid::Uuid::new_v4().to_string()
}

/// Drops `source_panel` on the side `drop_direction` of the panel `target_id`
/// ([`inserts_panel`]), any new split being named by a fresh random id; says whether the target
/// was found. Where it was not, the layout is unchanged.
pub fn insert_panel_near_target<F: Fn(usize) -> u64>(
    node: &mut LayoutNode,
    source_panel: LayoutNode,
    target_id: &str,
    drop_direction: PaneDropDirection,
    even_share: &F,
) -> (r: bool)
    requires
        forall|n: usize| call_requires(*even_share, (n,)),
    ensures
        r == has_panel(old(node)@, target_id@),
        !r ==> final(node)@ == old(node)@,
        exists|split_id: Seq<char>|
            split_id.len() == 36 && #[trigger] inserts_panel(
                old(node)@,
                source_panel@,
                target_id@,
                drop_direction,
                split_id,
                *even_share,
                final(node)@,
            ),
{
    let split_id = new_node_id();
    insert_panel_near_target_with_id(node, source_panel, target_id, drop_direction, split_id.as_str(), even_share)
}


/// Whether `w` is `v` with every split of one child replaced by that child, bottom up, and the
/// children of every other non-empty split then sharing room evenly by `even_share`.
pub open spec fn collapses<F: Fn(usize) -> u64>(v: LayoutView, even_share: F, w: LayoutView) -> bool
    decreases v,
{
    match v {
        LayoutView::Panel { .. } => w == v,
        LayoutView::Split { children, .. } => exists|mid: Seq<LayoutView>|
            #[trigger] collapse_step(v, even_share, mid, w) && collapses_in(children, even_share, mid),
    }
}

/// Whether `w` is the split `v` once its children, collapsed, are `mid`: the one child itself,
/// or the split holding them with their shares evened out by `even_share`.
pub open spec fn collapse_step<F: Fn(usize) -> u64>(v: LayoutView, even_share: F, mid: Seq<LayoutView>, w: LayoutView) -> bool {
    if mid.len() == 1 {
        w == mid[0]
    } else {
        w == with_children(v, split_children(w)) && rebalanced(even_share, mid, split_children(w))
    }
}

/// [`collapses`] tree by tree: `t[i]` is `s[i]` collapsed.
pub open spec fn collapses_in<F: Fn(usize) -> u64>(s: Seq<LayoutView>, even_share: F, t: Seq<LayoutView>) -> bool
    decreases s,
{
    if s.len() == 0 {
        t.len() == 0
    } else {
        &&& t.len() == s.len()
        &&& collapses(s[0], even_share, t[0])
        &&& collapses_in(s.subrange(1, s.len() as int), even_share, t.subrange(1, t.len() as int))
    }
}

proof fn lemma_collapses_in_push<F: Fn(usize) -> u64>(s: Seq<LayoutView>, f: F, t: Seq<LayoutView>, x: LayoutView, y: LayoutView)
    requires
        collapses_in(s, f, t),
        collapses(x, f, y),
    ensures
        collapses_in(s.push(x), f, t.push(y)),
    decreases s.len(),
{
    reveal_with_fuel(collapses_in, 2);
    if s.len() == 0 {
        assert(s.push(x).subrange(1, 1) =~= Seq::<LayoutView>::empty());
        assert(t.push(y).subrange(1, 1) =~= Seq::<LayoutView>::empty());
        assert(s.push(x)[0] == x);
        assert(t.push(y)[0] == y);
    } else {
        lemma_collapses_in_push(s.subrange(1, s.len() as int), f, t.subrange(1, t.len() as int), x, y);
        assert(s.push(x).subrange(1, s.len() as int + 1) =~= s.subrange(1, s.len() as int).push(x));
        assert(t.push(y).subrange(1, t.len() as int + 1) =~= t.subrange(1, t.len() as int).push(y));
        assert(s.push(x)[0] == s[0]);
        assert(t.push(y)[0] == t[0]);
    }
}

/// Replaces every split of one child by that child, bottom up, and evens out the shares of the
/// children of every other non-empty split ([`collapses`]).
#[verifier::loop_isolation(false)]
pub fn collapse_single_child_splits<F: Fn(usize) -> u64>(node: &mut LayoutNode, even_share: &F)
    requires
        forall|n: usize| call_requires(*even_share, (n,)),
    ensures
        collapses(old(node)@, *even_share, final(node)@),
    decreases old(node)@,
{
    let mut lifted: Option<LayoutNode> = None;
    let ghost mut mid: Seq<LayoutView> = Seq::empty();
    match node {
        LayoutNode::Panel { .. } => {},
        LayoutNode::Split { children, .. } => {
            let ghost vs = views_of(children@);
            proof {
                lemma_views_of(children@);
                assert forall|j: int| 0 <= j < vs.len() implies decreases_to!(old(node)@ => vs[j]) by {
                    assert(decreases_to!(old(node)@ => old(node)@->children));
                    assert(decreases_to!(old(node)@->children => old(node)@->children[j]));
                }
                assert(vs.take(0) =~= Seq::<LayoutView>::empty());
                assert(views_of(children@).take(0) =~= Seq::<LayoutView>::empty());
            }
            let mut i: usize = 0;
            while i < children.len()
                invariant
                    i <= children@.len(),
                    vs.len() == children@.len(),
                    forall|j: int| 0 <= j < vs.len() ==> decreases_to!(old(node)@ => vs[j]),
                    forall|j: int| i <= j < children@.len() ==> #[trigger] layout_view(children@[j]) == vs[j],
                    collapses_in(vs.take(i as int), *even_share, views_of(children@).take(i as int)),
                decreases children@.len() - i,
            {
                let ghost before = children@;
                proof {
                    lemma_views_of(children@);
                }
                collapse_single_child_splits(&mut children[i], even_share);
                proof {
                    lemma_views_of(before);
                    lemma_views_of(children@);
                    assert(children@ == before.update(i as int, children@[i as int]));
                    assert(views_of(children@).take(i as int) =~= views_of(before).take(i as int));
                    lemma_collapses_in_push(
                        vs.take(i as int),
                        *even_share,
                        views_of(before).take(i as int),
                        vs[i as int],
                        layout_view(children@[i as int]),
                    );
                    assert(vs.take(i + 1) =~= vs.take(i as int).push(vs[i as int]));
                    assert(views_of(children@).take(i + 1) =~= views_of(before).take(i as int).push(
                        layout_view(children@[i as int]),
                    ));
                }
                i = i + 1;
            }
            proof {
                mid = views_of(children@);
                lemma_views_of(children@);
                assert(vs.take(i as int) =~= vs);
                assert(mid.take(i as int) =~= mid);
                assert(collapses_in(vs, *even_share, mid));
                assert(split_children(old(node)@) == vs);
            }
            if children.len() == 1 {
                let only = children.remove(0);
                proof {
                    assert(layout_view(only) == mid[0]);
                }
                lifted = Some(only);
            } else if children.len() > 0 {
                rebalance_children(children, even_share);
                proof {
                    assert(rebalanced(*even_share, mid, views_of(children@)));
                }
            } else {
                proof {
                    lemma_views_of(children@);
                    assert(views_of(children@) =~= mid);
                    assert(rebalanced(*even_share, mid, views_of(children@)));
                }
            }
        },
    }
    proof {
        if old(node)@ is Split {
            if mid.len() == 1 {
                assert(lifted is Some && layout_view(lifted->0) == mid[0]);
            } else {
                assert(lifted is None);
                assert(node@ == with_children(old(node)@, split_children(node@)));
                assert(rebalanced(*even_share, mid, split_children(node@)));
            }
        }
    }
    match lifted {
        Some(x) => {
            *node = x;
        },
        None => {},
    }
    proof {
        match old(node)@ {
            LayoutView::Split { children: oc, .. } => {
                assert(oc == split_children(old(node)@));
                assert(collapses_in(oc, *even_share, mid));
                if mid.len() == 1 {
                    assert(node@ == mid[0]);
                } else {
                    assert(node@ == with_children(old(node)@, split_children(node@)));
                    assert(rebalanced(*even_share, mid, split_children(node@)));
                }
                assert(collapse_step(old(node)@, *even_share, mid, node@));
            },
            _ => {
                assert(node@ == old(node)@);
            },
        }
        assert(collapses(old(node)@, *even_share, node@));
    }
}


proof fn lemma_panels_in_pointwise(s: Seq<LayoutView>, t: Seq<LayoutView>)
    requires
        t.len() == s.len(),
        forall|i: int| 0 <= i < s.len() ==> #[trigger] panel_count(t[i]) == panel_count(s[i]),
    ensures
        panels_in(t) == panels_in(s),
    decreases s.len(),
{
    if s.len() > 0 {
        let (s1, t1) = (s.subrange(1, s.len() as int), t.subrange(1, t.len() as int));
        assert forall|i: int| 0 <= i < s1.len() implies #[trigger] panel_count(t1[i]) == panel_count(s1[i]) by {
            assert(t1[i] == t[i + 1] && s1[i] == s[i + 1]);
        }
        lemma_panels_in_pointwise(s1, t1);
        assert(panel_count(t[0]) == panel_count(s[0]));
    }
}

proof fn lemma_rebalanced_panels<F: Fn(usize) -> u64>(f: F, s: Seq<LayoutView>, t: Seq<LayoutView>)
    requires
        rebalanced(f, s, t),
    ensures
        panels_in(t) == panels_in(s),
{
    assert forall|i: int| 0 <= i < s.len() implies #[trigger] panel_count(t[i]) == panel_count(s[i]) by {
        assert(t[i] == with_flex(s[i], flex_of(t[0])));
    }
    lemma_panels_in_pointwise(s, t);
}

proof fn lemma_panels_in_insert(s: Seq<LayoutView>, k: int, x: LayoutView)
    requires
        0 <= k <= s.len(),
    ensures
        panels_in(s.insert(k, x)) == panels_in(s) + panel_count(x),
{
    assert(s.insert(k, x) =~= s.take(k) + (seq![x] + s.skip(k)));
    assert(s =~= s.take(k) + s.skip(k));
    lemma_panels_in_concat(s.take(k), seq![x] + s.skip(k));
    lemma_panels_in_concat(s.take(k), s.skip(k));
    lemma_panels_in_cons(x, s.skip(k));
}

proof fn lemma_panels_in_update(s: Seq<LayoutView>, k: int, x: LayoutView)
    requires
        0 <= k < s.len(),
    ensures
        panels_in(s.update(k, x)) + panel_count(s[k]) == panels_in(s) + panel_count(x),
{
    lemma_panels_in_remove(s, k);
    lemma_panels_in_remove(s.update(k, x), k);
    assert(s.update(k, x).remove(k) =~= s.remove(k));
}

/// Removing a panel that is found leaves one panel fewer; where it is not found, the layout
/// stays as it was.
pub proof fn removing_a_panel_leaves_one_fewer<F: Fn(usize) -> u64>(v: LayoutView, panel_id: Seq<char>, even_share: F, w: LayoutView)
    requires
        removes_panel(v, panel_id, even_share, w),
    ensures
        removable(v, panel_id) ==> panel_count(w) + 1 == panel_count(v),
        !removable(v, panel_id) ==> w == v,
    decreases v,
{
    match v {
        LayoutView::Split { children, .. } => {
            lemma_direct_panel_index(children, panel_id);
            match direct_panel_index(children, panel_id) {
                Some(k) => {
                    let rest = children.remove(k);
                    lemma_panels_in_remove(children, k);
                    if rest.len() == 1 {
                        lemma_panels_in_cons(rest[0], rest.subrange(1, 1));
                        assert(rest.subrange(1, 1) =~= Seq::<LayoutView>::empty());
                    } else {
                        lemma_rebalanced_panels(even_share, rest, split_children(w));
                    }
                },
                None => {
                    removing_from_a_list_leaves_one_fewer(children, panel_id, even_share, split_children(w));
                },
            }
        },
        _ => {},
    }
}

/// [`removing_a_panel_leaves_one_fewer`] for a list of trees.
pub proof fn removing_from_a_list_leaves_one_fewer<F: Fn(usize) -> u64>(
    s: Seq<LayoutView>,
    panel_id: Seq<char>,
    even_share: F,
    t: Seq<LayoutView>,
)
    requires
        removes_panel_in(s, panel_id, even_share, t),
    ensures
        removable_in(s, panel_id) ==> panels_in(t) + 1 == panels_in(s),
        !removable_in(s, panel_id) ==> t == s,
    decreases s,
{
    if s.len() > 0 {
        let (s1, t1) = (s.subrange(1, s.len() as int), t.subrange(1, t.len() as int));
        if removable(s[0], panel_id) {
            removing_a_panel_leaves_one_fewer(s[0], panel_id, even_share, t[0]);
            lemma_panels_in_cons(s[0], s1);
            lemma_panels_in_cons(t[0], t1);
            assert(t =~= seq![t[0]] + t1);
            assert(s =~= seq![s[0]] + s1);
        } else {
            removing_from_a_list_leaves_one_fewer(s1, panel_id, even_share, t1);
            lemma_panels_in_cons(s[0], s1);
            lemma_panels_in_cons(t[0], t1);
            assert(t =~= seq![t[0]] + t1);
            assert(s =~= seq![s[0]] + s1);
        }
    }
}

/// Dropping a panel next to a target that is found adds the dropped panels to the layout;
/// where the target is not found, the layout stays as it was.
pub proof fn dropping_a_panel_adds_it<F: Fn(usize) -> u64>(
    v: LayoutView,
    source: LayoutView,
    target_id: Seq<char>,
    drop: PaneDropDirection,
    split_id: Seq<char>,
    even_share: F,
    w: LayoutView,
)
    requires
        inserts_panel(v, source, target_id, drop, split_id, even_share, w),
    ensures
        has_panel(v, target_id) ==> panel_count(w) == panel_count(v) + panel_count(source),
        !has_panel(v, target_id) ==> w == v,
    decreases v,
{
    reveal_with_fuel(panels_in, 3);
    match v {
        LayoutView::Split { direction, children, .. } => {
            lemma_direct_panel_index(children, target_id);
            match direct_panel_index(children, target_id) {
                Some(k) => {
                    lemma_direct_has(children, target_id, k);
                    if direction == drop_split(drop) {
                        let at = if drops_after(drop) { k + 1 } else { k };
                        lemma_panels_in_insert(children, at, source);
                        lemma_rebalanced_panels(even_share, children.insert(at, source), split_children(w));
                    } else {
                        let p = pair_split(split_id, drop_split(drop), children[k], source, drops_after(drop));
                        lemma_panels_in_update(children, k, p);
                        lemma_pair_split_panels(split_id, drop_split(drop), children[k], source, drops_after(drop));
                    }
                },
                None => {
                    dropping_into_a_list_adds_it(children, source, target_id, drop, split_id, even_share, split_children(w));
                },
            }
        },
        _ => {
            lemma_pair_split_panels(split_id, drop_split(drop), v, source, drops_after(drop));
        },
    }
}

proof fn lemma_pair_split_panels(split_id: Seq<char>, direction: SplitDirection, target: LayoutView, source: LayoutView, after: bool)
    ensures
        panel_count(pair_split(split_id, direction, target, source, after)) == panel_count(target) + panel_count(source),
{
    let (t, s) = (with_flex(target, HALF_SHARE_BITS), with_flex(source, HALF_SHARE_BITS));
    assert(panel_count(t) == panel_count(target));
    assert(panel_count(s) == panel_count(source));
    let pc = if after { seq![t, s] } else { seq![s, t] };
    lemma_panels_in_cons(pc[0], seq![pc[1]]);
    lemma_panels_in_cons(pc[1], Seq::<LayoutView>::empty());
    assert(pc =~= seq![pc[0]] + seq![pc[1]]);
    assert(seq![pc[1]] =~= seq![pc[1]] + Seq::<LayoutView>::empty());
}

/// [`dropping_a_panel_adds_it`] for a list of trees.
pub proof fn dropping_into_a_list_adds_it<F: Fn(usize) -> u64>(
    s: Seq<LayoutView>,
    source: LayoutView,
    target_id: Seq<char>,
    drop: PaneDropDirection,
    split_id: Seq<char>,
    even_share: F,
    t: Seq<LayoutView>,
)
    requires
        inserts_panel_in(s, source, target_id, drop, split_id, even_share, t),
    ensures
        has_panel_in(s, target_id) ==> panels_in(t) == panels_in(s) + panel_count(source),
        !has_panel_in(s, target_id) ==> t == s,
    decreases s,
{
    if s.len() > 0 {
        let (s1, t1) = (s.subrange(1, s.len() as int), t.subrange(1, t.len() as int));
        lemma_panels_in_cons(s[0], s1);
        lemma_panels_in_cons(t[0], t1);
        assert(t =~= seq![t[0]] + t1);
        assert(s =~= seq![s[0]] + s1);
        if has_panel(s[0], target_id) {
            dropping_a_panel_adds_it(s[0], source, target_id, drop, split_id, even_share, t[0]);
        } else {
            dropping_into_a_list_adds_it(s1, source, target_id, drop, split_id, even_share, t1);
        }
    }
}

/// Collapsing single-child splits keeps every panel.
pub proof fn collapsing_keeps_the_panels<F: Fn(usize) -> u64>(v: LayoutView, even_share: F, w: LayoutView)
    requires
        collapses(v, even_share, w),
    ensures
        panel_count(w) == panel_count(v),
    decreases v,
{
    match v {
        LayoutView::Split { children, .. } => {
            let mid = choose|mid: Seq<LayoutView>| #[trigger] collapse_step(v, even_share, mid, w) && collapses_in(children, even_share, mid);
            collapsing_a_list_keeps_the_panels(children, even_share, mid);
            if mid.len() == 1 {
                lemma_panels_in_cons(mid[0], mid.subrange(1, 1));
                assert(mid.subrange(1, 1) =~= Seq::<LayoutView>::empty());
            } else {
                lemma_rebalanced_panels(even_share, mid, split_children(w));
            }
        },
        _ => {},
    }
}

/// [`collapsing_keeps_the_panels`] for a list of trees.
pub proof fn collapsing_a_list_keeps_the_panels<F: Fn(usize) -> u64>(s: Seq<LayoutView>, even_share: F, t: Seq<LayoutView>)
    requires
        collapses_in(s, even_share, t),
    ensures
        panels_in(t) == panels_in(s),
    decreases s,
{
    if s.len() > 0 {
        let (s1, t1) = (s.subrange(1, s.len() as int), t.subrange(1, t.len() as int));
        collapsing_keeps_the_panels(s[0], even_share, t[0]);
        collapsing_a_list_keeps_the_panels(s1, even_share, t1);
        lemma_panels_in_cons(s[0], s1);
        lemma_panels_in_cons(t[0], t1);
        assert(t =~= seq![t[0]] + t1);
        assert(s =~= seq![s[0]] + s1);
    }
}


/// A copy of a panel's content.
fn copy_content(c: &PanelContent) -> (r: PanelContent)
    ensures
        content_view(r) == content_view(*c),
{
    match c {
        PanelContent::Main => PanelContent::Main,
        PanelContent::Watched { channel_id } => PanelContent::Watched { channel_id: owned(channel_id.as_str()) },
        PanelContent::Empty => PanelContent::Empty,
    }
}

/// A copy of a layout tree.
pub fn copy_layout(node: &LayoutNode) -> (r: LayoutNode)
    ensures
        r@ == node@,
    decreases node,
{
    match node {
        LayoutNode::Panel { id, content, flex_bits } => LayoutNode::Panel {
            id: owned(id.as_str()),
            content: copy_content(content),
            flex_bits: *flex_bits,
        },
        LayoutNode::Split { id, direction, children, flex_bits, min_size_bits } => {
            proof {
                lemma_children_decrease(node);
                lemma_views_of(children@);
            }
            let mut copies: Vec<LayoutNode> = Vec::new();
            let mut i: usize = 0;
            while i < children.len()
                invariant
                    i <= children@.len(),
                    copies@.len() == i,
                    forall|j: int| 0 <= j < children@.len() ==> decreases_to!(*node => children@[j]),
                    forall|j: int| 0 <= j < i ==> #[trigger] layout_view(copies@[j]) == layout_view(children@[j]),
                decreases children@.len() - i,
            {
                let c = copy_layout(&children[i]);
                copies.push(c);
                i = i + 1;
            }
            proof {
                lemma_views_of(copies@);
                assert(views_of(copies@) =~= views_of(children@));
            }
            LayoutNode::Split {
                id: owned(id.as_str()),
                direction: *direction,
                children: copies,
                flex_bits: *flex_bits,
                min_size_bits: *min_size_bits,
            }
        },
    }
}

proof fn lemma_has_panel_pointwise(s: Seq<LayoutView>, t: Seq<LayoutView>, id: Seq<char>)
    requires
        t.len() == s.len(),
        forall|i: int| 0 <= i < s.len() ==> #[trigger] has_panel(t[i], id) == has_panel(s[i], id),
    ensures
        has_panel_in(t, id) == has_panel_in(s, id),
    decreases s.len(),
{
    if s.len() > 0 {
        let (s1, t1) = (s.subrange(1, s.len() as int), t.subrange(1, t.len() as int));
        assert forall|i: int| 0 <= i < s1.len() implies #[trigger] has_panel(t1[i], id) == has_panel(s1[i], id) by {
            assert(t1[i] == t[i + 1] && s1[i] == s[i + 1]);
        }
        lemma_has_panel_pointwise(s1, t1, id);
        assert(has_panel(t[0], id) == has_panel(s[0], id));
    }
}

proof fn lemma_rebalanced_has_panel<F: Fn(usize) -> u64>(f: F, s: Seq<LayoutView>, t: Seq<LayoutView>, id: Seq<char>)
    requires
        rebalanced(f, s, t),
    ensures
        has_panel_in(t, id) == has_panel_in(s, id),
{
    assert forall|i: int| 0 <= i < s.len() implies #[trigger] has_panel(t[i], id) == has_panel(s[i], id) by {
        assert(t[i] == with_flex(s[i], flex_of(t[0])));
    }
    lemma_has_panel_pointwise(s, t, id);
}

/// Collapsing single-child splits keeps every panel where it can be found.
pub proof fn collapsing_keeps_each_panel<F: Fn(usize) -> u64>(v: LayoutView, even_share: F, w: LayoutView, id: Seq<char>)
    requires
        collapses(v, even_share, w),
    ensures
        has_panel(w, id) == has_panel(v, id),
    decreases v,
{
    match v {
        LayoutView::Split { children, .. } => {
            let mid = choose|mid: Seq<LayoutView>| #[trigger] collapse_step(v, even_share, mid, w) && collapses_in(children, even_share, mid);
            collapsing_a_list_keeps_each_panel(children, even_share, mid, id);
            if mid.len() == 1 {
                assert(mid.subrange(1, 1) =~= Seq::<LayoutView>::empty());
                assert(!has_panel_in(mid.subrange(1, 1), id));
                assert(has_panel_in(mid, id) == has_panel(mid[0], id));
            } else {
                lemma_rebalanced_has_panel(even_share, mid, split_children(w), id);
            }
        },
        _ => {},
    }
}

/// [`collapsing_keeps_each_panel`] for a list of trees.
pub proof fn collapsing_a_list_keeps_each_panel<F: Fn(usize) -> u64>(s: Seq<LayoutView>, even_share: F, t: Seq<LayoutView>, id: Seq<char>)
    requires
        collapses_in(s, even_share, t),
    ensures
        has_panel_in(t, id) == has_panel_in(s, id),
    decreases s,
{
    if s.len() > 0 {
        collapsing_keeps_each_panel(s[0], even_share, t[0], id);
        collapsing_a_list_keeps_each_panel(s.subrange(1, s.len() as int), even_share, t.subrange(1, t.len() as int), id);
    }
}

/// What moving the panel `source_id` next to the panel `target_id` gives from `v`: refused
/// (`None`) when they are the same panel, when the source is not found or is the main panel,
/// when it is not a child of a split, or when the target is not found once it was taken out;
/// else the layout with the source taken out ([`take_panel`]), single-child splits collapsed
/// ([`collapses`]) and the source dropped on the target's side `drop` ([`inserts_panel`]).
pub open spec fn moves_panel<F: Fn(usize) -> u64>(
    v: LayoutView,
    source_id: Seq<char>,
    target_id: Seq<char>,
    drop: PaneDropDirection,
    even_share: F,
    r: Option<LayoutView>,
) -> bool {
    let taken = take_panel(v, source_id);
    if source_id == target_id || panel_main(v, source_id) != Some(false) || taken.0 is None {
        r is None
    } else {
        exists|mid: LayoutView|
            #[trigger] collapses(taken.1, even_share, mid) && match r {
                None => !has_panel(taken.1, target_id),
                Some(w) => has_panel(taken.1, target_id) && exists|c: Seq<char>|
                    c.len() == 36 && #[trigger] inserts_panel(mid, taken.0->0, target_id, drop, c, even_share, w),
            }
    }
}

/// Moves the panel `source_id` next to the panel `target_id`, on the side `drop_direction`
/// ([`moves_panel`]); gives the new layout, or `None` where the move is refused.
pub fn move_panel_in_layout<F: Fn(usize) -> u64>(
    layout: &LayoutNode,
    source_id: &str,
    target_id: &str,
    drop_direction: PaneDropDirection,
    even_share: &F,
) -> (r: Option<LayoutNode>)
    requires
        forall|n: usize| call_requires(*even_share, (n,)),
    ensures
        moves_panel(layout@, source_id@, target_id@, drop_direction, *even_share, opt_layout_view(r)),
{
    if str_eq(source_id, target_id) {
        return None;
    }
    match panel_is_main(layout, source_id) {
        Some(false) => {},
        _ => {
            return None;
        },
    }
    let mut root = copy_layout(layout);
    let taken = take_panel_from_layout(&mut root, source_id);
    let ghost taken_v = take_panel(layout@, source_id@);
    let source = match taken {
        Some(p) => p,
        None => {
            return None;
        },
    };
    let ghost source_v = source@;
    let ghost after_take = root@;
    assert(taken_v.0 == Some(source_v) && taken_v.1 == after_take);
    collapse_single_child_splits(&mut root, even_share);
    let ghost mid = root@;
    proof {
        collapsing_keeps_each_panel(after_take, *even_share, mid, target_id@);
    }
    if insert_panel_near_target(&mut root, source, target_id, drop_direction, even_share) {
        proof {
            let c = choose|c: Seq<char>| c.len() == 36 && #[trigger] inserts_panel(mid, source_v, target_id@, drop_direction, c, *even_share, root@);
            assert(c.len() == 36 && inserts_panel(mid, taken_v.0->0, target_id@, drop_direction, c, *even_share, root@));
            assert(collapses(taken_v.1, *even_share, mid));
            assert(opt_layout_view(Some(root)) == Some(root@));
        }
        Some(root)
    } else {
        proof {
            assert(collapses(taken_v.1, *even_share, mid));
        }
        None
    }
}


/// The share of room, as `f64` bits, of a node that takes all of it: `100.0`.
pub const FULL_SHARE_BITS: u64 = 0x4059_0000_0000_0000;

/// `v` with an empty panel `panel_id` at full share added: at the end of a split, or beside a
/// lone panel in a new horizontal split `split_id` at full share.
pub open spec fn appended_pane(v: LayoutView, panel_id: Seq<char>, split_id: Seq<char>) -> LayoutView {
    let p = LayoutView::Panel { id: panel_id, content: ContentView::Empty, flex_bits: FULL_SHARE_BITS };
    match v {
        LayoutView::Split { children, .. } => with_children(v, children.push(p)),
        LayoutView::Panel { .. } => LayoutView::Split {
            id: split_id,
            direction: SplitDirection::Horizontal,
            children: seq![v, p],
            flex_bits: FULL_SHARE_BITS,
            min_size_bits: None,
        },
    }
}

/// Adds an empty panel `panel_id` to the layout ([`appended_pane`], any new split named
/// `split_id`) unless it already holds `max_panels` panels; says whether it did.
pub fn append_watched_pane_with_ids(root: &mut LayoutNode, max_panels: usize, panel_id: &str, split_id: &str) -> (r: bool)
    requires
        panel_count(old(root)@) <= usize::MAX,
    ensures
        r == (panel_count(old(root)@) < max_panels),
        r ==> final(root)@ == appended_pane(old(root)@, panel_id@, split_id@),
        !r ==> final(root)@ == old(root)@,
{
    if count_layout_panels(root) >= max_panels {
        return false;
    }
    let new_panel = LayoutNode::Panel { id: owned(panel_id), content: PanelContent::Empty, flex_bits: FULL_SHARE_BITS };
    let ghost pv = new_panel@;
    let is_split = match root {
        LayoutNode::Split { .. } => true,
        LayoutNode::Panel { .. } => false,
    };
    if is_split {
        match root {
            LayoutNode::Split { children, .. } => {
                let ghost before = children@;
                children.push(new_panel);
                proof {
                    lemma_views_of(before);
                    lemma_views_of(children@);
                    assert(views_of(children@) =~= views_of(before).push(pv));
                }
            },
            LayoutNode::Panel { .. } => {},
        }
    } else {
        let mut original = LayoutNode::Panel { id: String::new(), content: PanelContent::Empty, flex_bits: 0 };
        std::mem::swap(root, &mut original);
        let ghost ov = original@;
        let mut children: Vec<LayoutNode> = Vec::new();
        children.push(original);
        children.push(new_panel);
        proof {
            lemma_views_of(children@);
            assert(views_of(children@) =~= seq![ov, pv]);
        }
        *root = LayoutNode::Split {
            id: owned(split_id),
            direction: SplitDirection::Horizontal,
            children,
            flex_bits: FULL_SHARE_BITS,
            min_size_bits: None,
        };
    }
    true
}

/// Adds an empty panel to the layout unless it already holds `max_panels` panels
/// ([`appended_pane`]), the panel, and any new split, named by fresh random ids; says whether
/// it did.
pub fn append_watched_pane(root: &mut LayoutNode, max_panels: usize) -> (r: bool)
    requires
        panel_count(old(root)@) <= usize::MAX,
    ensures
        r == (panel_count(old(root)@) < max_panels),
        r ==> exists|panel_id: Seq<char>, split_id: Seq<char>|
            panel_id.len() == 36 && split_id.len() == 36 && #[trigger] appended_pane(old(root)@, panel_id, split_id)
                == final(root)@,
        !r ==> final(root)@ == old(root)@,
{
    if count_layout_panels(root) >= max_panels {
        return false;
    }
    let panel_id = new_node_id();
    let split_id = new_node_id();
    append_watched_pane_with_ids(root, max_panels, panel_id.as_str(), split_id.as_str())
}


/// Adding a pane adds exactly one panel.
pub proof fn appending_a_pane_adds_one(v: LayoutView, panel_id: Seq<char>, split_id: Seq<char>)
    ensures
        panel_count(appended_pane(v, panel_id, split_id)) == panel_count(v) + 1,
{
    let p = LayoutView::Panel { id: panel_id, content: ContentView::Empty, flex_bits: FULL_SHARE_BITS };
    match v {
        LayoutView::Split { children, .. } => {
            lemma_panels_in_push(children, p);
        },
        LayoutView::Panel { .. } => {
            lemma_panels_in_push(seq![v], p);
            lemma_panels_in_push(Seq::<LayoutView>::empty(), v);
            assert(Seq::<LayoutView>::empty().push(v) =~= seq![v]);
            assert(seq![v].push(p) =~= seq![v, p]);
        },
    }
}


/// A move that goes through keeps the number of panels.
pub proof fn moving_a_panel_keeps_the_panels<F: Fn(usize) -> u64>(
    v: LayoutView,
    source_id: Seq<char>,
    target_id: Seq<char>,
    drop: PaneDropDirection,
    even_share: F,
    w: LayoutView,
)
    requires
        moves_panel(v, source_id, target_id, drop, even_share, Some(w)),
    ensures
        panel_count(w) == panel_count(v),
{
    let taken = take_panel(v, source_id);
    taking_a_panel_removes_exactly_it(v, source_id);
    let mid = choose|mid: LayoutView|
        #[trigger] collapses(taken.1, even_share, mid) && match Some(w) {
            None => !has_panel(taken.1, target_id),
            Some(w) => has_panel(taken.1, target_id) && exists|c: Seq<char>|
                c.len() == 36 && #[trigger] inserts_panel(mid, taken.0->0, target_id, drop, c, even_share, w),
        };
    collapsing_keeps_the_panels(taken.1, even_share, mid);
    collapsing_keeps_each_panel(taken.1, even_share, mid, target_id);
    let c = choose|c: Seq<char>| c.len() == 36 && #[trigger] inserts_panel(mid, taken.0->0, target_id, drop, c, even_share, w);
    dropping_a_panel_adds_it(mid, taken.0->0, target_id, drop, c, even_share, w);
}

} // verus!
