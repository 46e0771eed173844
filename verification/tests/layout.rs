use twirchat::app_state::PaneDropDirection;
use twirchat::layout::{
    append_watched_pane, append_watched_pane_with_ids, FULL_SHARE_BITS,
    assign_channel_to_panel, collapse_single_child_splits, collect_watched_channel_ids,
    copy_layout, count_layout_panels, insert_panel_near_target, move_panel_in_layout, insert_panel_near_target_with_id,
    layout_contains_watched_channel, layout_flex, panel_is_main, panel_watched_channel_id,
    rebalance_children, remove_panel_from_layout, set_layout_flex, take_panel_from_layout,
    LayoutNode, HALF_SHARE_BITS,
};
use twirchat::protocol::types::{PanelContent, SplitDirection};

fn panel(id: &str, content: PanelContent) -> LayoutNode {
    LayoutNode::Panel {
        id: id.to_string(),
        content,
        flex_bits: 50.0f64.to_bits(),
    }
}

fn watched(id: &str, channel: &str) -> LayoutNode {
    panel(
        id,
        PanelContent::Watched {
            channel_id: channel.to_string(),
        },
    )
}

fn split(id: &str, direction: SplitDirection, children: Vec<LayoutNode>) -> LayoutNode {
    LayoutNode::Split {
        id: id.to_string(),
        direction,
        children,
        flex_bits: 100.0f64.to_bits(),
        min_size_bits: None,
    }
}

/// main | (a / b / empty)
fn sample() -> LayoutNode {
    split(
        "root",
        SplitDirection::Horizontal,
        vec![
            panel("main", PanelContent::Main),
            split(
                "right",
                SplitDirection::Vertical,
                vec![
                    watched("pa", "chan-a"),
                    watched("pb", "chan-b"),
                    panel("pe", PanelContent::Empty),
                ],
            ),
        ],
    )
}

#[test]
fn counts_every_panel_of_nested_splits() {
    assert_eq!(count_layout_panels(&sample()), 4);
    assert_eq!(count_layout_panels(&panel("x", PanelContent::Empty)), 1);
    assert_eq!(count_layout_panels(&split("s", SplitDirection::Vertical, vec![])), 0);
}

#[test]
fn collects_watched_channels_in_tree_order() {
    let mut ids = vec!["before".to_string()];
    collect_watched_channel_ids(&sample(), &mut ids);
    assert_eq!(ids, vec!["before", "chan-a", "chan-b"]);
}

#[test]
fn finds_the_channel_of_a_watched_panel() {
    let layout = sample();
    assert_eq!(panel_watched_channel_id(&layout, "pb"), Some("chan-b".to_string()));
    assert_eq!(panel_watched_channel_id(&layout, "main"), None);
    assert_eq!(panel_watched_channel_id(&layout, "pe"), None);
    assert_eq!(panel_watched_channel_id(&layout, "missing"), None);
}

#[test]
fn tells_whether_a_channel_is_watched() {
    let layout = sample();
    assert!(layout_contains_watched_channel(&layout, "chan-a"));
    assert!(!layout_contains_watched_channel(&layout, "chan-z"));
    assert!(!layout_contains_watched_channel(&layout, "main"));
}

#[test]
fn tells_whether_a_panel_is_the_main_one() {
    let layout = sample();
    assert_eq!(panel_is_main(&layout, "main"), Some(true));
    assert_eq!(panel_is_main(&layout, "pa"), Some(false));
    assert_eq!(panel_is_main(&layout, "right"), None);
    assert_eq!(panel_is_main(&layout, "missing"), None);
}

#[test]
fn takes_a_nested_panel_out() {
    let mut layout = sample();
    let taken = take_panel_from_layout(&mut layout, "pb");
    assert_eq!(taken, Some(watched("pb", "chan-b")));
    assert_eq!(count_layout_panels(&layout), 3);
    assert_eq!(panel_watched_channel_id(&layout, "pb"), None);
    let expected = split(
        "root",
        SplitDirection::Horizontal,
        vec![
            panel("main", PanelContent::Main),
            split(
                "right",
                SplitDirection::Vertical,
                vec![watched("pa", "chan-a"), panel("pe", PanelContent::Empty)],
            ),
        ],
    );
    assert_eq!(layout, expected);
}

#[test]
fn taking_a_missing_panel_changes_nothing() {
    let mut layout = sample();
    assert_eq!(take_panel_from_layout(&mut layout, "missing"), None);
    assert_eq!(take_panel_from_layout(&mut layout, "right"), None);
    assert_eq!(layout, sample());
    let mut lone = panel("main", PanelContent::Main);
    assert_eq!(take_panel_from_layout(&mut lone, "main"), None);
    assert_eq!(lone, panel("main", PanelContent::Main));
}

#[test]
fn assigned_channel_is_read_back() {
    let mut layout = sample();
    assert!(assign_channel_to_panel(&mut layout, "pe", "chan-e"));
    assert_eq!(panel_watched_channel_id(&layout, "pe"), Some("chan-e".to_string()));
    assert!(layout_contains_watched_channel(&layout, "chan-e"));
    assert_eq!(count_layout_panels(&layout), 4);
    let mut ids = Vec::new();
    collect_watched_channel_ids(&layout, &mut ids);
    assert_eq!(ids, vec!["chan-a", "chan-b", "chan-e"]);
}

#[test]
fn assigning_to_a_missing_panel_changes_nothing() {
    let mut layout = sample();
    assert!(!assign_channel_to_panel(&mut layout, "missing", "chan-x"));
    assert!(!assign_channel_to_panel(&mut layout, "right", "chan-x"));
    assert_eq!(layout, sample());
}

#[test]
fn flex_is_read_and_set_on_panels_and_splits() {
    let mut node = panel("p", PanelContent::Empty);
    assert_eq!(f64::from_bits(layout_flex(&node)), 50.0);
    set_layout_flex(&mut node, 25.0f64.to_bits());
    assert_eq!(f64::from_bits(layout_flex(&node)), 25.0);
    let mut s = sample();
    assert_eq!(f64::from_bits(layout_flex(&s)), 100.0);
    set_layout_flex(&mut s, 33.5f64.to_bits());
    assert_eq!(f64::from_bits(layout_flex(&s)), 33.5);
    assert_eq!(count_layout_panels(&s), 4);
}

fn even_share(n: usize) -> u64 {
    (100.0 / n as f64).to_bits()
}

fn with_flex(mut node: LayoutNode, flex: f64) -> LayoutNode {
    set_layout_flex(&mut node, flex.to_bits());
    node
}

fn children_of(node: &LayoutNode) -> &Vec<LayoutNode> {
    match node {
        LayoutNode::Split { children, .. } => children,
        LayoutNode::Panel { .. } => panic!("expected a split"),
    }
}

#[test]
fn half_share_is_fifty() {
    assert_eq!(f64::from_bits(HALF_SHARE_BITS), 50.0);
}

#[test]
fn rebalancing_gives_every_child_an_even_share() {
    let mut children = vec![watched("a", "x"), watched("b", "y"), panel("c", PanelContent::Empty), panel("d", PanelContent::Main)];
    rebalance_children(&mut children, &even_share);
    for child in &children {
        assert_eq!(f64::from_bits(layout_flex(child)), 25.0);
    }
    let mut none: Vec<LayoutNode> = vec![];
    rebalance_children(&mut none, &even_share);
    assert!(none.is_empty());
}

#[test]
fn removing_a_panel_evens_out_its_siblings() {
    let mut layout = sample();
    assert!(remove_panel_from_layout(&mut layout, "pb", &even_share));
    let right = &children_of(&layout)[1];
    assert_eq!(
        children_of(right),
        &vec![with_flex(watched("pa", "chan-a"), 50.0), with_flex(panel("pe", PanelContent::Empty), 50.0)]
    );
    assert_eq!(count_layout_panels(&layout), 3);
}

#[test]
fn removing_down_to_one_child_lifts_it_into_place() {
    let mut layout = sample();
    assert!(remove_panel_from_layout(&mut layout, "pb", &even_share));
    assert!(remove_panel_from_layout(&mut layout, "pe", &even_share));
    assert_eq!(
        children_of(&layout),
        &vec![panel("main", PanelContent::Main), with_flex(watched("pa", "chan-a"), 50.0)]
    );
    let mut layout = sample();
    assert!(remove_panel_from_layout(&mut layout, "main", &even_share));
    assert_eq!(
        layout,
        split(
            "right",
            SplitDirection::Vertical,
            vec![watched("pa", "chan-a"), watched("pb", "chan-b"), panel("pe", PanelContent::Empty)],
        )
    );
}

#[test]
fn removing_a_missing_panel_changes_nothing() {
    let mut layout = sample();
    assert!(!remove_panel_from_layout(&mut layout, "nope", &even_share));
    assert_eq!(layout, sample());
    let mut single = panel("x", PanelContent::Empty);
    assert!(!remove_panel_from_layout(&mut single, "x", &even_share));
    assert_eq!(single, panel("x", PanelContent::Empty));
}

#[test]
fn dropping_along_a_split_joins_it_with_even_shares() {
    let mut layout = sample();
    let source = watched("pn", "chan-n");
    assert!(insert_panel_near_target_with_id(&mut layout, source, "pa", PaneDropDirection::Bottom, "s-new", &even_share));
    let right = &children_of(&layout)[1];
    assert_eq!(
        children_of(right),
        &vec![
            with_flex(watched("pa", "chan-a"), 25.0),
            with_flex(watched("pn", "chan-n"), 25.0),
            with_flex(watched("pb", "chan-b"), 25.0),
            with_flex(panel("pe", PanelContent::Empty), 25.0),
        ]
    );
    let mut layout = sample();
    assert!(insert_panel_near_target_with_id(&mut layout, watched("pn", "chan-n"), "main", PaneDropDirection::Left, "s-new", &even_share));
    let third = 100.0 / 3.0;
    assert_eq!(children_of(&layout)[0], with_flex(watched("pn", "chan-n"), third));
    assert_eq!(children_of(&layout)[1], with_flex(panel("main", PanelContent::Main), third));
    assert_eq!(count_layout_panels(&layout), 5);
}

#[test]
fn dropping_across_a_split_pairs_the_target() {
    let mut layout = sample();
    assert!(insert_panel_near_target_with_id(&mut layout, watched("pn", "chan-n"), "pa", PaneDropDirection::Right, "s-new", &even_share));
    let right = &children_of(&layout)[1];
    assert_eq!(
        children_of(right)[0],
        LayoutNode::Split {
            id: "s-new".to_string(),
            direction: SplitDirection::Horizontal,
            children: vec![with_flex(watched("pa", "chan-a"), 50.0), with_flex(watched("pn", "chan-n"), 50.0)],
            flex_bits: 50.0f64.to_bits(),
            min_size_bits: None,
        }
    );
    let mut single = with_flex(panel("x", PanelContent::Empty), 100.0);
    assert!(insert_panel_near_target_with_id(&mut single, watched("pn", "chan-n"), "x", PaneDropDirection::Top, "s-top", &even_share));
    assert_eq!(
        single,
        LayoutNode::Split {
            id: "s-top".to_string(),
            direction: SplitDirection::Vertical,
            children: vec![with_flex(watched("pn", "chan-n"), 50.0), with_flex(panel("x", PanelContent::Empty), 50.0)],
            flex_bits: 100.0f64.to_bits(),
            min_size_bits: None,
        }
    );
}

#[test]
fn dropping_on_a_missing_target_changes_nothing() {
    let mut layout = sample();
    assert!(!insert_panel_near_target_with_id(&mut layout, watched("pn", "chan-n"), "nope", PaneDropDirection::Left, "s-new", &even_share));
    assert_eq!(layout, sample());
}

#[test]
fn a_new_split_gets_a_fresh_uuid() {
    let mut layout = sample();
    assert!(insert_panel_near_target(&mut layout, watched("pn", "chan-n"), "pa", PaneDropDirection::Left, &even_share));
    match &children_of(&children_of(&layout)[1])[0] {
        LayoutNode::Split { id, .. } => {
            assert_eq!(id.len(), 36);
            assert_eq!(id.matches('-').count(), 4);
        },
        LayoutNode::Panel { .. } => panic!("expected a split"),
    }
}

#[test]
fn collapsing_lifts_lone_children_and_evens_out_shares() {
    let mut nested = split("root", SplitDirection::Horizontal, vec![split("s1", SplitDirection::Vertical, vec![watched("a", "x")])]);
    collapse_single_child_splits(&mut nested, &even_share);
    assert_eq!(nested, watched("a", "x"));

    let mut layout = split(
        "root",
        SplitDirection::Horizontal,
        vec![watched("a", "x"), split("s1", SplitDirection::Vertical, vec![watched("b", "y")]), watched("c", "z")],
    );
    collapse_single_child_splits(&mut layout, &even_share);
    let third = 100.0 / 3.0;
    assert_eq!(
        children_of(&layout),
        &vec![with_flex(watched("a", "x"), third), with_flex(watched("b", "y"), third), with_flex(watched("c", "z"), third)]
    );
}

#[test]
fn copying_a_layout_gives_an_equal_one() {
    assert_eq!(copy_layout(&sample()), sample());
}

#[test]
fn moving_a_pane_takes_it_out_and_drops_it_by_the_target() {
    let third = 100.0 / 3.0;
    let moved = move_panel_in_layout(&sample(), "pb", "main", PaneDropDirection::Right, &even_share).expect("moved");
    assert_eq!(
        moved,
        with_flex(
            split(
                "root",
                SplitDirection::Horizontal,
                vec![
                    with_flex(panel("main", PanelContent::Main), third),
                    with_flex(watched("pb", "chan-b"), third),
                    with_flex(
                        split(
                            "right",
                            SplitDirection::Vertical,
                            vec![with_flex(watched("pa", "chan-a"), 50.0), with_flex(panel("pe", PanelContent::Empty), 50.0)],
                        ),
                        third,
                    ),
                ],
            ),
            100.0,
        )
    );
    assert_eq!(count_layout_panels(&moved), 4);
}

#[test]
fn moving_a_pane_is_refused_where_the_original_refuses() {
    let layout = sample();
    assert_eq!(move_panel_in_layout(&layout, "pa", "pa", PaneDropDirection::Left, &even_share), None);
    assert_eq!(move_panel_in_layout(&layout, "main", "pa", PaneDropDirection::Left, &even_share), None);
    assert_eq!(move_panel_in_layout(&layout, "nope", "pa", PaneDropDirection::Left, &even_share), None);
    assert_eq!(move_panel_in_layout(&layout, "pa", "nope", PaneDropDirection::Left, &even_share), None);
    assert_eq!(layout, sample());
}

#[test]
fn appending_a_pane_respects_the_limit() {
    let mut layout = sample();
    assert!(!append_watched_pane_with_ids(&mut layout, 4, "px", "sx"));
    assert_eq!(layout, sample());
    assert!(append_watched_pane_with_ids(&mut layout, 5, "px", "sx"));
    assert_eq!(children_of(&layout).len(), 3);
    assert_eq!(children_of(&layout)[2], with_flex(panel("px", PanelContent::Empty), 100.0));
    assert_eq!(f64::from_bits(FULL_SHARE_BITS), 100.0);

    let mut single = panel("only", PanelContent::Main);
    assert!(append_watched_pane_with_ids(&mut single, 5, "px", "sx"));
    assert_eq!(
        single,
        LayoutNode::Split {
            id: "sx".to_string(),
            direction: SplitDirection::Horizontal,
            children: vec![panel("only", PanelContent::Main), with_flex(panel("px", PanelContent::Empty), 100.0)],
            flex_bits: 100.0f64.to_bits(),
            min_size_bits: None,
        }
    );
}

#[test]
fn appended_panes_get_fresh_uuids() {
    let mut single = panel("only", PanelContent::Main);
    assert!(append_watched_pane(&mut single, 5));
    match &single {
        LayoutNode::Split { id, children, .. } => {
            assert_eq!(id.len(), 36);
            match &children[1] {
                LayoutNode::Panel { id: pid, .. } => {
                    assert_eq!(pid.len(), 36);
                    assert_ne!(pid, id);
                },
                LayoutNode::Split { .. } => panic!("expected a panel"),
            }
        },
        LayoutNode::Panel { .. } => panic!("expected a split"),
    }
    let mut full = sample();
    assert!(!append_watched_pane(&mut full, 4));
}
