use twirchat::app_state::{cycle_index, cycle_tab, reorder_tab_ids, UserCardHistoryRequestKind, UserCardLoadState, UserCardTarget};
use twirchat::protocol::types::Platform;
use twirchat::user_card::{UserCardHistoryPage, UserCardModalState};

fn target() -> UserCardTarget {
    UserCardTarget {
        platform: Platform::Twitch,
        platform_user_id: "42".to_string(),
        channel_id: "chan".to_string(),
        channel_slug: "chan".to_string(),
        display_name: "Viewer".to_string(),
        username: Some("viewer".to_string()),
        avatar_url: None,
        current_alias: None,
    }
}

#[test]
fn opening_the_card_starts_a_new_generation() {
    let mut card = UserCardModalState::closed();
    assert_eq!(card.open_user_card(target()), 1);
    assert!(card.open);
    assert_eq!(card.close_user_card(), 2);
    assert!(!card.open);
    assert!(card.target.is_none());
}

#[test]
fn history_answer_for_a_closed_card_is_ignored() {
    let mut card = UserCardModalState::closed();
    card.open_user_card(target());
    let request = card.start_user_card_history_load().expect("request");
    assert_eq!(request.kind, UserCardHistoryRequestKind::Initial);
    card.close_user_card();
    card.open_user_card(target());
    let page = UserCardHistoryPage { messages: Vec::new(), has_more: true, next_cursor: None };
    assert!(!card.apply_user_card_history_result(request, Ok(page)));
    assert_eq!(card.history, UserCardLoadState::Idle);
}

#[test]
fn history_answer_to_the_awaited_request_is_loaded() {
    let mut card = UserCardModalState::closed();
    card.open_user_card(target());
    let request = card.start_user_card_history_load().expect("request");
    let page = UserCardHistoryPage { messages: Vec::new(), has_more: false, next_cursor: None };
    assert!(card.apply_user_card_history_result(request, Ok(page)));
    assert!(matches!(card.history, UserCardLoadState::Loaded { generation: 1, .. }));
    assert!(!card.apply_user_card_history_result(request, Err("late".to_string())));
}

#[test]
fn older_history_needs_a_cursor() {
    let mut card = UserCardModalState::closed();
    card.open_user_card(target());
    assert!(card.start_user_card_older_history_load().is_none());
    assert!(card.start_user_card_metadata_load() == Some(1));
    assert!(card.apply_user_card_metadata_result(1, Err("offline".to_string())));
    assert!(!card.apply_user_card_metadata_result(0, Err("stale".to_string())));
}

#[test]
fn dragging_a_tab_onto_a_later_one_lands_before_it_moves_up() {
    let ids: Vec<String> = ["a", "b", "c", "d"].iter().map(|s| s.to_string()).collect();
    assert_eq!(reorder_tab_ids(&ids, "a", "c"), Some(vec!["b".to_string(), "a".to_string(), "c".to_string(), "d".to_string()]));
    assert_eq!(reorder_tab_ids(&ids, "d", "b"), Some(vec!["a".to_string(), "d".to_string(), "b".to_string(), "c".to_string()]));
    assert_eq!(reorder_tab_ids(&ids, "a", "a"), None);
    assert_eq!(reorder_tab_ids(&ids, "x", "a"), None);
}

#[test]
fn cycling_tabs_wraps_around_both_ends() {
    let ids: Vec<String> = ["home", "a", "b"].iter().map(|s| s.to_string()).collect();
    assert_eq!(cycle_tab(&ids, "home", 1), Some("a".to_string()));
    assert_eq!(cycle_tab(&ids, "home", -1), Some("b".to_string()));
    assert_eq!(cycle_tab(&ids, "missing", -1), Some("b".to_string()));
    assert_eq!(cycle_tab(&ids, "b", 4), Some("home".to_string()));
    assert_eq!(cycle_tab(&ids[..1].to_vec(), "home", 1), None);
    assert_eq!(cycle_index(3, 0, i32::MIN), 1);
}
