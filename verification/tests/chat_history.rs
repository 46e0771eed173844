use std::cmp::Ordering;
use twirchat::chat::history::{
    compare_messages, insert_live_message, insert_live_message_in_place, merge_older_page,
    sort_messages,
};
use twirchat::chat::normalize::{message_timestamp_millis, normalize_message};
use twirchat::protocol::types::{ChatAuthor, ChatMessageType, NormalizedChatMessage, Platform};

fn message(id: &str, timestamp: &str) -> NormalizedChatMessage {
    NormalizedChatMessage {
        id: id.to_string(),
        platform: Platform::Twitch,
        channel_id: "channel".to_string(),
        author: ChatAuthor {
            id: "author".to_string(),
            username: None,
            display_name: "Author".to_string(),
            color: None,
            avatar_url: None,
            badges: vec![],
        },
        text: format!("text of {id}"),
        emotes: vec![],
        timestamp: timestamp.to_string(),
        message_type: ChatMessageType::Message,
        reply: None,
    }
}

fn ids(messages: &[NormalizedChatMessage]) -> Vec<&str> {
    messages.iter().map(|m| m.id.as_str()).collect()
}

#[test]
fn numeric_timestamps_read_as_milliseconds() {
    assert_eq!(message_timestamp_millis(&message("a", "1700000000000")), 1_700_000_000_000);
    assert_eq!(message_timestamp_millis(&message("a", "  42 ")), 42);
    assert_eq!(message_timestamp_millis(&message("a", "-5")), -5);
    assert_eq!(message_timestamp_millis(&message("a", "+7")), 7);
}

#[test]
fn iso_timestamps_read_as_milliseconds() {
    assert_eq!(message_timestamp_millis(&message("a", "1970-01-01T00:00:00Z")), 0);
    assert_eq!(message_timestamp_millis(&message("a", "1969-12-31T23:59:59Z")), -1000);
    assert_eq!(
        message_timestamp_millis(&message("a", "2024-02-29T12:34:56.789Z")),
        1_709_210_096_789
    );
    assert_eq!(
        message_timestamp_millis(&message("a", "2024-02-29T12:34:56.7891234")),
        1_709_210_096_789
    );
    assert_eq!(message_timestamp_millis(&message("a", "0001-01-01T00:00:00Z")), -62_135_596_800_000);
}

#[test]
fn invalid_dates_fall_back_to_the_text_key() {
    // 2023 has no 29 February: the first 16 bytes of the text make the key.
    assert_eq!(
        message_timestamp_millis(&message("a", "2023-02-29T00:00:00Z")),
        66_711_648_213_557_027_015_710_904_904_830_300_208
    );
    assert_eq!(message_timestamp_millis(&message("a", "abc")), 0x61_62_63);
    // 16 bytes whose first has its high bit set give a negative key.
    assert_eq!(
        message_timestamp_millis(&message("a", "ÿÿÿÿÿÿÿÿ")),
        -80_087_208_779_866_557_724_255_587_777_944_501_313
    );
    assert_eq!(message_timestamp_millis(&message("a", "2024-13-01T00:00:00Z")) > 1i128 << 100, true);
}

#[test]
fn messages_compare_by_time_then_id() {
    let early = message("b", "1000");
    let late = message("a", "2000");
    assert_eq!(compare_messages(&early, &late), Ordering::Less);
    assert_eq!(compare_messages(&late, &early), Ordering::Greater);
    let same_time = message("c", "1000");
    assert_eq!(compare_messages(&early, &same_time), Ordering::Less);
    assert_eq!(compare_messages(&early, &message("b", "1970-01-01T00:00:01Z")), Ordering::Equal);
}

#[test]
fn sort_is_stable_by_time_then_id() {
    let mut messages = vec![
        message("m3", "3000"),
        message("m1", "1000"),
        message("m2", "1970-01-01T00:00:02Z"),
        message("m0", "1000"),
    ];
    sort_messages(&mut messages);
    assert_eq!(ids(&messages), vec!["m0", "m1", "m2", "m3"]);

    let mut equal = vec![message("x", "5"), message("x", "5")];
    equal[0].text = "first".to_string();
    equal[1].text = "second".to_string();
    sort_messages(&mut equal);
    assert_eq!(equal[0].text, "first");
    assert_eq!(equal[1].text, "second");
}

#[test]
fn live_message_goes_in_order_and_duplicates_are_ignored() {
    let existing = vec![message("a", "1000"), message("c", "3000")];
    let next = insert_live_message(&existing, message("b", "2000"));
    assert_eq!(ids(&next), vec!["a", "b", "c"]);

    let last = insert_live_message(&existing, message("d", "9000"));
    assert_eq!(ids(&last), vec!["a", "c", "d"]);

    let first = insert_live_message(&existing, message("z", "10"));
    assert_eq!(ids(&first), vec!["z", "a", "c"]);

    let duplicate = insert_live_message(&existing, message("c", "1"));
    assert_eq!(duplicate, existing);

    // A message with the same time as one already there goes after it.
    let tie = insert_live_message(&existing, message("a", "1000"));
    assert_eq!(ids(&tie), vec!["a", "c"]);
    let tie = insert_live_message(&existing, message("b", "1000"));
    assert_eq!(ids(&tie), vec!["a", "b", "c"]);
}

#[test]
fn live_message_in_place_reports_whether_it_was_added() {
    let mut messages = vec![message("a", "1000"), message("c", "3000")];
    assert!(insert_live_message_in_place(&mut messages, message("b", "2000")));
    assert_eq!(ids(&messages), vec!["a", "b", "c"]);
    assert!(!insert_live_message_in_place(&mut messages, message("b", "2500")));
    assert_eq!(ids(&messages), vec!["a", "b", "c"]);
    assert_eq!(messages[1].timestamp, "2000");
}

#[test]
fn older_page_skips_loaded_and_repeated_ids() {
    let older = vec![
        message("o1", "1"),
        message("e1", "2"),
        message("o2", "3"),
        message("o1", "4"),
    ];
    let existing = vec![message("e1", "10"), message("e2", "11")];
    let merged = merge_older_page(older.clone(), existing.clone());
    assert_eq!(ids(&merged), vec!["o1", "o2", "e1", "e2"]);
    assert_eq!(merged[0].timestamp, "1");
    assert_eq!(merged[2].timestamp, "10");

    // Loading the same page again adds nothing.
    let again = merge_older_page(older, merged.clone());
    assert_eq!(again, merged);
}

#[test]
fn normalize_message_hands_the_message_back() {
    let m = message("a", "1");
    assert_eq!(normalize_message(m.clone()), m);
}
