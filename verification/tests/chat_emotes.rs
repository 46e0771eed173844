use twirchat::chat::aggregate::{
    enrich_message_with_seven_tv, merge_seven_tv_emotes, parse_seven_tv_emotes, token_ranges,
    ChatAggregator, ChatReplayItem, IngestOutcome, SevenTvCatalog, SevenTvEmote,
};
use twirchat::chat::alias::{apply_alias, apply_aliases, AliasBook};
use twirchat::chat::autocomplete::mention_suggestions;
use twirchat::protocol::types::{
    ChatAuthor, ChatMessageType, Emote, EmotePosition, EventUser, NormalizedChatMessage,
    NormalizedEvent, NormalizedEventType, Platform,
};

fn emote(id: &str, name: &str) -> SevenTvEmote {
    SevenTvEmote {
        id: id.to_string(),
        name: name.to_string(),
        image_url: format!("https://cdn.7tv.app/emote/{id}/1x.webp"),
        animated: false,
        zero_width: false,
        aspect_ratio_bits: 1.0f64.to_bits(),
    }
}

fn message(id: &str, author_id: &str, name: &str, text: &str) -> NormalizedChatMessage {
    NormalizedChatMessage {
        id: id.to_string(),
        platform: Platform::Twitch,
        channel_id: "chan".to_string(),
        author: ChatAuthor {
            id: author_id.to_string(),
            username: Some(name.to_lowercase()),
            display_name: name.to_string(),
            color: Some("#fff".to_string()),
            avatar_url: None,
            badges: vec![],
        },
        text: text.to_string(),
        emotes: vec![],
        timestamp: "1".to_string(),
        message_type: ChatMessageType::Message,
        reply: None,
    }
}

fn event(id: &str) -> NormalizedEvent {
    NormalizedEvent {
        id: id.to_string(),
        platform: Platform::Kick,
        event_type: NormalizedEventType::Follow,
        user: EventUser { id: "u".to_string(), display_name: "U".to_string(), avatar_url: None },
        data: serde_json::Map::new(),
        timestamp: "2".to_string(),
    }
}

#[test]
fn tokens_carry_byte_offsets() {
    let tokens = token_ranges("  Kappa é  KEKW\tx");
    let words: Vec<(&str, u32, u32)> = tokens.iter().map(|(w, s, e)| (w.as_str(), *s, *e)).collect();
    assert_eq!(words, vec![("Kappa", 2, 6), ("é", 8, 9), ("KEKW", 12, 15), ("x", 17, 17)]);
    assert!(token_ranges("   ").is_empty());
}

#[test]
fn catalog_stores_one_emote_per_name_in_key_order() {
    let mut catalog = SevenTvCatalog::new();
    catalog.insert(Platform::Twitch, "chan".to_string(), emote("2", "b"));
    catalog.insert(Platform::Twitch, "chan".to_string(), emote("1", "a"));
    catalog.insert(Platform::Kick, "chan".to_string(), emote("9", "z"));
    catalog.insert(Platform::Twitch, "chan".to_string(), emote("3", "b"));
    assert_eq!(catalog.get(Platform::Twitch, "chan", "b").map(|e| e.id.as_str()), Some("3"));
    assert_eq!(catalog.get(Platform::Twitch, "other", "b"), None);
    let names: Vec<String> = catalog.for_channel(Platform::Twitch, "chan").into_iter().map(|e| e.name).collect();
    assert_eq!(names, vec!["a", "b"]);

    let found = catalog.for_channel_candidates(Platform::Twitch, &vec!["none".to_string(), "chan".to_string()]);
    assert_eq!(found.len(), 2);
    assert!(catalog.for_channel_candidates(Platform::Youtube, &vec!["chan".to_string()]).is_empty());
}

#[test]
fn catalog_updates_and_removes_by_id() {
    let mut catalog = SevenTvCatalog::new();
    catalog.insert(Platform::Twitch, "chan".to_string(), emote("1", "old"));
    catalog.insert(Platform::Twitch, "chan".to_string(), emote("2", "keep"));
    catalog.update_alias(Platform::Twitch, "chan", "1", "new");
    assert_eq!(catalog.get(Platform::Twitch, "chan", "old"), None);
    assert_eq!(catalog.get(Platform::Twitch, "chan", "new").map(|e| e.id.as_str()), Some("1"));
    catalog.update_alias(Platform::Twitch, "chan", "missing", "x");
    assert_eq!(catalog.for_channel(Platform::Twitch, "chan").len(), 2);

    catalog.remove_by_id(Platform::Twitch, "chan", "2");
    assert_eq!(catalog.get(Platform::Twitch, "chan", "keep"), None);

    catalog.replace_for_channel(Platform::Twitch, "chan", vec![emote("5", "five"), emote("6", "six")]);
    let names: Vec<String> = catalog.for_channel(Platform::Twitch, "chan").into_iter().map(|e| e.name).collect();
    assert_eq!(names, vec!["five", "six"]);
}

#[test]
fn emotes_found_in_text_group_positions_by_id() {
    let mut catalog = SevenTvCatalog::new();
    catalog.insert(Platform::Twitch, "chan".to_string(), emote("k", "KEKW"));
    catalog.insert(Platform::Twitch, "chan".to_string(), emote("p", "pog"));
    let found = parse_seven_tv_emotes("KEKW hi pog KEKW", Platform::Twitch, "chan", &catalog);
    assert_eq!(found.len(), 2);
    assert_eq!(found[0].id, "k");
    assert_eq!(found[0].positions, vec![EmotePosition { start: 0, end: 3 }, EmotePosition { start: 12, end: 15 }]);
    assert_eq!(found[1].positions, vec![EmotePosition { start: 8, end: 10 }]);
    assert_eq!(found[1].aspect_ratio_bits, Some(1.0f64.to_bits()));
}

#[test]
fn merging_keeps_existing_emote_ids() {
    let mut catalog = SevenTvCatalog::new();
    catalog.insert(Platform::Twitch, "chan".to_string(), emote("k", "KEKW"));
    catalog.insert(Platform::Twitch, "seven".to_string(), emote("s", "Sad"));
    let mut m = message("m1", "u1", "User", "KEKW Sad");
    m.emotes.push(Emote {
        id: "k".to_string(),
        name: "native".to_string(),
        image_url: "x".to_string(),
        positions: vec![],
        aspect_ratio_bits: None,
    });
    let merged = merge_seven_tv_emotes(m.clone(), &catalog);
    assert_eq!(merged.emotes.len(), 1);
    assert_eq!(merged.emotes[0].name, "native");

    let enriched = enrich_message_with_seven_tv(m, "seven", &catalog);
    assert_eq!(enriched.channel_id, "chan");
    assert_eq!(enriched.emotes.len(), 2);
    assert_eq!(enriched.emotes[1].id, "s");
}

#[test]
fn aggregator_drops_duplicates_and_evicts_oldest() {
    let mut chat = ChatAggregator::new(2);
    assert!(chat.inject_message(message("a", "u", "U", "hi")).is_some());
    assert!(chat.inject_message(message("a", "u", "U", "hi")).is_none());
    assert!(chat.inject_message(message("b", "u", "U", "hi")).is_some());
    assert!(chat.inject_message(message("c", "u", "U", "hi")).is_some());
    let ids: Vec<String> = chat.get_recent_messages().into_iter().map(|m| m.id).collect();
    assert_eq!(ids, vec!["b", "c"]);
    assert_eq!(chat.seen_message_count(), 2);
    // "a" left the buffer, so it is new again.
    assert!(chat.inject_message_ref(message("a", "u", "U", "hi")).is_some());
    assert_eq!(chat.recent_messages().len(), 2);

    let mut unbuffered = ChatAggregator::new(0);
    assert!(unbuffered.inject_message(message("a", "u", "U", "hi")).is_some());
    assert!(unbuffered.inject_message(message("a", "u", "U", "hi")).is_some());
    assert!(unbuffered.inject_message_ref(message("a", "u", "U", "hi")).is_none());
    assert_eq!(unbuffered.seen_message_count(), 0);
}

#[test]
fn replay_reports_each_item() {
    let mut chat = ChatAggregator::default();
    let outcomes = chat.replay(vec![
        ChatReplayItem::Message(message("a", "u", "U", "hi")),
        ChatReplayItem::Event(event("e1")),
        ChatReplayItem::Message(message("a", "u", "U", "again")),
    ]);
    assert!(matches!(outcomes[0], IngestOutcome::Message(ref m) if m.id == "a"));
    assert_eq!(outcomes[1], IngestOutcome::Event(event("e1")));
    assert_eq!(outcomes[2], IngestOutcome::DuplicateMessage { id: "a".to_string() });
    assert_eq!(chat.events().len(), 1);
    chat.seven_tv_mut().insert(Platform::Twitch, "chan".to_string(), emote("k", "KEKW"));
    let m = chat.inject_message(message("b", "u", "U", "KEKW")).unwrap();
    assert_eq!(m.emotes.len(), 1);
}

#[test]
fn aliases_replace_display_names() {
    let mut book = AliasBook::default();
    book.set(Platform::Twitch, "u1".to_string(), "Buddy".to_string());
    let m = message("m", "u1", "User", "hi");
    let aliased = book.apply(&m);
    assert_eq!(aliased.message.author.display_name, "Buddy");
    assert_eq!(aliased.original_display_name, "User");
    assert_eq!(aliased.alias.as_deref(), Some("Buddy"));

    let plain = apply_alias(&m, Some(""));
    assert_eq!(plain.alias, None);
    assert_eq!(plain.message, m);

    let all = apply_aliases(&vec![m.clone(), message("n", "u2", "Other", "yo")], &book);
    assert_eq!(all[0].message.author.display_name, "Buddy");
    assert_eq!(all[1].message.author.display_name, "Other");
}

#[test]
fn mention_suggestions_list_each_user_once() {
    let mut book = AliasBook::default();
    book.set(Platform::Twitch, "u1".to_string(), "Buddy".to_string());
    let mut anonymous = message("m3", "", "Guest", "hey");
    anonymous.author.username = None;
    let messages = vec![
        message("m1", "u1", "User", "hi"),
        message("m2", "u1", "User", "again"),
        anonymous.clone(),
        message("m4", "", "GUEST", "yo"),
    ];
    let suggestions = mention_suggestions(&messages, &book);
    assert_eq!(suggestions.len(), 2);
    assert_eq!(suggestions[0].label, "Buddy");
    assert_eq!(suggestions[0].insert_label, "User");
    assert_eq!(suggestions[0].description.as_deref(), Some("@user - twitch"));
    assert_eq!(suggestions[0].current_alias.as_deref(), Some("Buddy"));
    assert_eq!(suggestions[1].label, "Guest");
    assert_eq!(suggestions[1].description.as_deref(), Some("twitch"));
    assert_eq!(suggestions[1].current_alias, None);
}
