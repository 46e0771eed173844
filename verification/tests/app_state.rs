use twirchat::app_state::{
    backfill_badge_images, chat_reply_from_message, dedupe_channel_ids, format_platform_label,
    home_channel_status_key, home_channel_target_id, hydrate_badge_images_from_snapshot,
    is_seven_tv_emote, live_status_platform, live_status_platform_key, map_backend_seven_tv_emote,
    message_matches_seven_tv_channel, normalize_user_lookup, pane_drop_split_direction,
    push_home_channel_status_request, seven_tv_system_message_data, PaneDropDirection,
};
use twirchat::protocol::messages::{LiveStatusPlatform, SevenTvEmote, SevenTvSystemMessage};
use twirchat::protocol::types::{
    Badge, ChatAuthor, ChatMessageType, Emote, NormalizedChatMessage, Platform, SplitDirection,
    WatchedChannel,
};

fn badge(id: &str, image: Option<&str>) -> Badge {
    Badge {
        id: id.to_string(),
        badge_type: "type".to_string(),
        text: id.to_string(),
        image_url: image.map(|s| s.to_string()),
    }
}

fn message(id: &str, channel: &str, badges: Vec<Badge>) -> NormalizedChatMessage {
    NormalizedChatMessage {
        id: id.to_string(),
        platform: Platform::Twitch,
        channel_id: channel.to_string(),
        author: ChatAuthor {
            id: "u1".to_string(),
            username: Some("user".to_string()),
            display_name: "User".to_string(),
            color: None,
            avatar_url: None,
            badges,
        },
        text: "hello".to_string(),
        emotes: vec![],
        timestamp: "1".to_string(),
        message_type: ChatMessageType::Message,
        reply: None,
    }
}

fn seven_tv_emote() -> SevenTvEmote {
    SevenTvEmote {
        id: "e1".to_string(),
        alias: "KEKW".to_string(),
        name: "kekw".to_string(),
        animated: false,
        zero_width: false,
        aspect_ratio_bits: 1.5f64.to_bits(),
        image_url: "https://cdn.7tv.app/emote/e1/1x.webp".to_string(),
    }
}

#[test]
fn drop_sides_choose_split_direction() {
    assert_eq!(pane_drop_split_direction(PaneDropDirection::Left), SplitDirection::Horizontal);
    assert_eq!(pane_drop_split_direction(PaneDropDirection::Right), SplitDirection::Horizontal);
    assert_eq!(pane_drop_split_direction(PaneDropDirection::Top), SplitDirection::Vertical);
    assert_eq!(pane_drop_split_direction(PaneDropDirection::Bottom), SplitDirection::Vertical);
}

#[test]
fn platform_labels_and_live_keys() {
    assert_eq!(format_platform_label(Platform::Youtube), "YouTube");
    assert_eq!(format_platform_label(Platform::Twitch), "Twitch");
    assert_eq!(live_status_platform(Platform::Kick), Some(LiveStatusPlatform::Kick));
    assert_eq!(live_status_platform(Platform::Youtube), None);
    assert_eq!(live_status_platform_key(LiveStatusPlatform::Twitch), "twitch");
    assert_eq!(home_channel_status_key(LiveStatusPlatform::Kick, "SomeOne"), "kick:someone");
    assert_eq!(home_channel_target_id(Platform::Youtube, "ÄBC"), "Youtube:äbc");
}

#[test]
fn status_requests_skip_blank_and_seen_channels() {
    let mut requests = Vec::new();
    let mut seen = Vec::new();
    push_home_channel_status_request(&mut requests, &mut seen, LiveStatusPlatform::Twitch, "  Satont ", Some("c1".to_string()));
    push_home_channel_status_request(&mut requests, &mut seen, LiveStatusPlatform::Twitch, "satont", None);
    push_home_channel_status_request(&mut requests, &mut seen, LiveStatusPlatform::Kick, "satont", None);
    push_home_channel_status_request(&mut requests, &mut seen, LiveStatusPlatform::Kick, "   ", None);
    assert_eq!(requests.len(), 2);
    assert_eq!(requests[0].channel_login, "Satont");
    assert_eq!(requests[0].channel_id, Some("c1".to_string()));
    assert_eq!(requests[0].user_access_token, None);
    assert_eq!(requests[1].platform, LiveStatusPlatform::Kick);
    assert_eq!(seen, vec!["twitch:satont".to_string(), "kick:satont".to_string()]);
}

#[test]
fn user_lookup_is_trimmed_unprefixed_and_lowercase() {
    assert_eq!(normalize_user_lookup("  @@Satont "), "satont");
    assert_eq!(normalize_user_lookup("Ünï"), "Ünï");
}

#[test]
fn reply_copies_parent_message() {
    let mut m = message("m1", "c1", vec![]);
    let reply = chat_reply_from_message(&m);
    assert_eq!(reply.parent_message_id, "m1");
    assert_eq!(reply.parent_message_text, "hello");
    assert_eq!(reply.parent_author.username, "user");
    m.author.username = None;
    assert_eq!(chat_reply_from_message(&m).parent_author.username, "");
}

#[test]
fn seven_tv_notices_describe_the_change() {
    let (text, emotes) = seven_tv_system_message_data(&SevenTvSystemMessage::Added {
        emote: seven_tv_emote(),
        old_alias: None,
    });
    assert_eq!(text, "Emote KEKW added to the channel");
    assert_eq!(emotes.len(), 1);
    assert_eq!(emotes[0].name, "KEKW");
    assert_eq!(emotes[0].aspect_ratio_bits, Some(1.5f64.to_bits()));

    let (text, _) = seven_tv_system_message_data(&SevenTvSystemMessage::Updated {
        emote: seven_tv_emote(),
        old_alias: Some("OLD".to_string()),
    });
    assert_eq!(text, "Emote KEKW updated in the channel (was OLD)");

    let (text, emotes) = seven_tv_system_message_data(&SevenTvSystemMessage::SetRenamed {
        old_name: "a".to_string(),
        new_name: "b".to_string(),
    });
    assert_eq!(text, "7TV emote set renamed: a → b");
    assert!(emotes.is_empty());
}

#[test]
fn seven_tv_channel_matches_by_id_or_watched_slug() {
    let watched = vec![WatchedChannel {
        id: "w1".to_string(),
        platform: Platform::Kick,
        channel_slug: "slug".to_string(),
        broadcaster_id: None,
        display_name: "Slug".to_string(),
        created_at: 0,
    }];
    assert!(message_matches_seven_tv_channel(&watched, Platform::Twitch, "x", "x"));
    assert!(message_matches_seven_tv_channel(&watched, Platform::Kick, "w1", "slug"));
    assert!(!message_matches_seven_tv_channel(&watched, Platform::Twitch, "w1", "slug"));
}

#[test]
fn seven_tv_emotes_are_recognised_by_address() {
    let mut emote = Emote {
        id: "1".to_string(),
        name: "x".to_string(),
        image_url: "https://cdn.7tv.app/x".to_string(),
        positions: vec![],
        aspect_ratio_bits: None,
    };
    assert!(is_seven_tv_emote(&emote));
    emote.image_url = "https://static-cdn.jtvnw.net/x".to_string();
    assert!(!is_seven_tv_emote(&emote));
}

#[test]
fn channel_ids_are_deduped_ignoring_case() {
    let mut ids = vec!["A".to_string(), "b".to_string(), "a".to_string(), "B".to_string(), "c".to_string()];
    dedupe_channel_ids(&mut ids);
    assert_eq!(ids, vec!["A", "b", "c"]);
    let again = ids.clone();
    dedupe_channel_ids(&mut ids);
    assert_eq!(ids, again);
}

#[test]
fn backend_emote_is_shown_under_its_alias() {
    let e = map_backend_seven_tv_emote(seven_tv_emote());
    assert_eq!(e.name, "KEKW");
    assert_eq!(f64::from_bits(e.aspect_ratio_bits), 1.5);
}

#[test]
fn badge_images_are_backfilled_within_a_channel() {
    let source = message("s", "c1", vec![badge("sub", Some("img-sub"))]);
    let mut messages = vec![
        message("m1", "c1", vec![badge("sub", None), badge("vip", None)]),
        message("m2", "c2", vec![badge("sub", None)]),
        message("m3", "c1", vec![badge("sub", Some("own"))]),
    ];
    backfill_badge_images(&mut messages, &source);
    assert_eq!(messages[0].author.badges[0].image_url.as_deref(), Some("img-sub"));
    assert_eq!(messages[0].author.badges[1].image_url, None);
    assert_eq!(messages[1].author.badges[0].image_url, None);
    assert_eq!(messages[2].author.badges[0].image_url.as_deref(), Some("own"));
}

#[test]
fn snapshot_hydration_uses_messages_with_images() {
    let mut messages = vec![
        message("m1", "c1", vec![badge("sub", None)]),
        message("m2", "c1", vec![badge("sub", Some("img"))]),
        message("m3", "c2", vec![badge("sub", None)]),
    ];
    hydrate_badge_images_from_snapshot(&mut messages);
    assert_eq!(messages[0].author.badges[0].image_url.as_deref(), Some("img"));
    assert_eq!(messages[2].author.badges[0].image_url, None);
}
