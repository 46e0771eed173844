use twirchat::app_state::{MainSection, OutgoingChatMessageStatus};
use twirchat::auth::connect::AccountRecord;
use twirchat::protocol::messages::{
    ChannelStatus, LiveStatusPlatform, BackendPlatformStatus, BackendToDesktopMessage, DesktopToBackendMessage, SevenTvEmote,
    SevenTvSystemMessage,
};
use twirchat::protocol::types::{
    Badge, ChatAuthor, ChatMessageType, EventUser, NormalizedChatMessage, NormalizedEvent,
    NormalizedEventType, Platform, PlatformStatus, PlatformStatusInfo, PlatformStatusMode,
    WatchedChannel,
};
use twirchat::watched_chat::{
    rename_watched_tab, ComposerSend, WatchedChannelsEvent, WatchedChatState, SENT_MESSAGE_HISTORY_LIMIT,
};

fn channel(id: &str, platform: Platform, slug: &str, display: &str) -> WatchedChannel {
    WatchedChannel {
        id: id.to_string(),
        platform,
        channel_slug: slug.to_string(),
        broadcaster_id: None,
        display_name: display.to_string(),
        created_at: 0,
    }
}

fn account(platform: Platform, user_id: &str, username: &str, display: &str) -> AccountRecord {
    AccountRecord {
        id: format!("{user_id}-account"),
        platform,
        platform_user_id: user_id.to_string(),
        username: username.to_string(),
        display_name: display.to_string(),
        avatar_url: Some(format!("https://avatars/{user_id}.png")),
        access_token: "SECRET-REDACTED".to_string(),
        refresh_token: None,
        expires_at: None,
        scopes: vec![],
    }
}

fn live(id: &str, channel_id: &str, author_id: &str, text: &str) -> NormalizedChatMessage {
    NormalizedChatMessage {
        id: id.to_string(),
        platform: Platform::Twitch,
        channel_id: channel_id.to_string(),
        author: ChatAuthor {
            id: author_id.to_string(),
            username: Some(author_id.to_string()),
            display_name: author_id.to_string(),
            color: None,
            avatar_url: None,
            badges: vec![],
        },
        text: text.to_string(),
        emotes: vec![],
        timestamp: "1".to_string(),
        message_type: ChatMessageType::Message,
        reply: None,
    }
}

/// Alice's own Twitch channel (signed in as her) and a Kick channel with no account.
fn state(buffer_size: usize) -> WatchedChatState {
    WatchedChatState::new(
        vec![
            channel("w-alice", Platform::Twitch, "alice", "Alice TV"),
            channel("w-kick", Platform::Kick, "bob", "Bob Kick"),
        ],
        vec![account(Platform::Twitch, "u1", "ALICE", "Alice")],
        buffer_size,
    )
}

fn ids(messages: &[NormalizedChatMessage]) -> Vec<&str> {
    messages.iter().map(|m| m.id.as_str()).collect()
}

#[test]
fn optimistic_message_in_own_channel_joins_home_feed() {
    let mut s = state(10);
    let id = s.insert_optimistic_watched_message("w-alice", "hello", None, 1700);
    assert_eq!(id, "local:1700:1");
    let buffer = s.channel_messages("w-alice").expect("buffer");
    assert_eq!(ids(buffer), vec!["local:1700:1"]);
    let m = &buffer[0];
    assert_eq!(m.author.id, "u1");
    assert_eq!(m.author.username.as_deref(), Some("ALICE"));
    assert_eq!(m.author.display_name, "Alice");
    assert_eq!(m.author.avatar_url.as_deref(), Some("https://avatars/u1.png"));
    assert_eq!(m.timestamp, "1700");
    assert_eq!(m.text, "hello");
    assert_eq!(m.platform, Platform::Twitch);
    assert_eq!(ids(s.messages()), vec!["local:1700:1"]);
    assert_eq!(s.outgoing_status(&id), Some(OutgoingChatMessageStatus::Pending));
    let second = s.insert_optimistic_watched_message("w-alice", "again", None, 1800);
    assert_eq!(second, "local:1800:2");
}

#[test]
fn optimistic_message_without_account_uses_local_author() {
    let mut s = state(10);
    let id = s.insert_optimistic_watched_message("w-kick", "hi", None, 5);
    let m = &s.channel_messages("w-kick").unwrap()[0];
    assert_eq!(m.id, id);
    assert_eq!(m.platform, Platform::Kick);
    assert_eq!(m.author.id, "local-self-kick");
    assert_eq!(m.author.username, None);
    assert_eq!(m.author.display_name, "Bob Kick");
    assert!(s.messages().is_empty());

    let unknown = s.insert_optimistic_watched_message("nowhere", "hi", None, 6);
    let m = &s.channel_messages("nowhere").unwrap()[0];
    assert_eq!(m.id, unknown);
    assert_eq!(m.platform, Platform::Twitch);
    assert_eq!(m.author.id, "local-self-twitch");
    assert_eq!(m.author.display_name, "You");
}

#[test]
fn optimistic_message_copies_badges_of_the_last_own_message() {
    let mut s = state(10);
    let mut own = live("srv-0", "w-alice", "U1", "earlier");
    own.author.badges = vec![Badge {
        id: "mod".to_string(),
        badge_type: "moderator".to_string(),
        text: "Mod".to_string(),
        image_url: None,
    }];
    own.author.color = Some("#ff0000".to_string());
    s.apply_buffered_watched_message("w-alice", own);
    s.insert_optimistic_watched_message("w-alice", "now", None, 9);
    let buffer = s.channel_messages("w-alice").unwrap();
    let m = &buffer[1];
    assert_eq!(m.author.badges.len(), 1);
    assert_eq!(m.author.badges[0].id, "mod");
    assert_eq!(m.author.color.as_deref(), Some("#ff0000"));
    assert_eq!(m.author.avatar_url.as_deref(), Some("https://avatars/u1.png"));
}

#[test]
fn optimistic_reply_carries_the_parent() {
    let mut s = state(10);
    let parent = live("p1", "w-alice", "carol", "question?");
    s.insert_optimistic_watched_message("w-alice", "answer", Some(&parent), 3);
    let m = &s.channel_messages("w-alice").unwrap()[0];
    let reply = m.reply.as_ref().expect("reply");
    assert_eq!(reply.parent_message_id, "p1");
    assert_eq!(reply.parent_message_text, "question?");
    assert_eq!(reply.parent_author.id, "carol");
}

#[test]
fn echo_takes_the_place_of_the_optimistic_message() {
    let mut s = state(10);
    let id = s.insert_optimistic_watched_message("w-alice", "hello", None, 1700);
    s.mark_outgoing_message_sent(&id);
    assert_eq!(s.outgoing_status(&id), Some(OutgoingChatMessageStatus::Sent));
    s.apply_buffered_watched_message("w-alice", live("srv-1", "w-alice", "U1", "hello"));
    assert_eq!(ids(s.channel_messages("w-alice").unwrap()), vec!["srv-1"]);
    assert_eq!(ids(s.messages()), vec!["srv-1"]);
    assert_eq!(s.outgoing_status(&id), None);
}

#[test]
fn echo_from_someone_else_is_a_new_message() {
    let mut s = state(10);
    let id = s.insert_optimistic_watched_message("w-alice", "hello", None, 1700);
    assert!(!s.reconcile_outgoing_echo("w-alice", &live("srv-2", "w-alice", "mallory", "hello")));
    s.apply_buffered_watched_message("w-alice", live("srv-2", "w-alice", "mallory", "hello"));
    assert_eq!(ids(s.channel_messages("w-alice").unwrap()), vec![id.as_str(), "srv-2"]);
    assert_eq!(s.outgoing_status(&id), Some(OutgoingChatMessageStatus::Pending));
}

#[test]
fn failed_message_is_not_matched_and_leaves_history() {
    let mut s = state(10);
    s.record_sent_message_history("hello");
    s.record_sent_message_history("other");
    let id = s.insert_optimistic_watched_message("w-alice", "hello", None, 1);
    s.mark_outgoing_message_error(&id, "send failed".to_string());
    assert_eq!(s.outgoing_status(&id), Some(OutgoingChatMessageStatus::Error));
    assert_eq!(s.sent_message_history(), &vec!["other".to_string()]);
    assert_eq!(s.runtime_errors(), &vec!["send failed".to_string()]);
    assert!(!s.reconcile_outgoing_echo("w-alice", &live("srv-3", "w-alice", "u1", "hello")));
}

#[test]
fn echo_already_buffered_drops_the_optimistic_copy() {
    let mut s = state(10);
    let id = s.insert_optimistic_watched_message("w-alice", "hi", None, 1);
    let echo = live("srv-4", "w-alice", "u1", "hi");
    s.apply_buffered_watched_message("w-alice", live("srv-4", "w-alice", "someone", "other"));
    assert!(s.reconcile_outgoing_echo("w-alice", &echo));
    assert_eq!(ids(s.channel_messages("w-alice").unwrap()), vec!["srv-4"]);
    assert_eq!(s.outgoing_status(&id), None);
}

#[test]
fn buffers_keep_their_last_messages() {
    let mut s = state(2);
    for i in 0..4 {
        s.apply_buffered_watched_message("w-kick", live(&format!("m{i}"), "w-kick", "x", "t"));
    }
    assert_eq!(ids(s.channel_messages("w-kick").unwrap()), vec!["m2", "m3"]);
    assert!(s.messages().is_empty());
    assert!(s.channel_messages("w-alice").is_none());
}

#[test]
fn sent_history_keeps_the_last_hundred() {
    let mut s = state(10);
    for i in 0..(SENT_MESSAGE_HISTORY_LIMIT + 5) {
        s.record_sent_message_history(&format!("m{i}"));
    }
    let h = s.sent_message_history();
    assert_eq!(h.len(), SENT_MESSAGE_HISTORY_LIMIT);
    assert_eq!(h[0], "m5");
    assert_eq!(h[SENT_MESSAGE_HISTORY_LIMIT - 1], format!("m{}", SENT_MESSAGE_HISTORY_LIMIT + 4));
    s.record_sent_message_history("m7");
    s.remove_sent_message_history("m7");
    let h = s.sent_message_history();
    assert_eq!(h.iter().filter(|t| t.as_str() == "m7").count(), 1);
    assert_eq!(h[0], "m6");
    assert_eq!(h[1], "m7");
}

#[test]
fn home_account_channel_is_matched_ignoring_case() {
    let s = state(10);
    assert!(s.is_home_account_channel_id("w-alice"));
    assert!(!s.is_home_account_channel_id("w-kick"));
    assert!(!s.is_home_account_channel_id("missing"));
    assert!(s.is_home_account_channel(&channel("x", Platform::Twitch, "Alice", "A")));
    assert!(!s.is_home_account_channel(&channel("x", Platform::Kick, "alice", "A")));
}

fn backend_emote(id: &str, alias: &str) -> SevenTvEmote {
    SevenTvEmote {
        id: id.to_string(),
        alias: alias.to_string(),
        name: alias.to_string(),
        animated: false,
        zero_width: false,
        aspect_ratio_bits: 1.0f64.to_bits(),
        image_url: format!("https://cdn.7tv.app/emote/{id}/1x.webp"),
    }
}

fn event(id: &str) -> NormalizedEvent {
    NormalizedEvent {
        id: id.to_string(),
        platform: Platform::Twitch,
        event_type: NormalizedEventType::Follow,
        user: EventUser { id: "u".to_string(), display_name: "U".to_string(), avatar_url: None },
        data: serde_json::Map::new(),
        timestamp: "2".to_string(),
    }
}

#[test]
fn backend_chat_message_joins_home_feed_and_backfills_badges() {
    let mut s = state(10);
    let mut first = live("b1", "c1", "x", "hi");
    first.author.badges = vec![Badge {
        id: "sub".to_string(),
        badge_type: "subscriber".to_string(),
        text: "Sub".to_string(),
        image_url: None,
    }];
    s.apply_backend_message(BackendToDesktopMessage::ChatMessage { data: first }, 1);
    let mut second = live("b2", "c1", "y", "there");
    second.author.badges = vec![Badge {
        id: "sub".to_string(),
        badge_type: "subscriber".to_string(),
        text: "Sub".to_string(),
        image_url: Some("img".to_string()),
    }];
    s.apply_backend_message(BackendToDesktopMessage::ChatMessage { data: second }, 2);
    assert_eq!(ids(s.messages()), vec!["b1", "b2"]);
    assert_eq!(s.messages()[0].author.badges[0].image_url.as_deref(), Some("img"));
}

#[test]
fn seven_tv_changes_rehydrate_messages() {
    let mut s = state(10);
    s.apply_backend_message(
        BackendToDesktopMessage::ChatMessage { data: live("b1", "c1", "x", "hello KEKW") },
        1,
    );
    assert!(s.messages()[0].emotes.is_empty());
    s.apply_backend_message(
        BackendToDesktopMessage::SeventvEmoteAdded {
            platform: Platform::Twitch,
            channel_id: "c1".to_string(),
            emote: backend_emote("e1", "KEKW"),
        },
        2,
    );
    assert_eq!(s.messages()[0].emotes.len(), 1);
    assert_eq!(s.messages()[0].emotes[0].id, "e1");
    s.apply_backend_message(
        BackendToDesktopMessage::SeventvEmoteUpdated {
            platform: Platform::Twitch,
            channel_id: "c1".to_string(),
            emote_id: "e1".to_string(),
            alias: "LUL".to_string(),
        },
        3,
    );
    assert!(s.messages()[0].emotes.is_empty());
    s.apply_backend_message(
        BackendToDesktopMessage::SeventvEmoteSet {
            platform: Platform::Twitch,
            channel_id: "c1".to_string(),
            emotes: vec![backend_emote("e2", "hello")],
        },
        4,
    );
    assert_eq!(s.messages()[0].emotes.len(), 1);
    assert_eq!(s.messages()[0].emotes[0].id, "e2");
    s.apply_backend_message(
        BackendToDesktopMessage::SeventvEmoteRemoved {
            platform: Platform::Twitch,
            channel_id: "c1".to_string(),
            emote_id: "e2".to_string(),
        },
        5,
    );
    assert!(s.messages()[0].emotes.is_empty());
}

#[test]
fn seven_tv_notice_goes_to_the_watched_channel_or_home() {
    let mut s = state(10);
    let added = SevenTvSystemMessage::Added { emote: backend_emote("e1", "KEKW"), old_alias: None };
    s.apply_backend_message(
        BackendToDesktopMessage::SeventvSystemMessage {
            platform: Platform::Twitch,
            channel_id: "alice".to_string(),
            message: added.clone(),
        },
        42,
    );
    let buffer = s.channel_messages("w-alice").expect("watched channel buffer");
    assert_eq!(ids(buffer), vec!["seventv-system-Twitch-alice-42"]);
    assert_eq!(buffer[0].text, "Emote KEKW added to the channel");
    assert_eq!(buffer[0].author.display_name, "7TV");
    assert_eq!(buffer[0].message_type, ChatMessageType::System);
    assert_eq!(buffer[0].emotes.len(), 1);
    s.apply_backend_message(
        BackendToDesktopMessage::SeventvSystemMessage {
            platform: Platform::Kick,
            channel_id: "elsewhere".to_string(),
            message: added,
        },
        43,
    );
    assert_eq!(ids(s.messages()), vec!["seventv-system-Kick-elsewhere-43"]);
    assert_eq!(s.messages()[0].channel_id, "elsewhere");
}

#[test]
fn events_count_as_unread_unless_shown() {
    let mut s = state(10);
    s.apply_backend_message(BackendToDesktopMessage::ChatEvent { data: event("e1") }, 1);
    s.apply_backend_message(BackendToDesktopMessage::ChatEvent { data: event("e2") }, 2);
    assert_eq!(s.unread_events(), 2);
    s.select_section(MainSection::Events);
    assert_eq!(s.unread_events(), 0);
    s.apply_backend_message(BackendToDesktopMessage::ChatEvent { data: event("e3") }, 3);
    assert_eq!(s.unread_events(), 0);
    assert_eq!(s.events().len(), 3);
    assert_eq!(s.events()[2].id, "e3");
}

#[test]
fn platform_status_is_replaced_per_platform() {
    let mut s = state(10);
    s.apply_backend_message(
        BackendToDesktopMessage::PlatformStatus {
            platform: Platform::Kick,
            status: BackendPlatformStatus::Error,
            error: Some("down".to_string()),
        },
        1,
    );
    s.apply_backend_message(
        BackendToDesktopMessage::PlatformStatus {
            platform: Platform::Twitch,
            status: BackendPlatformStatus::Connected,
            error: None,
        },
        2,
    );
    s.apply_backend_message(
        BackendToDesktopMessage::PlatformStatus {
            platform: Platform::Kick,
            status: BackendPlatformStatus::Disconnected,
            error: None,
        },
        3,
    );
    let kick = s.platform_status(Platform::Kick).expect("kick");
    assert_eq!(kick.status, PlatformStatus::Disconnected);
    assert_eq!(kick.error, None);
    assert_eq!(kick.mode, PlatformStatusMode::Anonymous);
    assert_eq!(kick.channel_login, None);
    assert_eq!(s.platform_status(Platform::Twitch).unwrap().status, PlatformStatus::Connected);
    assert!(s.platform_status(Platform::Youtube).is_none());
    s.apply_backend_message(BackendToDesktopMessage::Pong, 4);
    assert!(s.messages().is_empty());
}

fn connected(platform: Platform, login: &str) -> PlatformStatusInfo {
    PlatformStatusInfo {
        platform,
        status: PlatformStatus::Connected,
        error: None,
        mode: PlatformStatusMode::Authenticated,
        channel_login: Some(login.to_string()),
    }
}

/// Alice's Twitch channel is watched; the Kick login is not.
fn composer_state() -> WatchedChatState {
    let mut s = state(10);
    s.set_platform_status(connected(Platform::Kick, "bob2"));
    s.set_platform_status(connected(Platform::Twitch, "Alice"));
    s
}

fn backend_sends(s: &WatchedChatState) -> Vec<(Platform, String, String)> {
    s.pending_backend_messages()
        .iter()
        .map(|m| match m {
            DesktopToBackendMessage::SendMessage { platform, channel, message } => {
                (*platform, channel.clone(), message.clone())
            }
            _ => panic!("not a send"),
        })
        .collect()
}

#[test]
fn home_targets_follow_connected_platforms() {
    let s = composer_state();
    let targets = s.home_channel_targets();
    assert_eq!(targets.len(), 2);
    assert_eq!(targets[0].id, "Twitch:alice");
    assert_eq!(targets[0].watched_channel_id.as_deref(), Some("w-alice"));
    assert_eq!(targets[1].id, "Kick:bob2");
    assert_eq!(targets[1].watched_channel_id, None);
    assert!(s.home_reply_can_send(&live("m", "c", "x", "t")));
    let mut kick = live("m", "c", "x", "t");
    kick.platform = Platform::Kick;
    assert!(!s.home_reply_can_send(&kick));
}

#[test]
fn composer_sends_to_every_target() {
    let mut s = composer_state();
    assert_eq!(s.queue_composer_send("  hi  ", 10), ComposerSend::Sent);
    let pending = s.pending_watched_channel_messages();
    assert_eq!(pending.len(), 1);
    assert_eq!(pending[0].channel_id, "w-alice");
    assert_eq!(pending[0].text, "hi");
    assert_eq!(pending[0].client_message_id.as_deref(), Some("local:10:1"));
    assert_eq!(ids(s.channel_messages("w-alice").unwrap()), vec!["local:10:1"]);
    assert_eq!(backend_sends(&s), vec![(Platform::Kick, "bob2".to_string(), "hi".to_string())]);
    assert_eq!(s.sent_message_history(), &vec!["hi".to_string()]);
    let waiting = s.pending_backend_sent_history();
    assert_eq!(waiting.len(), 1);
    assert_eq!((waiting[0].text.as_str(), waiting[0].remaining, waiting[0].sent), ("hi", 1, 0));

    s.apply_backend_send_result(true, false);
    assert!(s.pending_backend_sent_history().is_empty());
    assert!(s.sent_message_history().is_empty());
}

#[test]
fn backend_send_results_settle_pending_sends() {
    let mut s = composer_state();
    s.queue_composer_send("one", 1);
    s.apply_backend_send_result(false, false);
    assert_eq!(s.pending_backend_sent_history().len(), 1);
    s.apply_backend_send_result(true, true);
    assert!(s.pending_backend_sent_history().is_empty());
    assert_eq!(s.sent_message_history(), &vec!["one".to_string()]);
}

#[test]
fn composer_commands_and_blank_text() {
    let mut s = composer_state();
    assert_eq!(s.queue_composer_send("   ", 1), ComposerSend::NotSent);
    assert_eq!(
        s.queue_composer_send("/USER  @Bob ", 1),
        ComposerSend::LookUpUser("@Bob".to_string())
    );
    assert_eq!(s.queue_composer_send("/user", 1), ComposerSend::NotSent);
    assert_eq!(s.queue_composer_send("/user   ", 1), ComposerSend::NotSent);
    assert!(s.pending_backend_messages().is_empty());
    assert_eq!(s.queue_composer_send("/me waves", 1), ComposerSend::Sent);
    assert_eq!(backend_sends(&s)[0].2, "/me waves");
}

#[test]
fn switched_off_channels_and_replies_narrow_the_targets() {
    let mut s = composer_state();
    s.toggle_composer_channel("Twitch:alice");
    assert!(s.is_composer_disabled("Twitch:alice"));
    s.queue_composer_send("only kick", 1);
    assert!(s.pending_watched_channel_messages().is_empty());
    assert_eq!(backend_sends(&s).len(), 1);
    s.toggle_composer_channel("Twitch:alice");
    assert!(!s.is_composer_disabled("Twitch:alice"));

    let parent = live("p1", "w-alice", "carol", "question?");
    s.set_home_reply_target(parent);
    assert_eq!(s.queue_composer_send("answer", 2), ComposerSend::Sent);
    let pending = s.pending_watched_channel_messages();
    assert_eq!(pending.len(), 1);
    assert_eq!(pending[0].reply_to_message_id.as_deref(), Some("p1"));
    assert_eq!(backend_sends(&s).len(), 1);
    let m = s.channel_messages("w-alice").unwrap().last().unwrap().clone();
    assert_eq!(m.reply.unwrap().parent_message_id, "p1");
    s.queue_composer_send("plain", 3);
    assert_eq!(s.pending_watched_channel_messages()[1].reply_to_message_id, None);
    assert_eq!(backend_sends(&s).len(), 2);

    let mut s = composer_state();
    let mut kick_parent = live("p2", "c", "dave", "?");
    kick_parent.platform = Platform::Youtube;
    s.set_home_reply_target(kick_parent);
    assert_eq!(s.queue_composer_send("nobody", 4), ComposerSend::NotSent);
    s.cancel_home_reply_target();
    assert_eq!(s.queue_composer_send("everybody", 5), ComposerSend::Sent);
}

#[test]
fn selecting_section_updates_active_section() {
    let mut s = state(10);
    s.select_section(MainSection::Settings);
    assert_eq!(s.active_section(), MainSection::Settings);
}

#[test]
fn selecting_events_clears_unread_counter() {
    let mut s = state(10);
    for i in 0..9 {
        s.apply_backend_message(BackendToDesktopMessage::ChatEvent { data: event(&format!("e{i}")) }, i);
    }
    assert_eq!(s.unread_events(), 9);
    s.select_section(MainSection::Events);
    assert_eq!(s.unread_events(), 0);
}

#[test]
fn watched_channel_events_update_the_state() {
    let mut s = state(10);
    s.apply_watched_channels_event(WatchedChannelsEvent::MessageBuffered {
        channel_id: "w-kick".to_string(),
        message: live("k1", "w-kick", "x", "hi"),
    });
    assert_eq!(ids(s.channel_messages("w-kick").unwrap()), vec!["k1"]);
    s.apply_watched_channels_event(WatchedChannelsEvent::StatusChanged {
        channel_id: "w-kick".to_string(),
        status: connected(Platform::Kick, "bob"),
    });
    s.apply_watched_channels_event(WatchedChannelsEvent::StatusChanged {
        channel_id: "w-kick".to_string(),
        status: PlatformStatusInfo { status: PlatformStatus::Error, ..connected(Platform::Kick, "bob") },
    });
    assert_eq!(s.watched_channel_status("w-kick").unwrap().status, PlatformStatus::Error);
    assert!(s.watched_channel_status("w-alice").is_none());
    s.apply_watched_channels_event(WatchedChannelsEvent::AdapterError {
        channel_id: "w-kick".to_string(),
        platform: Platform::Kick,
        message: "socket closed".to_string(),
    });
    assert_eq!(s.runtime_errors(), &vec!["socket closed".to_string()]);
    s.apply_watched_channels_event(WatchedChannelsEvent::BackendMessagePlanned {
        message: DesktopToBackendMessage::SeventvSubscribe {
            platform: Platform::Kick,
            channel_id: "7tv-bob".to_string(),
            platform_user_id: None,
        },
        watched_channel_id: Some("w-kick".to_string()),
    });
    assert_eq!(s.watched_seven_tv_channel_id("w-kick").map(|c| c.as_str()), Some("7tv-bob"));
    assert_eq!(s.pending_backend_messages().len(), 1);
    let id = s.insert_optimistic_watched_message("w-alice", "yo", None, 7);
    s.apply_watched_channels_event(WatchedChannelsEvent::MessageSendSucceeded { client_message_id: id.clone() });
    assert_eq!(s.outgoing_status(&id), Some(OutgoingChatMessageStatus::Sent));
    s.apply_watched_channels_event(WatchedChannelsEvent::MessageSendFailed {
        client_message_id: id.clone(),
        error: "rate limited".to_string(),
    });
    assert_eq!(s.outgoing_status(&id), Some(OutgoingChatMessageStatus::Error));
    assert_eq!(s.runtime_errors().len(), 2);
    s.apply_watched_channels_event(WatchedChannelsEvent::RemoveRequested { channel_id: "w-kick".to_string() });
    assert!(s.watched_seven_tv_channel_id("w-kick").is_none());
    s.apply_watched_channels_event(WatchedChannelsEvent::PollRequested);
    assert_eq!(s.runtime_errors().len(), 2);
}

fn stamped(id: &str, channel_id: &str, timestamp: &str) -> NormalizedChatMessage {
    let mut m = live(id, channel_id, "x", "t");
    m.timestamp = timestamp.to_string();
    m
}

#[test]
fn storage_snapshot_is_merged_into_the_state() {
    let mut s = WatchedChatState::new(vec![], vec![], 10);
    s.load_storage_snapshot(
        Some(vec![stamped("m2", "c", "2"), stamped("k1", "w-kick", "0"), stamped("m1", "c", "1"), stamped("m2", "c", "9")]),
        Some(vec![
            channel("w-alice", Platform::Twitch, "alice", "Alice TV"),
            channel("w-kick", Platform::Kick, "bob", "Bob Kick"),
        ]),
        Some(vec![account(Platform::Twitch, "u1", "ALICE", "Alice")]),
        &vec![
            ("w-alice".to_string(), vec![stamped("a1", "w-alice", "3")]),
            ("w-kick".to_string(), vec![stamped("k1", "w-kick", "0")]),
            ("w-other".to_string(), vec![stamped("o1", "w-other", "5")]),
        ],
    );
    assert_eq!(ids(s.messages()), vec!["m1", "m2", "a1"]);
    assert_eq!(ids(s.channel_messages("w-alice").unwrap()), vec!["a1"]);
    assert_eq!(ids(s.channel_messages("w-kick").unwrap()), vec!["k1"]);
    assert!(s.channel_messages("w-other").is_none());
    let twitch = s.platform_status(Platform::Twitch).expect("twitch");
    assert_eq!(twitch.status, PlatformStatus::Connected);
    assert_eq!(twitch.mode, PlatformStatusMode::Authenticated);
    assert_eq!(twitch.channel_login.as_deref(), Some("ALICE"));
    assert!(s.is_home_account_channel_id("w-alice"));

    let mut unread = WatchedChatState::new(vec![], vec![], 10);
    unread.load_storage_snapshot(None, None, None, &vec![]);
    assert!(unread.messages().is_empty());
}

#[test]
fn connected_platforms_are_counted() {
    let mut s = composer_state();
    assert_eq!(s.connected_platform_count(), 2);
    s.set_platform_status(PlatformStatusInfo { status: PlatformStatus::Connecting, ..connected(Platform::Kick, "bob2") });
    assert_eq!(s.connected_platform_count(), 1);
}

fn live_status(platform: LiveStatusPlatform, login: &str, live: bool) -> ChannelStatus {
    ChannelStatus {
        platform,
        channel_login: login.to_string(),
        is_live: live,
        title: "stream".to_string(),
        category_name: None,
        viewer_count: Some(3),
    }
}

#[test]
fn home_channel_statuses_are_kept_by_key() {
    let mut s = state(10);
    s.apply_home_channel_statuses(vec![
        live_status(LiveStatusPlatform::Twitch, "Alice", false),
        live_status(LiveStatusPlatform::Kick, "bob", true),
        live_status(LiveStatusPlatform::Twitch, "alice", true),
    ]);
    let alice = s.home_channel_status(Platform::Twitch, "ALICE").expect("alice");
    assert!(alice.is_live);
    assert_eq!(alice.channel_login, "alice");
    assert!(s.home_channel_status(Platform::Kick, "Bob").unwrap().is_live);
    assert!(s.home_channel_status(Platform::Youtube, "bob").is_none());
    assert!(s.home_channel_status(Platform::Kick, "carol").is_none());
}

#[test]
fn watched_channel_send_answers_its_reply_target() {
    let mut s = state(10);
    assert!(!s.queue_watched_channel_send("w-alice", "   ", 1));
    assert!(!s.queue_watched_channel_send("missing", "hi", 1));
    assert!(s.pending_watched_channel_messages().is_empty());

    s.set_watched_reply_target("w-alice".to_string(), live("p9", "w-alice", "carol", "q"));
    assert_eq!(s.watched_reply_target("w-alice").map(|m| m.id.as_str()), Some("p9"));
    assert!(s.queue_watched_channel_send("w-alice", " answer ", 4));
    assert!(s.watched_reply_target("w-alice").is_none());
    let pending = s.take_pending_watched_channel_messages();
    assert_eq!(pending.len(), 1);
    assert_eq!(pending[0].text, "answer");
    assert_eq!(pending[0].reply_to_message_id.as_deref(), Some("p9"));
    assert_eq!(pending[0].client_message_id.as_deref(), Some("local:4:1"));
    assert!(s.pending_watched_channel_messages().is_empty());
    assert_eq!(s.sent_message_history(), &vec!["answer".to_string()]);
    let m = s.channel_messages("w-alice").unwrap().last().unwrap();
    assert_eq!(m.reply.as_ref().unwrap().parent_message_id, "p9");

    s.set_watched_reply_target("w-kick".to_string(), live("p1", "w-kick", "d", "q"));
    s.cancel_watched_reply_target("w-kick");
    assert!(s.watched_reply_target("w-kick").is_none());
}

#[test]
fn dispatch_failures_are_recorded() {
    let mut s = composer_state();
    s.queue_composer_send("hi", 1);
    let sent = s.take_pending_backend_messages();
    assert_eq!(sent.len(), 1);
    assert!(s.pending_backend_messages().is_empty());
    s.mark_watched_send_dispatch_failed(None, "no socket".to_string());
    assert_eq!(s.runtime_errors(), &vec!["no socket".to_string()]);
    let id = s.pending_watched_channel_messages()[0].client_message_id.clone().unwrap();
    s.mark_watched_send_dispatch_failed(Some(&id), "dropped".to_string());
    assert_eq!(s.outgoing_status(&id), Some(OutgoingChatMessageStatus::Error));
    assert_eq!(s.runtime_errors().len(), 2);
    assert!(s.sent_message_history().is_empty());
}

#[test]
fn removing_a_watched_channel_drops_its_chat_state() {
    let mut s = state(10);
    s.apply_watched_channels_event(WatchedChannelsEvent::MessageBuffered {
        channel_id: "w-kick".to_string(),
        message: live("k1", "w-kick", "x", "hi"),
    });
    s.apply_watched_channels_event(WatchedChannelsEvent::StatusChanged {
        channel_id: "w-kick".to_string(),
        status: connected(Platform::Kick, "bob"),
    });
    s.toggle_composer_channel("w-kick");
    assert!(s.is_composer_disabled("w-kick"));
    assert!(s.remove_watched_channel("w-kick"));
    assert!(s.channel_messages("w-kick").is_none());
    assert!(s.watched_channel_status("w-kick").is_none());
    assert!(!s.is_composer_disabled("w-kick"));
    assert!(!s.remove_watched_channel("w-kick"));
}

#[test]
fn watched_emote_sources_list_slug_id_and_buffered_channels() {
    let mut s = state(10);
    assert!(s.watched_emote_source_channel("missing").is_none());
    s.apply_watched_channels_event(WatchedChannelsEvent::MessageBuffered {
        channel_id: "w-kick".to_string(),
        message: live("k1", "W-KICK", "x", "hi"),
    });
    let (platform, ids) = s.watched_emote_source_channel("w-kick").expect("watched");
    assert_eq!(platform, Platform::Kick);
    assert_eq!(ids, vec!["bob".to_string(), "w-kick".to_string()]);
}

#[test]
fn home_status_requests_cover_accounts_then_channels_once() {
    let s = state(10);
    let requests = s.home_channel_status_requests();
    assert_eq!(requests.len(), 2);
    assert_eq!(requests[0].platform, LiveStatusPlatform::Twitch);
    assert_eq!(requests[0].channel_login, "ALICE");
    assert_eq!(requests[0].channel_id.as_deref(), Some("u1"));
    assert_eq!(requests[1].platform, LiveStatusPlatform::Kick);
    assert_eq!(requests[1].channel_login, "bob");
    assert!(requests[1].channel_id.is_none());
    assert!(requests.iter().all(|r| r.user_access_token.is_none()));
}

fn watched_panel(id: &str, channel_id: &str) -> twirchat::layout::LayoutNode {
    twirchat::layout::LayoutNode::Panel {
        id: id.to_string(),
        content: twirchat::protocol::types::PanelContent::Watched { channel_id: channel_id.to_string() },
        flex_bits: 50.0f64.to_bits(),
    }
}

#[test]
fn watched_tab_title_prefers_custom_name_then_layout_channels() {
    let s = state(10);
    assert_eq!(s.watched_tab_title("w-kick", Some("Mine"), None), Some("Mine".to_string()));
    assert_eq!(s.watched_tab_title("missing", None, None), None);
    assert_eq!(s.watched_tab_title("w-kick", None, None), Some("Bob Kick".to_string()));
    let layout = twirchat::layout::LayoutNode::Split {
        id: "root".to_string(),
        direction: twirchat::protocol::types::SplitDirection::Horizontal,
        children: vec![
            watched_panel("p1", "w-kick"),
            watched_panel("p2", "gone"),
            watched_panel("p3", "w-alice"),
            watched_panel("p4", "w-kick"),
        ],
        flex_bits: 100.0f64.to_bits(),
        min_size_bits: None,
    };
    assert_eq!(s.watched_tab_title("w-kick", None, Some(&layout)), Some("Bob Kick + Alice TV".to_string()));
    let stale = watched_panel("p2", "gone");
    assert_eq!(s.watched_tab_title("w-alice", None, Some(&stale)), Some("Alice TV".to_string()));
}

#[test]
fn unreferenced_channels_are_those_no_tab_or_layout_shows() {
    let s = state(10);
    assert_eq!(s.unreferenced_watched_channel_ids(&vec![], &vec![]), vec!["w-kick".to_string()]);
    assert!(s.unreferenced_watched_channel_ids(&vec!["w-kick".to_string()], &vec![]).is_empty());
    assert!(s.unreferenced_watched_channel_ids(&vec![], &vec![watched_panel("p", "w-kick")]).is_empty());
    assert_eq!(
        s.unreferenced_watched_channel_ids(&vec!["other".to_string()], &vec![watched_panel("p", "w-alice")]),
        vec!["w-kick".to_string()]
    );
}

#[test]
fn home_emote_sources_follow_live_logins() {
    let s = state(10);
    assert!(s.home_emote_source_channels().is_empty());
    let mut s = composer_state();
    let mut offline = connected(Platform::Youtube, "yt");
    offline.status = PlatformStatus::Disconnected;
    s.set_platform_status(offline);
    let sources = s.home_emote_source_channels();
    assert_eq!(sources.len(), 2);
    assert_eq!(sources[0], (Platform::Twitch, vec!["Alice".to_string(), "w-alice".to_string()]));
    assert_eq!(sources[1], (Platform::Kick, vec!["bob2".to_string()]));
}

#[test]
fn renaming_a_tab_sets_or_clears_its_custom_name() {
    let tabs = vec!["w-kick".to_string(), "w-alice".to_string()];
    let mut names: Vec<(String, String)> = vec![];
    assert!(!rename_watched_tab(&tabs, &mut names, "missing", "X"));
    assert!(names.is_empty());
    assert!(rename_watched_tab(&tabs, &mut names, "w-kick", "  Bob's  "));
    assert_eq!(names, vec![("w-kick".to_string(), "Bob's".to_string())]);
    assert!(rename_watched_tab(&tabs, &mut names, "w-kick", "Bob"));
    assert_eq!(names, vec![("w-kick".to_string(), "Bob".to_string())]);
    assert!(rename_watched_tab(&tabs, &mut names, "w-kick", "   "));
    assert!(names.is_empty());
}
