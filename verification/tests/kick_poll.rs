use twirchat::platforms::kick::adapter::{
    KickAdapter, KickBadge, KickBannedUser, KickChatMessage, KickChatMessageKind, KickChatroom, KickFollowEvent,
    KickMessageSender, KickSenderIdentity, KickSubscriptionEvent, KickUserBannedEvent, KickUserUnbannedEvent,
};
use twirchat::platforms::kick::mock::MockKickClient;
use twirchat::platforms::kick::poll::{
    normalize_ban_event, normalize_follow_event, normalize_subscription_event, normalize_unban_event,
};
use twirchat::platforms::twitch::adapter::{normalize_twitch_event, TwitchAdapter, TwitchChatEvent, TwitchChatMessage};
use twirchat::platforms::twitch::mock::MockTwitchClient;
use twirchat::platforms::{CollectingSink, PlatformEvent};
use twirchat::protocol::types::{ChatMessageType, NormalizedEventType, Platform, PlatformStatus};

fn no_duration(_: u32) -> String {
    "?".to_string()
}

fn minutes(seconds: u32) -> String {
    format!("{}m", seconds / 60)
}

fn connected_adapter(client: MockKickClient) -> KickAdapter<MockKickClient> {
    let mut adapter = KickAdapter::new(client);
    adapter.channel_slug = Some("streamer".to_string());
    adapter.chatroom = Some(KickChatroom { channel_slug: "streamer".to_string(), chatroom_id: 7, broadcaster_user_id: 42 });
    adapter.is_connected = true;
    adapter
}

fn follow() -> KickFollowEvent {
    KickFollowEvent {
        channel_id: 42,
        user_id: 5,
        username: "viewer".to_string(),
        display_name: String::new(),
        avatar_url: None,
        followed_at: "2024-05-01T10:00:00Z".to_string(),
    }
}

fn sender(username: &str, slug: &str) -> KickMessageSender {
    KickMessageSender {
        id: 77,
        username: username.to_string(),
        slug: slug.to_string(),
        identity: KickSenderIdentity {
            color: Some("#ff0000".to_string()),
            badges: vec![KickBadge { badge_type: "moderator".to_string(), text: "Mod".to_string(), count: None }],
        },
        profile_picture: Some("  https://img/77.png ".to_string()),
    }
}

#[test]
fn kick_follow_becomes_a_follow_event_with_its_channel() {
    let event = normalize_follow_event(follow());
    assert_eq!(event.id, "kick:follow:5:2024-05-01T10:00:00Z");
    assert_eq!(event.platform, Platform::Kick);
    assert_eq!(event.event_type, NormalizedEventType::Follow);
    assert_eq!(event.user.id, "5");
    assert_eq!(event.user.display_name, "viewer");
    assert_eq!(event.data.get("channelId"), Some(&serde_json::Value::from(42u64)));
    assert_eq!(event.data.len(), 1);
    assert_eq!(event.timestamp, "2024-05-01T10:00:00Z");
}

#[test]
fn kick_gifted_subscription_is_a_gift_with_its_details() {
    let event = normalize_subscription_event(KickSubscriptionEvent {
        channel_id: 42,
        user_id: 6,
        username: "fan".to_string(),
        display_name: "Fan".to_string(),
        avatar_url: None,
        gifted_by: Some("patron".to_string()),
        duration: Some(3),
        created_at: "t1".to_string(),
    });
    assert_eq!(event.id, "kick:sub:6:t1");
    assert_eq!(event.event_type, NormalizedEventType::GiftSub);
    assert_eq!(event.user.display_name, "Fan");
    assert_eq!(event.data.get("duration"), Some(&serde_json::Value::from(3u64)));
    assert_eq!(event.data.get("giftedBy"), Some(&serde_json::Value::String("patron".to_string())));
    assert_eq!(event.data.len(), 3);
}

#[test]
fn kick_ban_without_a_chatroom_is_shown_in_the_joined_channel() {
    let joined = Some(KickChatroom { channel_slug: "s".to_string(), chatroom_id: 7, broadcaster_user_id: 42 });
    let ban = KickUserBannedEvent {
        chatroom_id: None,
        user_id: None,
        user: KickBannedUser { id: 9, username: "troll".to_string(), slug: "troll".to_string() },
        banned_by: None,
        duration: Some(600),
        permanent: false,
        created_at: None,
        expires_at: Some("later".to_string()),
    };
    let message = normalize_ban_event(ban, &joined, "10m", "now");
    assert_eq!(message.id, "kick:ban:9:later");
    assert_eq!(message.channel_id, "42");
    assert_eq!(message.text, "[Kick] troll was banned for 10m");
    assert_eq!(message.timestamp, "later");
    assert_eq!(message.message_type, ChatMessageType::System);
}

#[test]
fn kick_unban_without_a_time_is_stamped_now() {
    let unban = KickUserUnbannedEvent {
        chatroom_id: Some(8),
        user_id: Some(10),
        user: KickBannedUser { id: 9, username: "troll".to_string(), slug: "troll".to_string() },
        unbanned_by: None,
        permanent: false,
        created_at: None,
    };
    let message = normalize_unban_event(unban, &None, "1700000000");
    assert_eq!(message.id, "kick:unban:10:1700000000");
    assert_eq!(message.channel_id, "8");
    assert_eq!(message.text, "[Kick] troll was unbanned");
    assert_eq!(message.author.display_name, "troll");
}

#[test]
fn kick_poll_hands_on_drained_messages_and_events_in_order() {
    let mut client = MockKickClient::new();
    client.push_message(KickChatMessage {
        id: "m1".to_string(),
        chatroom_id: 7,
        content: "hi [emote:37:Wave] there".to_string(),
        message_type: KickChatMessageKind::Message,
        created_at: "t0".to_string(),
        sender: sender("  ", "slugname"),
        metadata: None,
    });
    client.push_follow_event(follow());
    let mut adapter = connected_adapter(client);
    let mut sink = CollectingSink::new();
    let images = vec![("moderator".to_string(), "https://img/mod.png".to_string())];
    assert!(adapter.poll(&mut sink, &images, &no_duration, 1000, "now").is_ok());
    assert_eq!(sink.events.len(), 2);
    match &sink.events[0] {
        PlatformEvent::Message(m) => {
            assert_eq!(m.id, "m1");
            assert_eq!(m.channel_id, "42");
            assert_eq!(m.text, "hi Wave there");
            assert_eq!(m.emotes.len(), 1);
            assert_eq!(m.emotes[0].image_url, "https://files.kick.com/emotes/37/fullsize");
            assert_eq!(m.author.display_name, "slugname");
            assert_eq!(m.author.avatar_url.as_deref(), Some("https://img/77.png"));
            assert_eq!(m.author.badges[0].image_url.as_deref(), Some("https://img/mod.png"));
        }
        other => panic!("unexpected {:?}", other),
    }
    match &sink.events[1] {
        PlatformEvent::Event(e) => assert_eq!(e.id, "kick:follow:5:2024-05-01T10:00:00Z"),
        other => panic!("unexpected {:?}", other),
    }
    assert_eq!(adapter.avatar_cache, vec![("kick:77".to_string(), "https://img/77.png".to_string())]);
}

#[test]
fn kick_poll_drain_error_reports_it_and_reconnects_at_once() {
    let mut client = MockKickClient::new();
    client.push_drain_error_once("socket closed");
    let mut adapter = connected_adapter(client);
    adapter.reconnect_attempt = 3;
    let mut sink = CollectingSink::new();
    assert!(adapter.poll(&mut sink, &Vec::new(), &minutes, 5000, "now").is_ok());
    assert!(!adapter.is_connected);
    assert!(adapter.should_reconnect);
    assert_eq!(adapter.reconnect_due_at_ms, Some(5000));
    assert_eq!(adapter.reconnect_attempt, 0);
    assert_eq!(adapter.last_error.as_ref().map(|e| e.message.as_str()), Some("socket closed"));
    assert_eq!(adapter.client.disconnect_count, 1);
    match &sink.events[..] {
        [PlatformEvent::Status(info)] => {
            assert_eq!(info.status, PlatformStatus::Error);
            assert_eq!(info.error.as_deref(), Some("socket closed"));
            assert_eq!(info.channel_login.as_deref(), Some("streamer"));
        }
        other => panic!("unexpected {:?}", other),
    }
}

#[test]
fn kick_poll_reconnects_when_due() {
    let client = MockKickClient::new().with_chatroom("streamer", 7, 42);
    let mut adapter = KickAdapter::new(client);
    adapter.channel_slug = Some("streamer".to_string());
    let mut sink = CollectingSink::new();
    assert!(adapter.poll(&mut sink, &Vec::new(), &minutes, 0, "now").is_ok());
    assert!(adapter.is_connected);
    let statuses: Vec<PlatformStatus> = sink
        .events
        .iter()
        .map(|e| match e {
            PlatformEvent::Status(info) => info.status,
            other => panic!("unexpected {:?}", other),
        })
        .collect();
    assert_eq!(statuses, vec![PlatformStatus::Connecting, PlatformStatus::Connected]);
}

#[test]
fn kick_poll_waits_until_the_reconnect_is_due() {
    let client = MockKickClient::new().with_chatroom("streamer", 7, 42);
    let mut adapter = KickAdapter::new(client);
    adapter.channel_slug = Some("streamer".to_string());
    adapter.reconnect_due_at_ms = Some(10_000);
    let mut sink = CollectingSink::new();
    assert!(adapter.poll(&mut sink, &Vec::new(), &minutes, 9_999, "now").is_ok());
    assert!(sink.events.is_empty());
    assert!(!adapter.is_connected);
}

#[test]
fn kick_poll_failed_reconnect_reports_the_error_and_backs_off() {
    let mut client = MockKickClient::new();
    client.push_missing_chatroom_once("gone");
    let mut adapter = KickAdapter::new(client);
    adapter.channel_slug = Some("streamer".to_string());
    let mut sink = CollectingSink::new();
    assert!(adapter.poll(&mut sink, &Vec::new(), &minutes, 0, "now").is_ok());
    assert!(!adapter.is_connected);
    assert_eq!(adapter.reconnect_attempt, 1);
    assert!(adapter.reconnect_due_at_ms.is_some());
    match &sink.events[..] {
        [PlatformEvent::Status(a), PlatformEvent::Status(b)] => {
            assert_eq!(a.status, PlatformStatus::Connecting);
            assert_eq!(b.status, PlatformStatus::Error);
            assert_eq!(b.error.as_deref(), Some("gone"));
        }
        other => panic!("unexpected {:?}", other),
    }
}

#[test]
fn twitch_raid_keeps_its_viewers_and_system_message() {
    let event = normalize_twitch_event(
        TwitchChatEvent::Raid {
            id: "r1".to_string(),
            channel_id: "chan".to_string(),
            user_id: "u1".to_string(),
            display_name: "Raider".to_string(),
            viewer_count: 120,
            system_message: Some("120 raiders".to_string()),
        },
        "1700000000".to_string(),
    );
    assert_eq!(event.id, "r1");
    assert_eq!(event.platform, Platform::Twitch);
    assert_eq!(event.event_type, NormalizedEventType::Raid);
    assert_eq!(event.data.get("channelId"), Some(&serde_json::Value::String("chan".to_string())));
    assert_eq!(event.data.get("viewerCount"), Some(&serde_json::Value::from(120u64)));
    assert_eq!(event.data.get("systemMsg"), Some(&serde_json::Value::String("120 raiders".to_string())));
    assert_eq!(event.timestamp, "1700000000");
}

#[test]
fn twitch_gift_sub_names_its_recipient() {
    let event = normalize_twitch_event(
        TwitchChatEvent::GiftSub {
            id: "g1".to_string(),
            channel_id: "chan".to_string(),
            user_id: "u2".to_string(),
            display_name: "Giver".to_string(),
            recipient_display_name: "Lucky".to_string(),
            months: 1,
            system_message: None,
        },
        "t".to_string(),
    );
    assert_eq!(event.event_type, NormalizedEventType::GiftSub);
    assert_eq!(event.data.get("months"), Some(&serde_json::Value::from(1u64)));
    assert_eq!(event.data.get("recipientDisplayName"), Some(&serde_json::Value::String("Lucky".to_string())));
    assert!(event.data.get("systemMsg").is_none());
}

#[test]
fn twitch_poll_hands_on_the_cheer_before_its_message() {
    let mut client = MockTwitchClient::new();
    client.push_message(TwitchChatMessage {
        id: "abc".to_string(),
        channel: "#Streamer".to_string(),
        user_id: "u1".to_string(),
        username: "cheerer".to_string(),
        display_name: "Cheerer".to_string(),
        color: None,
        avatar_url: None,
        text: "Cheer100 nice".to_string(),
        timestamp: "t0".to_string(),
        badges: vec![("subscriber".to_string(), "12".to_string())],
        emotes: Vec::new(),
        is_action: false,
        reply: None,
        bits: Some(100),
    });
    client.push_event(TwitchChatEvent::Sub {
        id: "s1".to_string(),
        channel_id: "chan".to_string(),
        user_id: "u2".to_string(),
        display_name: "Subber".to_string(),
        months: 2,
        system_message: None,
    });
    let mut adapter = TwitchAdapter::new(client);
    adapter.badge_cache = vec![("subscriber/12".to_string(), "https://img/sub12".to_string())];
    let mut sink = CollectingSink::new();
    assert!(adapter.poll(&mut sink, "1700000000").is_ok());
    match &sink.events[..] {
        [PlatformEvent::Event(bits), PlatformEvent::Message(m), PlatformEvent::Event(sub)] => {
            assert_eq!(bits.id, "twitch:bits:u1:abc");
            assert_eq!(bits.event_type, NormalizedEventType::Bits);
            assert_eq!(bits.data.get("bits"), Some(&serde_json::Value::from(100u64)));
            assert_eq!(bits.data.get("channelId"), Some(&serde_json::Value::String("streamer".to_string())));
            assert_eq!(m.channel_id, "streamer");
            assert_eq!(m.author.badges[0].id, "subscriber/12");
            assert_eq!(m.author.badges[0].image_url.as_deref(), Some("https://img/sub12"));
            assert_eq!(sub.event_type, NormalizedEventType::Sub);
            assert_eq!(sub.timestamp, "1700000000");
        }
        other => panic!("unexpected {:?}", other),
    }
}

#[test]
fn kick_disconnect_stops_reconnecting_and_drops_the_chatroom() {
    let mut adapter = connected_adapter(MockKickClient::new());
    adapter.reconnect_attempt = 2;
    assert!(adapter.disconnect().is_ok());
    assert!(!adapter.is_connected);
    assert!(!adapter.should_reconnect);
    assert!(adapter.chatroom.is_none());
    assert_eq!(adapter.reconnect_attempt, 0);
    assert_eq!(adapter.client.disconnect_count, 1);
}

#[test]
fn twitch_disconnect_marks_the_adapter_disconnected() {
    let mut adapter = TwitchAdapter::new(MockTwitchClient::new());
    adapter.is_connected = true;
    assert!(adapter.disconnect().is_ok());
    assert!(!adapter.is_connected);
    assert_eq!(adapter.client.disconnect_count, 1);
}
