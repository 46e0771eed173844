use twirchat::platforms::youtube::adapter::YouTubeAdapter;
use twirchat::platforms::youtube::mock::MockYouTubeTransport;
use twirchat::platforms::youtube::stream::{normalize_membership, normalize_super_chat};
use twirchat::platforms::youtube::transport::{
    YouTubeAuthor, YouTubeMembership, YouTubeStreamItem, YouTubeStreamSignal, YouTubeSuperChat, YouTubeTextMessage,
};
use twirchat::platforms::{CollectingSink, PlatformEvent};
use twirchat::protocol::types::{NormalizedEventType, PlatformStatus};

fn author() -> YouTubeAuthor {
    YouTubeAuthor {
        channel_id: "UCfan".to_string(),
        display_name: "Fan".to_string(),
        username: Some("@fan".to_string()),
        avatar_url: None,
        is_verified: false,
        is_chat_owner: false,
        is_chat_sponsor: true,
        is_chat_moderator: false,
    }
}

#[test]
fn super_chat_keeps_its_amount_and_sticker_flag() {
    let event = normalize_super_chat(
        YouTubeSuperChat {
            id: "sc1".to_string(),
            channel_id: "UCchan".to_string(),
            live_chat_id: "live".to_string(),
            author: author(),
            amount_micros: 5_000_000,
            amount_display_string: "$5.00".to_string(),
            currency: "USD".to_string(),
            comment: None,
            timestamp: String::new(),
            is_sticker: true,
        },
        1_700_000_000,
    );
    assert_eq!(event.event_type, NormalizedEventType::Superchat);
    assert_eq!(event.data.get("amountMicros"), Some(&serde_json::Value::from(5_000_000u64)));
    assert_eq!(event.data.get("amount"), Some(&serde_json::Value::String("$5.00".to_string())));
    assert_eq!(event.data.get("sticker"), Some(&serde_json::Value::Bool(true)));
    assert!(event.data.get("comment").is_none());
    assert_eq!(event.timestamp, "1700000000");
}

#[test]
fn membership_keeps_its_level_and_months() {
    let event = normalize_membership(
        YouTubeMembership {
            id: "m1".to_string(),
            channel_id: "UCchan".to_string(),
            live_chat_id: "live".to_string(),
            author: author(),
            level_name: Some("Gold".to_string()),
            months: Some(4),
            message: None,
            timestamp: "t".to_string(),
        },
        0,
    );
    assert_eq!(event.event_type, NormalizedEventType::Membership);
    assert_eq!(event.data.get("levelName"), Some(&serde_json::Value::String("Gold".to_string())));
    assert_eq!(event.data.get("months"), Some(&serde_json::Value::from(4u64)));
    assert_eq!(event.data.len(), 4);
    assert_eq!(event.user.id, "UCfan");
}

#[test]
fn pushed_text_message_is_shown_in_the_resolved_channel() {
    let transport = MockYouTubeTransport::new().with_resolved_channel("UCchan", "live");
    let mut adapter = YouTubeAdapter::new(transport);
    adapter.channel_slug = Some("@chan".to_string());
    assert!(adapter.connect_once().is_ok());
    let mut sink = CollectingSink::new();
    let signal = YouTubeStreamSignal::Item(Box::new(YouTubeStreamItem::Text(YouTubeTextMessage {
        id: "t1".to_string(),
        channel_id: String::new(),
        live_chat_id: "live".to_string(),
        author: author(),
        text: "hello".to_string(),
        timestamp: "2024".to_string(),
        badges: Vec::new(),
    })));
    assert!(adapter.handle_stream_signal(signal, &mut sink, 0).is_ok());
    match &sink.events[..] {
        [PlatformEvent::Message(m)] => {
            assert_eq!(m.channel_id, "UCchan");
            assert_eq!(m.text, "hello");
            assert_eq!(m.author.badges.len(), 1);
            assert_eq!(m.author.badges[0].id, "member");
        }
        other => panic!("unexpected {:?}", other),
    }
}

#[test]
fn ended_stream_is_reopened_with_its_reason() {
    let transport = MockYouTubeTransport::new().with_resolved_channel("UCchan", "live");
    let mut adapter = YouTubeAdapter::new(transport);
    adapter.channel_slug = Some("@chan".to_string());
    let mut sink = CollectingSink::new();
    let signal = YouTubeStreamSignal::StreamEnded { reason: None };
    assert!(adapter.handle_stream_signal(signal, &mut sink, 0).is_ok());
    assert!(adapter.is_connected);
    assert_eq!(adapter.reconnect_attempts, 1);
    assert_eq!(adapter.transport.close_count, 1);
    match &sink.events[..] {
        [PlatformEvent::Status(a), PlatformEvent::Status(b)] => {
            assert_eq!(a.status, PlatformStatus::Connecting);
            assert_eq!(a.error.as_deref(), Some("YouTube live chat stream ended"));
            assert_eq!(b.status, PlatformStatus::Connected);
        }
        other => panic!("unexpected {:?}", other),
    }
}

#[test]
fn failed_stream_is_reported_then_dropped_when_not_reconnecting() {
    let mut adapter = YouTubeAdapter::new(MockYouTubeTransport::new());
    adapter.should_reconnect = false;
    adapter.is_connected = true;
    let mut sink = CollectingSink::new();
    let signal = YouTubeStreamSignal::StreamError { message: "quota".to_string() };
    assert!(adapter.handle_stream_signal(signal, &mut sink, 0).is_ok());
    assert!(!adapter.is_connected);
    assert!(adapter.active_stream.is_none());
    match &sink.events[..] {
        [PlatformEvent::Status(s)] => {
            assert_eq!(s.status, PlatformStatus::Error);
            assert_eq!(s.error.as_deref(), Some("quota"));
        }
        other => panic!("unexpected {:?}", other),
    }
}

#[test]
fn youtube_disconnect_with_status_reports_disconnected() {
    let mut adapter = YouTubeAdapter::new(MockYouTubeTransport::new());
    adapter.is_connected = true;
    let mut sink = CollectingSink::new();
    assert!(adapter.disconnect_with_status(&mut sink).is_ok());
    assert!(!adapter.is_connected);
    assert!(!adapter.should_reconnect);
    assert_eq!(adapter.transport.close_count, 1);
    match &sink.events[..] {
        [PlatformEvent::Status(s)] => assert_eq!(s.status, PlatformStatus::Disconnected),
        other => panic!("unexpected {:?}", other),
    }
}
