use twirchat::platforms::kick::adapter::{KickAdapter, KickChatroom};
use twirchat::platforms::kick::mock::MockKickClient;
use twirchat::platforms::twitch::adapter::TwitchAdapter;
use twirchat::platforms::twitch::mock::MockTwitchClient;
use twirchat::platforms::kick::adapter::KickStreamStatusRequest;
use twirchat::platforms::PlatformError;
use twirchat::protocol::types::Platform;

#[test]
fn fetched_badges_replace_the_cache() {
    let mut adapter = TwitchAdapter::new(MockTwitchClient::new());
    let fetched = vec![("sub/1".to_string(), "https://img/sub1".to_string())];
    assert!(adapter.apply_fetched_badges(Ok(fetched.clone())).is_ok());
    assert_eq!(adapter.badge_cache, fetched);
    let error = PlatformError { platform: Platform::Twitch, message: "down".to_string() };
    assert_eq!(adapter.apply_fetched_badges(Err(error.clone())), Err(error));
    assert_eq!(adapter.badge_cache, fetched);
}

#[test]
fn stream_status_request_uses_the_known_broadcaster() {
    let mut adapter = KickAdapter::new(MockKickClient::new());
    let request = adapter.stream_status_request("  @Streamer ");
    assert_eq!(request.broadcaster_user_id, None);
    adapter.chatroom = Some(KickChatroom {
        channel_slug: "streamer".to_string(),
        chatroom_id: 7,
        broadcaster_user_id: 42,
    });
    let request = adapter.stream_status_request("@streamer");
    assert_eq!(request.channel_slug, "streamer");
    assert_eq!(request.broadcaster_user_id, Some(42));
}

#[test]
fn platform_error_text_names_the_platform() {
    let e = PlatformError::new(Platform::Kick, "boom".to_string());
    assert_eq!(e.platform, Platform::Kick);
    assert_eq!(e.message, "boom");
    assert_eq!(e.to_string(), "Kick platform adapter error: boom");
}

#[test]
fn kick_stream_status_sends_the_normalized_request() {
    let mut adapter = KickAdapter::new(MockKickClient::new());
    let status = adapter.stream_status(" @Satont ").expect("status");
    assert_eq!(status.channel_id, "satont");
    assert_eq!(
        adapter.client.stream_status_requests,
        vec![KickStreamStatusRequest { channel_slug: "satont".to_string(), broadcaster_user_id: None }]
    );
}

#[test]
fn twitch_badges_are_refreshed_from_the_client() {
    let client = MockTwitchClient::new().with_badge("sub/1", "https://img/sub1");
    let mut adapter = TwitchAdapter::new(client);
    assert!(adapter.refresh_badges().is_ok());
    assert_eq!(adapter.badge_cache, vec![("sub/1".to_string(), "https://img/sub1".to_string())]);
}

#[test]
fn mock_setters_keep_the_other_fields() {
    let mut m = MockKickClient::new().with_chatroom("foo", 1, 2);
    m.push_missing_chatroom_once("boom");
    assert_eq!(m.chatrooms.len(), 1);
    assert_eq!(m.missing_chatrooms, vec!["boom".to_string()]);
}
