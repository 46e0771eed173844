use twirchat::auth::browser::browser_open_command_for_target;
use twirchat::hotkeys::{
    format_hotkey_display, set_hotkey_for_action, HotkeyAction, HotkeyManager, Keystroke, Modifiers,
};
use twirchat::platforms::kick::adapter::{
    normalize_reply, KickChatMessage, KickChatMessageKind, KickMessageSender, KickOriginalMessage,
    KickOriginalSender, KickReplyMetadata, KickSenderIdentity,
};
use twirchat::platforms::twitch::client::{parse_irc_line_now, ParsedTwitchLine};
use twirchat::mock::{channel_tabs, chat_messages};
use twirchat::platforms::twitch::client::{validate_channel_name, validate_irc_parameter};
use twirchat::protocol::types::HotkeySettings;
use twirchat::requires_graphical_session_for_target;

#[test]
fn windows_browser_open_command_avoids_cmd_shell_parsing() {
    let url = "https://id.kick.com/oauth/authorize?client_id=abc&scope=user%3Aread+channel%3Aread";

    let command = browser_open_command_for_target(url, "windows");

    assert_eq!(command.program, "rundll32");
    assert_eq!(command.args, ["url.dll,FileProtocolHandler", url]);
    assert!(!command.args.iter().any(|arg| arg == "/C" || arg == "start"));
}

#[test]
fn formats_display_labels() {
    assert_eq!(format_hotkey_display("ctrl+shift+k"), "Ctrl+Shift+K");
    assert_eq!(format_hotkey_display("alt+arrowleft"), "Alt+Left");
}

#[test]
fn updates_only_requested_hotkey_field() {
    let mut settings = HotkeySettings {
        new_tab: "ctrl+t".to_string(),
        next_tab: "ctrl+tab".to_string(),
        prev_tab: "alt+arrowleft".to_string(),
        tab_selector: "ctrl+l".to_string(),
    };

    set_hotkey_for_action(&mut settings, HotkeyAction::NewTab, "ctrl+n".to_string());

    assert_eq!(settings.new_tab, "ctrl+n");
    assert_eq!(settings.next_tab, "ctrl+tab");
    assert_eq!(settings.prev_tab, "alt+arrowleft");
    assert_eq!(settings.tab_selector, "ctrl+l");
}

#[test]
fn graphical_session_guard_is_linux_only() {
    assert!(!requires_graphical_session_for_target(false, false, false));
    assert!(requires_graphical_session_for_target(true, false, false));
    assert!(!requires_graphical_session_for_target(true, true, false));
    assert!(!requires_graphical_session_for_target(true, false, true));
}

#[test]
fn mock_tabs_include_home() {
    assert!(channel_tabs().iter().any(|tab| tab.id == "home"));
}

#[test]
fn mock_messages_are_non_empty() {
    let messages = chat_messages();
    assert!(!messages.is_empty());
    assert_eq!(messages[0].timestamp, "01:31:32");
}

#[test]
fn rejects_outbound_irc_command_injection_inputs() {
    assert!(validate_irc_parameter("message text", "hello\r\nJOIN #other").is_err());
    assert!(validate_irc_parameter("message text", "hello\nPRIVMSG #x :pwn").is_err());
    assert!(validate_irc_parameter("reply message id", "abc\r\nPART #x").is_err());
    assert!(validate_channel_name("foo\r\npart").is_err());
    assert!(validate_channel_name("valid_channel1").is_ok());
}

fn keystroke(key: &str) -> Keystroke {
    modified_keystroke(key, Modifiers::default())
}

fn modified_keystroke(key: &str, modifiers: Modifiers) -> Keystroke {
    Keystroke { key: key.to_string(), modifiers }
}

#[test]
fn records_normalized_hotkey_and_stops_recording() {
    let mut m = HotkeyManager::new();
    m.start_recording(HotkeyAction::TabSelector);

    let recorded = m.record_keystroke(&modified_keystroke(
        "k",
        Modifiers { control: true, shift: true, ..Default::default() },
    ));

    assert_eq!(recorded, Some((HotkeyAction::TabSelector, "ctrl+shift+k".to_string())));
    assert_eq!(m.recording_action(), None);
}

#[test]
fn escape_cancels_recording() {
    let mut m = HotkeyManager::new();
    m.start_recording(HotkeyAction::NewTab);

    assert_eq!(m.record_keystroke(&keystroke("escape")), None);
    assert_eq!(m.recording_action(), None);
}

#[test]
fn bare_modifier_does_not_finish_recording() {
    let mut m = HotkeyManager::new();
    m.start_recording(HotkeyAction::PrevTab);

    assert_eq!(m.record_keystroke(&keystroke("shift")), None);
    assert_eq!(m.recording_action(), Some(HotkeyAction::PrevTab));
}

#[test]
fn parses_privmsg_tags_with_repeated_emotes_badges_and_reply() {
    let line = r"@badge-info=subscriber/12;badges=broadcaster/1,subscriber/12;color=#9146ff;display-name=Viewer\sLogin;emotes=25:0-4,12-16;id=msg-1;reply-parent-msg-body=hello\sworld;reply-parent-msg-id=parent-1;reply-parent-user-id=parent-user;reply-parent-user-login=parentlogin;reply-parent-display-name=Parent\sLogin;tmi-sent-ts=1700000000000;user-id=viewer-1 :viewerlogin!viewerlogin@viewerlogin.tmi.twitch.tv PRIVMSG #FixtureStreamer :Kappa hello Kappa";

    let Some(ParsedTwitchLine::Message(message)) = parse_irc_line_now(line) else {
        panic!("expected parsed Twitch chat message");
    };

    assert_eq!(message.channel, "fixturestreamer");
    assert_eq!(message.display_name, "Viewer Login");
    assert_eq!(
        message.badges,
        vec![("broadcaster".into(), "1".into()), ("subscriber".into(), "12".into())]
    );
    assert_eq!(message.emotes.len(), 2);
    assert_eq!(message.emotes[0].name, "Kappa");
    assert_eq!(message.emotes[1].start, 12);
    assert_eq!(
        message.reply.as_ref().map(|reply| reply.parent_author.display_name.as_str()),
        Some("Parent Login")
    );
}

#[test]
fn parses_ctcp_action_as_action_message() {
    let line = "@badges=;display-name=Viewer;id=msg-action;tmi-sent-ts=1700000000000;user-id=viewer-1 :viewerlogin!viewerlogin@viewerlogin.tmi.twitch.tv PRIVMSG #FixtureStreamer :\u{1}ACTION waves\u{1}";

    let Some(ParsedTwitchLine::Message(message)) = parse_irc_line_now(line) else {
        panic!("expected parsed Twitch action message");
    };

    assert!(message.is_action);
    assert_eq!(message.text, "waves");
}

#[test]
fn kick_reply_payload_accepts_numeric_original_sender_id() {
    // The payload of the original test, as the app's JSON reader hands it to the library: the
    // numeric `original_sender.id` 103024073 arrives as its decimal text.
    let message = KickChatMessage {
        id: "msg-1".to_string(),
        chatroom_id: 3124040,
        content: "reply body".to_string(),
        message_type: KickChatMessageKind::Reply,
        created_at: "2026-05-19T20:38:27+00:00".to_string(),
        sender: KickMessageSender {
            id: 1,
            username: "sender".to_string(),
            slug: "sender".to_string(),
            identity: KickSenderIdentity { color: None, badges: vec![] },
            profile_picture: None,
        },
        metadata: Some(KickReplyMetadata {
            original_sender: Some(KickOriginalSender {
                id: "103024073".to_string(),
                username: "j0yc".to_string(),
            }),
            original_message: Some(KickOriginalMessage {
                id: "parent-1".to_string(),
                content: "parent text".to_string(),
            }),
        }),
    };
    assert_eq!(
        message.metadata.as_ref().unwrap().original_sender.as_ref().unwrap().id,
        "103024073"
    );

    let reply = normalize_reply(KickChatMessageKind::Reply, message.metadata)
        .expect("reply metadata should normalize");
    assert_eq!(reply.parent_author.id, "103024073");
    assert_eq!(reply.parent_message_id, "parent-1");
}
