use twirchat::protocol::messages::{check_desktop_to_backend_message, is_desktop_to_backend_tag, DesktopDecodeError};

#[test]
fn desktop_to_backend_tags_are_known() {
    assert!(is_desktop_to_backend_tag("ping"));
    assert!(is_desktop_to_backend_tag("seventv_resubscribe"));
    assert!(!is_desktop_to_backend_tag("Ping"));
    assert!(!is_desktop_to_backend_tag("unknown"));
}

#[test]
fn desktop_message_with_a_known_type_gives_its_tag() {
    let tag = check_desktop_to_backend_message(r#"{"type":"channel_join","platform":"twitch","channel":"x"}"#);
    assert_eq!(tag.expect("known type"), "channel_join");
}

#[test]
fn desktop_message_that_is_not_json_is_refused() {
    assert!(matches!(check_desktop_to_backend_message("not json"), Err(DesktopDecodeError::InvalidJson(_))));
}

#[test]
fn desktop_message_without_a_type_is_refused() {
    assert!(matches!(check_desktop_to_backend_message(r#"{"platform":"twitch"}"#), Err(DesktopDecodeError::MissingDiscriminant)));
}

#[test]
fn desktop_message_with_a_numeric_type_is_refused() {
    assert!(matches!(check_desktop_to_backend_message(r#"{"type":7}"#), Err(DesktopDecodeError::InvalidDiscriminantType)));
}

#[test]
fn desktop_message_with_an_unknown_type_names_it() {
    match check_desktop_to_backend_message(r#"{"type":"Ping"}"#) {
        Err(DesktopDecodeError::UnknownDiscriminant { value }) => assert_eq!(value, "Ping"),
        other => panic!("unexpected {:?}", other),
    }
}

#[test]
fn desktop_message_json_error_is_the_parser_error() {
    let direct = serde_json::from_str::<serde_json::Value>("{oops").unwrap_err();
    match check_desktop_to_backend_message("{oops") {
        Err(DesktopDecodeError::InvalidJson(e)) => assert_eq!(e.to_string(), direct.to_string()),
        other => panic!("unexpected {:?}", other),
    }
}
