use twirchat::overlay::protocol::{build_message_parts, MessagePartType, OverlayMessage};
use twirchat::overlay::server::{
    content_type_for, decode_frame, frame_len, handshake_response, header, is_close_opcode,
    is_websocket_upgrade, missing_root_message, parse_header_line, parse_request_line,
    resolve_overlay_runtime_paths_with, response_head, route_request, safe_join, text_frame,
    websocket_accept, HeaderLine, HttpRequest, HttpRoute, OverlayRuntimePaths,
    OverlayServerConfig,
};
use twirchat::protocol::types::{
    ChatAuthor, ChatMessageType, Emote, EmotePosition, NormalizedChatMessage, Platform,
};

fn message(text: &str, emotes: Vec<Emote>) -> NormalizedChatMessage {
    NormalizedChatMessage {
        id: "m".to_string(),
        platform: Platform::Kick,
        channel_id: "c".to_string(),
        author: ChatAuthor {
            id: "a".to_string(),
            username: None,
            display_name: "A".to_string(),
            color: None,
            avatar_url: None,
            badges: vec![],
        },
        text: text.to_string(),
        emotes,
        timestamp: "0".to_string(),
        message_type: ChatMessageType::Message,
        reply: None,
    }
}

fn emote(id: &str, positions: Vec<(u32, u32)>) -> Emote {
    Emote {
        id: id.to_string(),
        name: id.to_string(),
        image_url: format!("https://cdn/{id}"),
        positions: positions.into_iter().map(|(start, end)| EmotePosition { start, end }).collect(),
        aspect_ratio_bits: None,
    }
}

fn request(method: &str, path: &str, headers: &[(&str, &str)]) -> HttpRequest {
    HttpRequest {
        method: method.to_string(),
        path: path.to_string(),
        headers: headers.iter().map(|(n, v)| (n.to_string(), v.to_string())).collect(),
    }
}

#[test]
fn message_without_emotes_is_one_text_part() {
    let parts = build_message_parts(&message("hello", vec![]));
    assert_eq!(parts.len(), 1);
    assert_eq!(parts[0].part_type, MessagePartType::Text);
    assert_eq!(parts[0].content.as_deref(), Some("hello"));
}

#[test]
fn emotes_split_the_text_in_order_of_position() {
    let m = message("Kappa hi LUL end", vec![emote("lul", vec![(9, 11)]), emote("kappa", vec![(0, 4)])]);
    let parts = build_message_parts(&m);
    let kinds: Vec<(MessagePartType, Option<&str>, Option<&str>)> = parts
        .iter()
        .map(|p| (p.part_type, p.content.as_deref(), p.emote.as_ref().map(|e| e.id.as_str())))
        .collect();
    assert_eq!(
        kinds,
        vec![
            (MessagePartType::Emote, None, Some("kappa")),
            (MessagePartType::Text, Some(" hi "), None),
            (MessagePartType::Emote, None, Some("lul")),
            (MessagePartType::Text, Some(" end"), None),
        ]
    );
    match OverlayMessage::from_chat_message(m.clone()) {
        OverlayMessage::ChatMessage { data } => {
            assert_eq!(data.message, m);
            assert_eq!(data.parts, parts);
        }
        _ => panic!("expected a chat message"),
    }
}

#[test]
fn text_between_emotes_needs_character_boundaries() {
    let parts = build_message_parts(&message("éx", vec![emote("x", vec![(2, 2)])]));
    assert_eq!(parts.len(), 2);
    assert_eq!(parts[0].part_type, MessagePartType::Text);
    assert_eq!(parts[0].content.as_deref(), Some("é"));
    assert_eq!(parts[1].part_type, MessagePartType::Emote);
    // Byte 1 falls inside "é": the text before the emote is left out.
    let cut = build_message_parts(&message("éx", vec![emote("x", vec![(1, 2)])]));
    assert_eq!(cut.len(), 1);
    assert_eq!(cut[0].part_type, MessagePartType::Emote);
    // An emote with no positions leaves the whole text as the only part.
    let only_text = build_message_parts(&message("abc", vec![emote("y", vec![])]));
    assert_eq!(only_text.len(), 1);
    assert_eq!(only_text[0].content.as_deref(), Some("abc"));
}

#[test]
fn websocket_accept_matches_the_protocol_example() {
    assert_eq!(websocket_accept("dGhlIHNhbXBsZSBub25jZQ=="), "s3pPLMBiTxaQ9kYGzzhZRbK+xOo=");
    assert_eq!(
        handshake_response("abc"),
        "HTTP/1.1 101 Switching Protocols\r\nUpgrade: websocket\r\nConnection: Upgrade\r\nSec-WebSocket-Accept: abc\r\n\r\n"
    );
}

#[test]
fn text_frames_read_back() {
    let frame = text_frame("hello");
    assert_eq!(frame, vec![0x81, 5, b'h', b'e', b'l', b'l', b'o']);
    assert_eq!(decode_frame(&frame), Some((1, b"hello".to_vec())));
    let long = "x".repeat(300);
    let frame = text_frame(&long);
    assert_eq!(&frame[..4], &[0x81, 126, 1, 44]);
    assert_eq!(decode_frame(&frame), Some((1, long.as_bytes().to_vec())));
    // A masked close frame from a client.
    let masked = vec![0x88, 0x82, 1, 2, 3, 4, 0x03 ^ 1, 0xe8 ^ 2];
    assert_eq!(decode_frame(&masked), Some((8, vec![0x03, 0xe8])));
    assert!(is_close_opcode(8));
    assert!(!is_close_opcode(1));
    assert_eq!(decode_frame(&vec![0x81]), None);
    assert_eq!(frame_len(&masked), Some(8));
    let mut two = text_frame("ab");
    two.extend(text_frame("c"));
    assert_eq!(frame_len(&two), Some(4));
    assert_eq!(frame_len(&vec![0x81, 5, b'h']), None);
}

#[test]
fn requests_and_headers_are_parsed() {
    assert_eq!(parse_request_line("GET /assets/app.js?v=1 HTTP/1.1\r\n"), ("GET".to_string(), "/assets/app.js".to_string()));
    assert_eq!(parse_request_line(""), ("".to_string(), "/".to_string()));
    assert_eq!(parse_header_line("\r\n"), HeaderLine::End);
    assert_eq!(parse_header_line("no colon\r\n"), HeaderLine::Ignored);
    assert_eq!(
        parse_header_line(" Upgrade : websocket \r\n"),
        HeaderLine::Field("Upgrade".to_string(), "websocket".to_string())
    );
    let req = request(
        "GET",
        "/",
        &[("Connection", "keep-alive, Upgrade"), ("Upgrade", "WebSocket"), ("Sec-WebSocket-Key", "k")],
    );
    assert_eq!(header(&req, "sec-websocket-key"), Some("k"));
    assert!(is_websocket_upgrade(&req));
    assert!(!is_websocket_upgrade(&request("GET", "/", &[("Upgrade", "websocket")])));
}

#[test]
fn routes_follow_the_path() {
    let paths = OverlayRuntimePaths { fonts_dir: Some("/f".to_string()), overlay_dir: Some("/o".to_string()) };
    assert_eq!(route_request(&request("POST", "/", &[]), &paths), HttpRoute::MethodNotAllowed);
    assert_eq!(
        route_request(&request("GET", "/fonts/a.woff2", &[]), &paths),
        HttpRoute::File { root: "/f".to_string(), relative_path: "a.woff2".to_string(), content_type: None }
    );
    assert_eq!(
        route_request(&request("HEAD", "/assets/app.js", &[]), &paths),
        HttpRoute::File { root: "/o".to_string(), relative_path: "assets/app.js".to_string(), content_type: None }
    );
    assert_eq!(route_request(&request("GET", "/favicon.ico", &[]), &paths), HttpRoute::NotFound);
    assert_eq!(
        route_request(&request("GET", "/chat", &[]), &paths),
        HttpRoute::File {
            root: "/o".to_string(),
            relative_path: "index.html".to_string(),
            content_type: Some("text/html; charset=utf-8"),
        }
    );
    let none = OverlayRuntimePaths { fonts_dir: None, overlay_dir: None };
    assert_eq!(route_request(&request("GET", "/fonts/a", &[]), &none), HttpRoute::MissingRoot("fonts"));
    assert_eq!(missing_root_message("fonts"), "Missing fonts asset root");
}

#[test]
fn files_are_served_safely_with_their_type() {
    assert_eq!(safe_join("/root", "/a/./b//c.css"), Some("/root/a/b/c.css".to_string()));
    assert_eq!(safe_join("/root", "a/../b"), None);
    assert_eq!(content_type_for("/x/app.mjs"), "text/javascript; charset=utf-8");
    assert_eq!(content_type_for("/x/font.woff2"), "font/woff2");
    assert_eq!(content_type_for("/x/README"), "application/octet-stream");
    assert_eq!(
        response_head(404, "Not Found", "text/plain", 9),
        "HTTP/1.1 404 Not Found\r\nContent-Type: text/plain\r\nContent-Length: 9\r\nConnection: close\r\n\r\n"
    );
}

#[test]
fn runtime_paths_take_the_first_existing_candidate() {
    let config = OverlayServerConfig::new(45823, OverlayRuntimePaths { fonts_dir: None, overlay_dir: None });
    assert_eq!(config.address, "127.0.0.1:45823");
    let found = resolve_overlay_runtime_paths_with("/app", "/src/desktop", Some("/src"), |p: &str| {
        p.ends_with("dist/overlay") || p.ends_with("fonts")
    });
    assert_eq!(found.overlay_dir.as_deref(), Some("/app/../dist/overlay"));
    assert_eq!(found.fonts_dir.as_deref(), Some("/app/../views/fonts"));
    let nothing = resolve_overlay_runtime_paths_with("/app", "/src/desktop", None, |_: &str| false);
    assert_eq!(nothing, OverlayRuntimePaths { fonts_dir: None, overlay_dir: None });
}
