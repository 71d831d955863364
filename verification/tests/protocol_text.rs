use tiny_player::error::PlayerError;
use tiny_player::protocol::{
    cache_needs_refresh, chat_init_message, classify_share_message, decode_i64_le,
    duration_message, encode_i64_le, share_init_message, video_des_message,
    watch_request_message, ServerApi, ShareEvent, SocketMessage, UserDetail, VideoDes,
};
use tiny_player::text::{ends_with_text, escape_font_path, is_media_file_name, roll_subtitle, text_eq};

fn user() -> UserDetail {
    UserDetail { id: "u1".to_string(), username: "bob".to_string(), role: "guest".to_string() }
}

#[test]
fn error_message_text() {
    let e = PlayerError::Internal("exe path get err".to_string());
    assert_eq!(e.message(), "error: exe path get err");
}

#[test]
fn socket_message_accessors() {
    let m = SocketMessage::new(
        "a".to_string(),
        "alice".to_string(),
        "server".to_string(),
        "b".to_string(),
        "chat".to_string(),
        vec![1, 2, 3],
    );
    assert_eq!(m.get_name(), "alice");
    assert_eq!(m.get_msg(), &vec![1, 2, 3]);
    assert_eq!(m.get_msg_type(), "chat");
    let empty = UserDetail::empty();
    assert!(empty.id.is_empty() && empty.username.is_empty() && empty.role.is_empty());
}

#[test]
fn outgoing_messages() {
    let m = chat_init_message(&user());
    assert_eq!(m.sender_id, "u1");
    assert_eq!(m.sender_name, "bob");
    assert_eq!(m.receiver_type, "server");
    assert_eq!(m.receiver_id, "server");
    assert_eq!(m.msg_type, "chat init");
    assert_eq!(m.msg, b"user \"bob\" is now online".to_vec());
    let s = share_init_message(&user());
    assert_eq!(s.msg_type, "share init");
    assert!(s.msg.is_empty());
    let v = video_des_message(&user(), "{\"name\":\"a\"}");
    assert_eq!(v.receiver_id, "");
    assert_eq!(v.msg_type, "video des");
    assert_eq!(v.msg, b"{\"name\":\"a\"}".to_vec());
    let target = VideoDes { name: "a".to_string(), path: "/a.mp4".to_string(), user_id: "u9".to_string() };
    let w = watch_request_message(&user(), &target, "{}");
    assert_eq!(w.receiver_type, "user");
    assert_eq!(w.receiver_id, "u9");
    assert_eq!(w.msg_type, "req video command");
}

#[test]
fn duration_reply_round_trip() {
    let request = SocketMessage::new(
        "watcher".to_string(),
        "w".to_string(),
        "user".to_string(),
        "owner".to_string(),
        "req video command".to_string(),
        vec![],
    );
    let reply = duration_message(&request, 123_456_789);
    assert_eq!(reply.sender_id, "owner");
    assert_eq!(reply.receiver_id, "watcher");
    assert_eq!(reply.sender_name, "");
    assert_eq!(reply.msg, 123_456_789i64.to_le_bytes().to_vec());
    assert_eq!(classify_share_message(&reply), ShareEvent::Duration(123_456_789));
    assert_eq!(decode_i64_le(&encode_i64_le(-42)), Some(-42));
    assert_eq!(decode_i64_le(&[1, 2, 3]), None);
}

#[test]
fn incoming_share_messages() {
    let mk = |t: &str, body: Vec<u8>| {
        SocketMessage::new("a".into(), "b".into(), "c".into(), "d".into(), t.into(), body)
    };
    assert_eq!(classify_share_message(&mk("video des", vec![9])), ShareEvent::VideoOffered(vec![9]));
    assert_eq!(classify_share_message(&mk("req video command", vec![])), ShareEvent::StreamRequested);
    assert_eq!(classify_share_message(&mk("duration of video to play", vec![1; 7])), ShareEvent::Ignored);
    assert_eq!(classify_share_message(&mk("chat", vec![])), ShareEvent::Ignored);
    assert!(cache_needs_refresh(1, 2));
    assert!(!cache_needs_refresh(2, 2));
}

#[test]
fn server_api_urls() {
    assert_eq!(ServerApi::Login.address(), "http://127.0.0.1:8536/user/guest_login");
    let url = ServerApi::ChatMsg.get_url_from_server_api();
    assert!(matches!(url, Ok(ref u) if u.url().as_str() == "ws://127.0.0.1:8536/player/chat"));
    let login = ServerApi::Login.get_url_from_server_api().map(|u| u.into_url());
    assert!(matches!(login, Ok(ref u) if u.as_str() == "http://127.0.0.1:8536/user/guest_login"));
    let share = ServerApi::ShareVideoSock.get_url_from_server_api();
    assert!(matches!(share, Ok(ref u) if u.url().path() == "/player/share_sock"));
    assert!(ServerApi::ShareVideoSock.get_url_from_server_api().is_ok());
}

#[test]
fn media_file_names() {
    assert!(is_media_file_name("movie.mkv"));
    assert!(is_media_file_name("song.opus"));
    assert!(is_media_file_name(".ts"));
    assert!(!is_media_file_name("notes.txt"));
    assert!(!is_media_file_name("MOVIE.MKV"));
    assert!(!is_media_file_name("mp4"));
    assert!(ends_with_text("abc", "bc"));
    assert!(!ends_with_text("c", "bc"));
    assert!(text_eq("video des", "video des"));
    assert!(!text_eq("video des", "video"));
}

#[test]
fn font_path_escaping() {
    assert_eq!(escape_font_path("C:\\player\\app_font.ttf"), Some("C\\:/player/app_font.ttf".to_string()));
    assert_eq!(escape_font_path("/usr/share/app_font.ttf"), None);
    assert_eq!(escape_font_path("a:b:c"), Some("a\\:b:c".to_string()));
}

#[test]
fn subtitle_line_rolls() {
    let mut line = "x".repeat(49);
    roll_subtitle(&mut line, "ab");
    assert_eq!(line, format!("{}ab", "x".repeat(48)));
    let mut short = "hi".to_string();
    roll_subtitle(&mut short, " there");
    assert_eq!(short, "hi there");
    let mut wide = "中".repeat(17);
    roll_subtitle(&mut wide, "");
    assert_eq!(wide, "中".repeat(16));
}
