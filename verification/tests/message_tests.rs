use chat_watcher::message::{FrameCommand, InboundFrame, TagPair, TwitchMsg};

fn chat_frame(
    channel: &str,
    login: &str,
    display: &str,
    payload: &str,
    extra: Vec<(&str, Option<&str>)>,
) -> InboundFrame {
    let mut tags = vec![
        TagPair { key: "display-name".to_string(), value: Some(display.to_string()) },
        TagPair { key: "id".to_string(), value: Some("abc-123".to_string()) },
    ];
    for (k, v) in extra {
        tags.push(TagPair { key: k.to_string(), value: v.map(|s| s.to_string()) });
    }
    InboundFrame {
        tags,
        prefix_user: Some(login.to_string()),
        command: FrameCommand::Privmsg(channel.to_string(), payload.to_string()),
    }
}

fn chat_msg(
    channel: &str,
    login: &str,
    display: &str,
    payload: &str,
    extra: Vec<(&str, Option<&str>)>,
) -> TwitchMsg {
    TwitchMsg::from_frame(chat_frame(channel, login, display, payload, extra)).unwrap()
}

#[test]
fn parsing_fills_the_typed_fields() {
    let m = chat_msg("#alice", "mod1", "Mod1", "hello", vec![]);
    assert_eq!(m.channel(), "#alice");
    assert_eq!(m.sender_login(), "mod1");
    assert_eq!(m.sender_display(), "Mod1");
    assert_eq!(m.payload(), "hello");
    assert_eq!(m.id(), "abc-123");
}

#[test]
fn parsing_drops_frames_without_identity() {
    let mut f = chat_frame("#a", "x", "X", "hi", vec![]);
    f.prefix_user = None;
    assert!(TwitchMsg::from_frame(f).is_none());

    let mut f = chat_frame("#a", "x", "X", "hi", vec![]);
    f.tags.retain(|t| t.key != "id");
    assert!(TwitchMsg::from_frame(f).is_none());

    let mut f = chat_frame("#a", "x", "X", "hi", vec![]);
    f.tags.retain(|t| t.key != "display-name");
    assert!(TwitchMsg::from_frame(f).is_none());

    let f = InboundFrame {
        tags: vec![],
        prefix_user: Some("x".to_string()),
        command: FrameCommand::Join("#a".to_string()),
    };
    assert!(TwitchMsg::from_frame(f).is_none());
}

#[test]
fn tag_lookup_returns_the_first_match() {
    let m = chat_msg(
        "#a",
        "x",
        "X",
        "hi",
        vec![("color", Some("#FF0000")), ("color", Some("#00FF00")), ("mod", None)],
    );
    assert_eq!(m.tag("color").map(|s| s.as_str()), Some("#FF0000"));
    assert_eq!(m.tag("mod"), None);
    assert_eq!(m.tag("missing"), None);
}

#[test]
fn badges_split_into_name_version_pairs() {
    let m = chat_msg(
        "#a",
        "x",
        "X",
        "hi",
        vec![("badges", Some("broadcaster/1,subscriber/12,oddity"))],
    );
    let b = m.badges();
    assert_eq!(
        b,
        vec![
            ("broadcaster".to_string(), "1".to_string()),
            ("subscriber".to_string(), "12".to_string()),
        ]
    );
    assert_eq!(m.has_badge("subscriber"), Some("12".to_string()));
    assert_eq!(m.has_badge("vip"), None);
}

#[test]
fn badges_empty_without_the_tag() {
    let m = chat_msg("#a", "x", "X", "hi", vec![]);
    assert!(m.badges().is_empty());
    assert_eq!(m.has_badge("broadcaster"), None);
}

#[test]
fn sent_time_reads_the_timestamp_tag() {
    let m = chat_msg("#a", "x", "X", "hi", vec![("tmi-sent-ts", Some(" 1700000000000 "))]);
    assert_eq!(m.sent_time(), Some(1_700_000_000_000));
    let m = chat_msg("#a", "x", "X", "hi", vec![("tmi-sent-ts", Some("soon"))]);
    assert_eq!(m.sent_time(), None);
    let m = chat_msg("#a", "x", "X", "hi", vec![]);
    assert_eq!(m.sent_time(), None);
}

#[test]
fn name_color_reads_six_hex_digits() {
    let m = chat_msg("#a", "x", "X", "hi", vec![("color", Some("#1A2b3C"))]);
    assert_eq!(m.name_color(), Some((0x1a, 0x2b, 0x3c)));
    let m = chat_msg("#a", "x", "X", "hi", vec![("color", Some("#FFF"))]);
    assert_eq!(m.name_color(), None);
    let m = chat_msg("#a", "x", "X", "hi", vec![("color", Some("#GGGGGG"))]);
    assert_eq!(m.name_color(), None);
    let m = chat_msg("#a", "x", "X", "hi", vec![]);
    assert_eq!(m.name_color(), None);
}

#[test]
fn sanitizing_strips_trailing_echo_markers() {
    let m = chat_msg("#a", "x", "X", "hi\u{e0000}\u{e0000}", vec![]);
    let m = m.sanitized();
    assert_eq!(m.payload(), "hi");
    assert_eq!(m.sender_login(), "x");

    let m = chat_msg("#a", "x", "X", "plain", vec![]).sanitized();
    assert_eq!(m.payload(), "plain");

    let m = chat_msg("#a", "x", "X", "a\u{e0000}b", vec![]).sanitized();
    assert_eq!(m.payload(), "a\u{e0000}b");
}
