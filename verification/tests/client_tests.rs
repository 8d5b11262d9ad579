use chat_watcher::client::{check_welcome, Action, AuthError, ClientCore, Event};
use chat_watcher::message::{FrameCommand, InboundFrame, TagPair};

fn privmsg_frame(channel: &str, login: &str, payload: &str) -> InboundFrame {
    InboundFrame {
        tags: vec![
            TagPair { key: "display-name".to_string(), value: Some(login.to_uppercase()) },
            TagPair { key: "id".to_string(), value: Some("id-9".to_string()) },
        ],
        prefix_user: Some(login.to_string()),
        command: FrameCommand::Privmsg(channel.to_string(), payload.to_string()),
    }
}

fn bare_frame(command: FrameCommand) -> InboundFrame {
    InboundFrame { tags: vec![], prefix_user: None, command }
}

#[test]
fn welcome_confirms_the_username() {
    let f = bare_frame(FrameCommand::Response(1, vec!["mynick".to_string()]));
    assert_eq!(check_welcome(&Some(f)), Ok("mynick".to_string()));
}

#[test]
fn missing_or_wrong_first_response_fails_construction() {
    assert_eq!(check_welcome(&None), Err(AuthError::NoResponse));
    let f = bare_frame(FrameCommand::Response(464, vec!["x".to_string()]));
    assert_eq!(check_welcome(&Some(f)), Err(AuthError::NotWelcome));
    let f = bare_frame(FrameCommand::Response(1, vec![]));
    assert_eq!(check_welcome(&Some(f)), Err(AuthError::NotWelcome));
    let f = bare_frame(FrameCommand::Notice("*".to_string(), "hi".to_string()));
    assert_eq!(check_welcome(&Some(f)), Err(AuthError::NotWelcome));
}

#[test]
fn join_registers_and_sends_the_frame() {
    let mut core = ClientCore::new("me".to_string());
    let acts = core.handle_event(Event::JoinRequest { channel: "alice".to_string() }, 0);
    assert_eq!(acts.len(), 1);
    assert!(matches!(&acts[0], Action::SendJoin { channel } if channel == "#alice"));
    // Joining again is idempotent for dispatch and still resends JOIN.
    let acts = core.handle_event(Event::JoinRequest { channel: "alice".to_string() }, 0);
    assert_eq!(acts.len(), 1);
    assert!(matches!(&acts[0], Action::SendJoin { channel } if channel == "#alice"));
}

#[test]
fn chat_frames_route_to_registered_channels_only() {
    let mut core = ClientCore::new("me".to_string());
    core.handle_event(Event::JoinRequest { channel: "alice".to_string() }, 0);

    let acts = core.handle_event(Event::Inbound(privmsg_frame("#alice", "bob", "hi")), 0);
    assert_eq!(acts.len(), 1);
    match &acts[0] {
        Action::Dispatch { channel, msg } => {
            assert_eq!(channel, "#alice");
            assert_eq!(msg.payload(), "hi");
            assert_eq!(msg.sender_login(), "bob");
        }
        other => panic!("expected a dispatch, got {:?}", std::mem::discriminant(other)),
    }

    let acts = core.handle_event(Event::Inbound(privmsg_frame("#carol", "bob", "hi")), 0);
    assert!(acts.is_empty());
}

#[test]
fn part_then_join_starts_clean() {
    let mut core = ClientCore::new("me".to_string());
    core.handle_event(Event::JoinRequest { channel: "alice".to_string() }, 0);

    let acts = core.handle_event(Event::PartRequest { channel: "alice".to_string() }, 0);
    assert_eq!(acts.len(), 2);
    assert!(matches!(&acts[0], Action::SendPart { channel } if channel == "#alice"));
    assert!(matches!(&acts[1], Action::ResetChannel { channel } if channel == "#alice"));

    // After the part, frames for the channel are dropped.
    let acts = core.handle_event(Event::Inbound(privmsg_frame("#alice", "bob", "late")), 0);
    assert!(acts.is_empty());

    // Parting an unregistered channel still sends PART but resets nothing.
    let acts = core.handle_event(Event::PartRequest { channel: "alice".to_string() }, 0);
    assert_eq!(acts.len(), 1);
    assert!(matches!(&acts[0], Action::SendPart { channel } if channel == "#alice"));

    // The rejoin registers it exactly once more; routing works again.
    core.handle_event(Event::JoinRequest { channel: "alice".to_string() }, 0);
    let acts = core.handle_event(Event::Inbound(privmsg_frame("#alice", "bob", "hi")), 0);
    assert_eq!(acts.len(), 1);
}

#[test]
fn read_error_reconnects_and_rejoins_everything() {
    let mut core = ClientCore::new("me".to_string());
    core.handle_event(Event::JoinRequest { channel: "alice".to_string() }, 0);
    core.handle_event(Event::JoinRequest { channel: "bob".to_string() }, 0);

    let acts = core.handle_event(Event::ReadError, 0);
    assert_eq!(acts.len(), 3);
    assert!(matches!(&acts[0], Action::Reconnect));
    assert!(matches!(&acts[1], Action::SendJoin { channel } if channel == "#alice"));
    assert!(matches!(&acts[2], Action::SendJoin { channel } if channel == "#bob"));

    // Messages arriving after the reconnect still route correctly.
    let acts = core.handle_event(Event::Inbound(privmsg_frame("#bob", "x", "still here")), 0);
    assert_eq!(acts.len(), 1);
    assert!(matches!(&acts[0], Action::Dispatch { channel, .. } if channel == "#bob"));
}

#[test]
fn join_confirmation_marks_the_channel_joined() {
    let mut core = ClientCore::new("me".to_string());
    core.handle_event(Event::JoinRequest { channel: "alice".to_string() }, 0);
    let acts = core.handle_event(
        Event::Inbound(bare_frame(FrameCommand::Join("#alice".to_string()))),
        0,
    );
    assert_eq!(acts.len(), 1);
    assert!(matches!(&acts[0], Action::SetJoined { channel } if channel == "#alice"));
    // A join confirmation for an unregistered channel is ignored.
    let acts = core.handle_event(
        Event::Inbound(bare_frame(FrameCommand::Join("#carol".to_string()))),
        0,
    );
    assert!(acts.is_empty());
}

#[test]
fn auth_failure_notice_is_fatal() {
    let mut core = ClientCore::new("me".to_string());
    let acts = core.handle_event(
        Event::Inbound(bare_frame(FrameCommand::Notice(
            "*".to_string(),
            "Login authentication failed".to_string(),
        ))),
        0,
    );
    assert_eq!(acts.len(), 1);
    assert!(matches!(&acts[0], Action::FatalAuth));
    // Any other notice is ignored.
    let acts = core.handle_event(
        Event::Inbound(bare_frame(FrameCommand::Notice("*".to_string(), "slow down".to_string()))),
        0,
    );
    assert!(acts.is_empty());
}

#[test]
fn self_state_echo_synthesizes_the_sent_message_once() {
    let mut core = ClientCore::new("me".to_string());
    core.handle_event(Event::JoinRequest { channel: "alice".to_string() }, 0);

    let acts = core.handle_event(
        Event::SendRequest { target: "#alice".to_string(), text: "my words".to_string() },
        0,
    );
    assert_eq!(acts.len(), 1);
    assert!(
        matches!(&acts[0], Action::SendPrivmsg { target, text } if target == "#alice" && text == "my words")
    );

    // The USERSTATE echo carries tags but no sender prefix; the client
    // synthesizes the full message from the pending text.
    let echo = || InboundFrame {
        tags: vec![
            TagPair { key: "display-name".to_string(), value: Some("Me".to_string()) },
            TagPair { key: "id".to_string(), value: Some("echo-1".to_string()) },
        ],
        prefix_user: None,
        command: FrameCommand::Raw("USERSTATE".to_string(), vec!["#alice".to_string()]),
    };
    let acts = core.handle_event(Event::Inbound(echo()), 1_700_000_000_000);
    assert_eq!(acts.len(), 1);
    match &acts[0] {
        Action::Dispatch { channel, msg } => {
            assert_eq!(channel, "#alice");
            assert_eq!(msg.payload(), "my words");
            assert_eq!(msg.sender_login(), "me");
            assert_eq!(msg.sent_time(), Some(1_700_000_000_000));
        }
        _ => panic!("expected a dispatch"),
    }

    // At most once: a second echo without a new send dispatches nothing.
    let acts = core.handle_event(Event::Inbound(echo()), 1_700_000_000_001);
    assert!(acts.is_empty());
}

#[test]
fn unrecognized_frames_are_ignored() {
    let mut core = ClientCore::new("me".to_string());
    let acts = core.handle_event(Event::Inbound(bare_frame(FrameCommand::Other)), 0);
    assert!(acts.is_empty());
    let acts = core.handle_event(
        Event::Inbound(bare_frame(FrameCommand::Raw("CLEARCHAT".to_string(), vec![]))),
        0,
    );
    assert!(acts.is_empty());
}
