use chat_watcher::alert::AlertDebouncer;
use chat_watcher::channel::{ChannelConnectionState, ChannelManager};
use chat_watcher::filter::{Filter, FilterState};
use chat_watcher::message::{FrameCommand, InboundFrame, TagPair, TwitchMsg};
use chat_watcher::persist::{restore_channel, restore_channels, save_channel, save_channels};
use chat_watcher::transcript::{msg_to_str, transcript_line_local};

fn mk_msg(login: &str, display: &str, payload: &str) -> TwitchMsg {
    TwitchMsg::from_frame(InboundFrame {
        tags: vec![
            TagPair { key: "display-name".to_string(), value: Some(display.to_string()) },
            TagPair { key: "id".to_string(), value: Some(format!("{}:{}", login, payload)) },
        ],
        prefix_user: Some(login.to_string()),
        command: FrameCommand::Privmsg("#alice".to_string(), payload.to_string()),
    })
    .unwrap()
}

fn accept_all_filter() -> Filter {
    let st = FilterState { inc_msg: ".".to_string(), ..FilterState::default() };
    Filter::compile(&st).unwrap()
}

fn author_filter(pat: &str) -> Filter {
    let st = FilterState { inc_author: pat.to_string(), ..FilterState::default() };
    Filter::compile(&st).unwrap()
}

#[test]
fn buffers_keep_only_the_most_recent_messages() {
    let mut ch = ChannelManager::new("Alice", 3, accept_all_filter());
    for i in 0..5 {
        ch.ingest(mk_msg("bob", "Bob", &format!("m{}", i)));
        assert!(ch.get_msg_count(false) <= 3);
        assert!(ch.get_msg_count(true) <= 3);
    }
    let all: Vec<String> = ch.get_msg(false).iter().map(|m| m.payload().to_string()).collect();
    assert_eq!(all, vec!["m2", "m3", "m4"]);
    let filtered: Vec<String> =
        ch.get_msg(true).iter().map(|m| m.payload().to_string()).collect();
    assert_eq!(filtered, vec!["m2", "m3", "m4"]);
}

#[test]
fn routing_scenario_for_an_author_filter() {
    // Channel "alice" with inclusive author pattern ^mod1$: a message from
    // mod1 lands in both buffers and sets unread; one from bob lands only
    // in "all".
    let mut ch = ChannelManager::new("alice", 100, author_filter("^mod1$"));
    assert_eq!(ch.channel_name(), "alice");
    assert!(!ch.has_unread_filtered_msg());

    let o = ch.ingest(mk_msg("mod1", "Mod1", "hello"));
    assert!(o.matched);
    assert_eq!(ch.get_msg_count(false), 1);
    assert_eq!(ch.get_msg_count(true), 1);
    assert!(ch.has_unread_filtered_msg());

    ch.read();
    let o = ch.ingest(mk_msg("bob", "Bob", "hello"));
    assert!(!o.matched);
    assert_eq!(ch.get_msg_count(false), 2);
    assert_eq!(ch.get_msg_count(true), 1);
    assert!(!ch.has_unread_filtered_msg());
}

#[test]
fn transcript_error_is_recorded_and_ingestion_continues() {
    // An unwritable transcript location: the write failure is recorded as
    // the sink's status while subsequent ingestion runs unaffected.
    let mut ch = ChannelManager::new("alice", 100, accept_all_filter());
    ch.set_log(Some("/no/such/dir/out.log".to_string()));
    let o = ch.ingest(mk_msg("bob", "Bob", "one"));
    assert!(o.write_all_log);
    // The caller attempted the append and it failed:
    ch.record_log_error("permission denied".to_string());
    assert_eq!(ch.log_status(), Some(Err("permission denied".to_string())));
    // The sink stays configured and keeps being attempted.
    assert_eq!(ch.log_path(), Some("/no/such/dir/out.log".to_string()));
    let o = ch.ingest(mk_msg("bob", "Bob", "two"));
    assert!(o.write_all_log);
    assert_eq!(ch.get_msg_count(false), 2);
}

#[test]
fn filtered_transcript_has_its_own_error_state() {
    let mut ch = ChannelManager::new("alice", 100, accept_all_filter());
    ch.set_filtered_log(Some("f.log".to_string()));
    let o = ch.ingest(mk_msg("bob", "Bob", "x"));
    assert!(o.write_filtered_log);
    assert!(!o.write_all_log);
    ch.record_filtered_log_error("disk full".to_string());
    assert_eq!(ch.filtered_log_status(), Some(Err("disk full".to_string())));
    assert_eq!(ch.log_status(), None);
    ch.set_filtered_log(None);
    assert_eq!(ch.filtered_log_status(), None);
}

#[test]
fn clear_empties_one_buffer_only() {
    let mut ch = ChannelManager::new("alice", 100, accept_all_filter());
    ch.set_state(ChannelConnectionState::Joined);
    ch.ingest(mk_msg("bob", "Bob", "x"));
    ch.ingest(mk_msg("bob", "Bob", "y"));
    ch.clear(true);
    assert_eq!(ch.get_msg_count(true), 0);
    assert_eq!(ch.get_msg_count(false), 2);
    assert_eq!(ch.state(), ChannelConnectionState::Joined);
    ch.clear(false);
    assert_eq!(ch.get_msg_count(false), 0);
}

#[test]
fn snapshot_slices_are_in_arrival_order() {
    let mut ch = ChannelManager::new("alice", 100, accept_all_filter());
    for i in 0..4 {
        ch.ingest(mk_msg("bob", "Bob", &format!("m{}", i)));
    }
    let slice = ch.get_n_msg(1..3, false);
    let texts: Vec<&str> = slice.iter().map(|m| m.payload()).collect();
    assert_eq!(texts, vec!["m1", "m2"]);
}

#[test]
fn alert_outcome_follows_the_subscription() {
    let mut ch = ChannelManager::new("alice", 100, accept_all_filter());
    let o = ch.ingest(mk_msg("bob", "Bob", "x"));
    assert!(!o.alert);
    ch.set_alert(true);
    assert!(ch.alert());
    let o = ch.ingest(mk_msg("bob", "Bob", "y"));
    assert!(o.alert);
}

#[test]
fn failed_filter_edit_keeps_routing_intact() {
    let mut ch = ChannelManager::new("alice", 100, author_filter("^mod1$"));
    let bad = FilterState { inc_author: "(".to_string(), ..FilterState::default() };
    let err = ch.set_filter(&bad).unwrap_err();
    assert_eq!(err.pattern, "(");
    // The previous filter still routes.
    let o = ch.ingest(mk_msg("mod1", "Mod1", "hello"));
    assert!(o.matched);
}

#[test]
fn connect_and_disconnect_toggle_the_flag() {
    let mut ch = ChannelManager::new("ALICE", 10, accept_all_filter());
    assert!(!ch.is_connected());
    let join = ch.connect();
    assert_eq!(join, "alice");
    assert!(ch.is_connected());
    let part = ch.disconnect();
    assert_eq!(part, "alice");
    assert!(!ch.is_connected());
}

#[test]
fn outbound_send_targets_the_hash_channel() {
    let ch = ChannelManager::new("alice", 10, accept_all_filter());
    let s = ch.send_msg("hi there".to_string());
    assert_eq!(s.target, "#alice");
    assert_eq!(s.text, "hi there");
}

#[test]
fn transcript_line_is_exact() {
    let m = mk_msg("bob", "Bob", "hello");
    let line = msg_to_str("2024-01-02 03:04:05", &m);
    assert_eq!(line, "2024-01-02 03:04:05 Bob(bob): hello\n");
}

#[test]
fn local_transcript_line_carries_the_message() {
    let m = TwitchMsg::from_frame(InboundFrame {
        tags: vec![
            TagPair { key: "display-name".to_string(), value: Some("Bob".to_string()) },
            TagPair { key: "id".to_string(), value: Some("i".to_string()) },
            TagPair { key: "tmi-sent-ts".to_string(), value: Some("1700000000000".to_string()) },
        ],
        prefix_user: Some("bob".to_string()),
        command: FrameCommand::Privmsg("#alice".to_string(), "hello".to_string()),
    })
    .unwrap();
    let line = transcript_line_local(&m);
    assert!(line.ends_with(" Bob(bob): hello\n"), "unexpected line: {:?}", line);
}

#[test]
fn whole_channel_lists_save_and_restore() {
    let a = ChannelManager::new("a", 10, accept_all_filter());
    let b = ChannelManager::new("b", 10, author_filter("^x$"));
    let saved = save_channels(&vec![a, b]);
    assert_eq!(saved.len(), 2);
    let restored = restore_channels(&saved, 10).unwrap();
    assert_eq!(restored.len(), 2);
    assert_eq!(restored[0].channel_name(), "a");
    assert_eq!(restored[1].channel_name(), "b");
    // One bad pattern anywhere aborts the whole restore.
    let mut saved = saved;
    saved[1].filter.inc_msg = "(".to_string();
    assert!(restore_channels(&saved, 10).is_err());
}

#[test]
fn debounce_drops_requests_inside_the_window() {
    // Two triggers one second apart: one play. A third eleven seconds
    // after the first play: it plays again.
    let mut d = AlertDebouncer::new();
    assert!(d.request(1_000));
    assert!(!d.request(2_000));
    assert!(d.request(12_000));
    assert!(!d.request(12_001));
}

#[test]
fn debounce_boundary_is_the_full_window() {
    let mut d = AlertDebouncer::new();
    assert!(d.request(0));
    assert!(!d.request(9_999));
    let mut d = AlertDebouncer::new();
    assert!(d.request(0));
    assert!(d.request(10_000));
}

#[test]
fn save_and_restore_reproduce_a_channel() {
    let mut ch = ChannelManager::new("Alice", 50, author_filter("^mod1$"));
    ch.connect();
    ch.set_log(Some("all.log".to_string()));
    ch.set_alert(true);
    ch.ingest(mk_msg("mod1", "Mod1", "hello"));

    let saved = save_channel(&ch);
    assert_eq!(saved.name, "alice");
    assert!(saved.enabled);
    assert_eq!(saved.filter.inc_author, "^mod1$");
    assert_eq!(saved.log_status, Some("all.log".to_string()));
    assert_eq!(saved.filtered_log_status, None);
    assert!(saved.alert);

    // A fresh channel state: history is not resurrected.
    let mut ch2 = restore_channel(&saved, 50).unwrap();
    assert_eq!(ch2.channel_name(), "alice");
    assert_eq!(ch2.get_msg_count(false), 0);
    assert_eq!(ch2.get_msg_count(true), 0);
    assert!(!ch2.is_connected());
    assert!(ch2.alert());
    assert_eq!(ch2.log_path(), Some("all.log".to_string()));
    let o = ch2.ingest(mk_msg("mod1", "Mod1", "again"));
    assert!(o.matched);
}

#[test]
fn restore_fails_on_a_bad_saved_pattern() {
    let mut ch = ChannelManager::new("alice", 50, accept_all_filter());
    ch.set_filter(&FilterState { inc_msg: "ok".to_string(), ..FilterState::default() }).unwrap();
    let mut saved = save_channel(&ch);
    saved.filter.exc_msg = "(".to_string();
    let err = match restore_channel(&saved, 50) {
        Err(e) => e,
        Ok(_) => panic!("a bad pattern must abort the restore"),
    };
    assert_eq!(err.pattern, "(");
}

#[test]
fn failed_sink_is_not_saved_as_active() {
    let mut ch = ChannelManager::new("alice", 50, accept_all_filter());
    ch.set_log(Some("all.log".to_string()));
    ch.record_log_error("boom".to_string());
    let saved = save_channel(&ch);
    assert_eq!(saved.log_status, None);
}
