use chat_watcher::filter::{Filter, FilterState, BROADCASTER_BADGE_NAME, VIP_BADGE_NAME};
use chat_watcher::message::{FrameCommand, InboundFrame, TagPair, TwitchMsg};
use chat_watcher::pattern::Pattern;

fn msg_with(login: &str, payload: &str, badges: Option<&str>) -> TwitchMsg {
    let mut tags = vec![
        TagPair { key: "display-name".to_string(), value: Some(login.to_uppercase()) },
        TagPair { key: "id".to_string(), value: Some("id-1".to_string()) },
    ];
    if let Some(b) = badges {
        tags.push(TagPair { key: "badges".to_string(), value: Some(b.to_string()) });
    }
    TwitchMsg::from_frame(InboundFrame {
        tags,
        prefix_user: Some(login.to_string()),
        command: FrameCommand::Privmsg("#chan".to_string(), payload.to_string()),
    })
    .unwrap()
}

fn state(inc_msg: &str, inc_author: &str, exc_msg: &str, exc_author: &str) -> FilterState {
    FilterState {
        inc_msg: inc_msg.to_string(),
        inc_author: inc_author.to_string(),
        exc_msg: exc_msg.to_string(),
        exc_author: exc_author.to_string(),
        ..FilterState::default()
    }
}

#[test]
fn exclusion_wins_over_inclusion() {
    // The payload matches both an exclusive and an inclusive message
    // pattern: exclusion takes precedence.
    let f = Filter::compile(&state("hello", "", "hello", "")).unwrap();
    assert!(!f.test(&msg_with("bob", "hello world", None)));
}

#[test]
fn exclusion_wins_over_badges() {
    let mut st = state("", "", "hello", "");
    st.moderator = true;
    let f = Filter::compile(&st).unwrap();
    assert!(!f.test(&msg_with("bob", "hello", Some("moderator/1"))));
    assert!(f.test(&msg_with("bob", "quiet", Some("moderator/1"))));
}

#[test]
fn exclusive_author_wins_over_inclusive_message() {
    let f = Filter::compile(&state("hello", "", "", "^bob$")).unwrap();
    assert!(!f.test(&msg_with("bob", "hello", None)));
    assert!(f.test(&msg_with("carol", "hello", None)));
}

#[test]
fn evaluation_order_matches_the_specification() {
    // No pattern matches: rejected.
    let f = Filter::compile(&state("xyzzy", "", "", "")).unwrap();
    assert!(!f.test(&msg_with("bob", "hello", None)));
    // Inclusive message pattern matches.
    assert!(f.test(&msg_with("bob", "say xyzzy now", None)));
    // Inclusive author pattern matches.
    let f = Filter::compile(&state("", "^mod1$", "", "")).unwrap();
    assert!(f.test(&msg_with("mod1", "anything", None)));
    assert!(!f.test(&msg_with("mod10", "anything", None)));
}

#[test]
fn badge_names_accept_a_message() {
    let mut st = state("", "", "", "");
    st.vip = true;
    let f = Filter::compile(&st).unwrap();
    assert!(f.test(&msg_with("bob", "hi", Some("vip/1"))));
    assert!(!f.test(&msg_with("bob", "hi", Some("subscriber/1"))));
    assert!(!f.test(&msg_with("bob", "hi", None)));
}

#[test]
fn blank_pattern_lines_are_skipped() {
    let f = Filter::compile(&state("  \n\nfoo\n   bar \n", "", "", "")).unwrap();
    assert!(f.test(&msg_with("bob", "a foo b", None)));
    assert!(f.test(&msg_with("bob", "bar", None)));
    assert!(!f.test(&msg_with("bob", "baz", None)));
}

#[test]
fn first_invalid_pattern_aborts_compilation() {
    let err = Filter::compile(&state("ok.*\n(", "", "", "")).unwrap_err();
    assert_eq!(err.pattern, "(");
    assert!(!err.message.is_empty());
    // The group order decides which bad line is reported first.
    let err = Filter::compile(&state("", "[", "(", "")).unwrap_err();
    assert_eq!(err.pattern, "[");
}

#[test]
fn filter_state_round_trip_preserves_outcomes() {
    let mut st = state("foo\nbar", "^mod1$", "spam", "^troll$");
    st.broadcaster = true;
    st.vip = true;
    let f = Filter::compile(&st).unwrap();
    let st2 = FilterState::from_filter(&f);
    let f2 = Filter::compile(&st2).unwrap();

    let probes = [
        msg_with("bob", "foo", None),
        msg_with("troll", "foo", None),
        msg_with("mod1", "quiet", None),
        msg_with("bob", "spam and foo", None),
        msg_with("bob", "nothing", Some("broadcaster/1")),
        msg_with("bob", "nothing", Some("vip/1,subscriber/2")),
        msg_with("bob", "nothing", Some("moderator/1")),
    ];
    for m in probes.iter() {
        assert_eq!(f.test(m), f2.test(m));
    }
    // The textual representation is reproduced exactly for clean lines.
    assert_eq!(st2.inc_msg, "foo\nbar");
    assert_eq!(st2.inc_author, "^mod1$");
    assert_eq!(st2.exc_msg, "spam");
    assert_eq!(st2.exc_author, "^troll$");
    assert!(st2.broadcaster && st2.vip && !st2.moderator && !st2.partner);
}

#[test]
fn pattern_mutations_extend_one_group() {
    let mut f = Filter::compile(&state("", "", "", "")).unwrap();
    f.add_author_pat(Pattern::compile("^mod1$").unwrap());
    assert!(f.test(&msg_with("mod1", "hi", None)));
    assert!(!f.test(&msg_with("bob", "hi", None)));
    f.add_exc_author_pat(Pattern::compile("^mod1$").unwrap());
    assert!(!f.test(&msg_with("mod1", "hi", None)));
    f.set_badge_pat(vec![BROADCASTER_BADGE_NAME.to_string(), VIP_BADGE_NAME.to_string()]);
    assert!(f.test(&msg_with("bob", "hi", Some("vip/1"))));
}

#[test]
fn pattern_compile_reports_validity() {
    assert!(Pattern::compile("a+b").is_ok());
    assert!(Pattern::compile("(").is_err());
    let p = Pattern::compile("^x$").unwrap();
    assert_eq!(p.as_str(), "^x$");
    assert!(p.is_match("x"));
    assert!(!p.is_match("xy"));
}

#[test]
fn cloned_filter_decides_identically() {
    let mut st = state("foo", "^mod1$", "spam", "");
    st.moderator = true;
    let f = Filter::compile(&st).unwrap();
    let g = f.clone();
    let probes = [
        msg_with("bob", "foo", None),
        msg_with("bob", "spam foo", None),
        msg_with("mod1", "quiet", None),
        msg_with("bob", "quiet", Some("moderator/1")),
    ];
    for m in probes.iter() {
        assert_eq!(f.test(m), g.test(m));
    }
    assert!(g.test(&msg_with("bob", "some foo", None)));
}

#[test]
fn empty_filter_accepts_nothing() {
    let f = Filter::default();
    assert!(!f.test(&msg_with("bob", "hi", Some("broadcaster/1"))));
}
