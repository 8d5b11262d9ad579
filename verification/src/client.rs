//! The protocol client's decision core: one registry of joined channels,
//! at most one pending outbound text awaiting its self-state echo, and the
//! confirmed username. `handle_event` maps each event of the connection
//! owner's loop to the next state and the actions to perform; the caller
//! owns the wire, performs the actions, and feeds the events back in.

use vstd::prelude::*;
use vstd::seq_lib::*;

use crate::message::{
    spec_msg_of_frame, spec_strip_marker, FrameCommand, FrameCommandView, FrameView, InboundFrame,
    MsgView, TagPair, TagView, TwitchMsg,
};
use crate::text::{find_str, push_char, spec_dec, str_eq, u64_to_dec, vec_contains_str};
use vstd::string::StringExecFns;

verus! {

/// One event of the connection owner's loop.
pub enum Event {
    /// The consumer asks to send `text` to `target`.
    SendRequest { target: String, text: String },
    /// The consumer asks to join a channel, named without the `#`.
    JoinRequest { channel: String },
    /// The consumer asks to part a channel, named without the `#`.
    PartRequest { channel: String },
    /// One frame arrived on the connection.
    Inbound(InboundFrame),
    /// Reading the connection failed.
    ReadError,
}

/// The mathematical value of an event.
pub enum EventView {
    SendRequest { target: Seq<char>, text: Seq<char> },
    JoinRequest { channel: Seq<char> },
    PartRequest { channel: Seq<char> },
    Inbound(FrameView),
    ReadError,
}

impl DeepView for Event {
    type V = EventView;

    open spec fn deep_view(&self) -> EventView {
        match self {
            Event::SendRequest { target, text } => EventView::SendRequest {
                target: target@,
                text: text@,
            },
            Event::JoinRequest { channel } => EventView::JoinRequest { channel: channel@ },
            Event::PartRequest { channel } => EventView::PartRequest { channel: channel@ },
            Event::Inbound(f) => EventView::Inbound(f.deep_view()),
            Event::ReadError => EventView::ReadError,
        }
    }
}

/// One action the connection owner must perform.
pub enum Action {
    /// Transmit a chat message.
    SendPrivmsg { target: String, text: String },
    /// Send the protocol JOIN frame.
    SendJoin { channel: String },
    /// Send the protocol PART frame.
    SendPart { channel: String },
    /// Replace the connection and process the actions that follow.
    Reconnect,
    /// Mark the channel's state as joined.
    SetJoined { channel: String },
    /// Reset the channel's state to uninitialized.
    ResetChannel { channel: String },
    /// Deliver a message to the channel's ingest funnel.
    Dispatch { channel: String, msg: TwitchMsg },
    /// Credentials were rejected mid-session: stop, do not retry.
    FatalAuth,
}

/// The mathematical value of an action.
pub enum ActionView {
    SendPrivmsg { target: Seq<char>, text: Seq<char> },
    SendJoin { channel: Seq<char> },
    SendPart { channel: Seq<char> },
    Reconnect,
    SetJoined { channel: Seq<char> },
    ResetChannel { channel: Seq<char> },
    Dispatch { channel: Seq<char>, msg: MsgView },
    FatalAuth,
}

impl DeepView for Action {
    type V = ActionView;

    open spec fn deep_view(&self) -> ActionView {
        match self {
            Action::SendPrivmsg { target, text } => ActionView::SendPrivmsg {
                target: target@,
                text: text@,
            },
            Action::SendJoin { channel } => ActionView::SendJoin { channel: channel@ },
            Action::SendPart { channel } => ActionView::SendPart { channel: channel@ },
            Action::Reconnect => ActionView::Reconnect,
            Action::SetJoined { channel } => ActionView::SetJoined { channel: channel@ },
            Action::ResetChannel { channel } => ActionView::ResetChannel { channel: channel@ },
            Action::Dispatch { channel, msg } => ActionView::Dispatch {
                channel: channel@,
                msg: msg@,
            },
            Action::FatalAuth => ActionView::FatalAuth,
        }
    }
}

/// The mathematical value of the client core.
pub struct CoreView {
    pub registry: Seq<Seq<char>>,
    pub pending: Option<Seq<char>>,
    pub username: Seq<char>,
}

/// The channel name as the protocol writes it: the name behind a `#`.
pub open spec fn spec_hash_name(name: Seq<char>) -> Seq<char> {
    seq!['#'] + name
}

/// A message with trailing echo-marker characters stripped.
pub open spec fn spec_sanitize(m: MsgView) -> MsgView {
    MsgView { payload: spec_strip_marker(m.payload), ..m }
}

/// The frame synthesized for a pending outbound text when its self-state
/// echo arrives: the echo's tags plus a timestamp of `now`, the confirmed
/// username as sender, and the pending text as payload.
pub open spec fn spec_synth_frame(
    tags: Seq<TagView>,
    username: Seq<char>,
    channel: Seq<char>,
    text: Seq<char>,
    now: u64,
) -> FrameView {
    FrameView {
        tags: tags.push(TagView { key: "tmi-sent-ts"@, value: Some(spec_dec(now as nat)) }),
        prefix_user: Some(username),
        command: FrameCommandView::Privmsg(channel, text),
    }
}

/// The dispatch for one parsed message: delivered, sanitized, if and only
/// if its channel is registered.
pub open spec fn spec_dispatch_actions(
    channel: Seq<char>,
    registry: Seq<Seq<char>>,
    parsed: Option<MsgView>,
) -> Seq<ActionView> {
    match parsed {
        Some(m) => {
            if registry.contains(channel) {
                seq![ActionView::Dispatch { channel, msg: spec_sanitize(m) }]
            } else {
                Seq::<ActionView>::empty()
            }
        },
        None => Seq::<ActionView>::empty(),
    }
}

/// The next state and the actions for one inbound frame: join confirmations
/// mark the channel joined, chat frames are parsed and dispatched, the
/// authentication-failure notice is fatal, a self-state echo resolves the
/// pending outbound text at most once, everything else is ignored.
pub open spec fn spec_handle_frame(s: CoreView, f: FrameView, now: u64) -> (CoreView, Seq<
    ActionView,
>) {
    match f.command {
        FrameCommandView::Join(chan) => {
            if s.registry.contains(chan) {
                (
                    s,
                    seq![ActionView::SetJoined { channel: chan }] + spec_dispatch_actions(
                        chan,
                        s.registry,
                        spec_msg_of_frame(f),
                    ),
                )
            } else {
                (s, Seq::<ActionView>::empty())
            }
        },
        FrameCommandView::Privmsg(target, _payload) => (
            s,
            spec_dispatch_actions(target, s.registry, spec_msg_of_frame(f)),
        ),
        FrameCommandView::Notice(_target, content) => {
            if content == "Login authentication failed"@ {
                (s, seq![ActionView::FatalAuth])
            } else {
                (s, Seq::<ActionView>::empty())
            }
        },
        FrameCommandView::Raw(cmd, params) => {
            if cmd == "USERSTATE"@ && s.pending is Some {
                let s2 = CoreView { pending: None, ..s };
                if params.len() >= 1 {
                    let synth = spec_synth_frame(f.tags, s.username, params[0], s.pending->0, now);
                    (s2, spec_dispatch_actions(params[0], s.registry, spec_msg_of_frame(synth)))
                } else {
                    (s2, Seq::<ActionView>::empty())
                }
            } else {
                (s, Seq::<ActionView>::empty())
            }
        },
        _ => (s, Seq::<ActionView>::empty()),
    }
}

/// One rejoin action for every registered channel, in registry order.
pub open spec fn spec_rejoin_actions(registry: Seq<Seq<char>>) -> Seq<ActionView>
    decreases registry.len(),
{
    if registry.len() == 0 {
        Seq::<ActionView>::empty()
    } else {
        seq![ActionView::SendJoin { channel: registry[0] }] + spec_rejoin_actions(
            registry.drop_first(),
        )
    }
}

/// The rejoin actions are one `SendJoin` per registered channel, in order.
pub proof fn lemma_rejoin_actions_index(registry: Seq<Seq<char>>)
    ensures
        spec_rejoin_actions(registry).len() == registry.len(),
        forall|i: int|
            0 <= i < registry.len() ==> spec_rejoin_actions(registry)[i] == (ActionView::SendJoin {
                channel: registry[i],
            }),
    decreases registry.len(),
{
    if registry.len() > 0 {
        lemma_rejoin_actions_index(registry.drop_first());
    }
}

/// The next state and the actions for one event: sends transmit at once and
/// leave one pending echo text; joins and parts update the registry and
/// send their frames; a read error reconnects and rejoins every registered
/// channel; inbound frames go to `spec_handle_frame`.
pub open spec fn spec_handle(s: CoreView, e: EventView, now: u64) -> (CoreView, Seq<ActionView>) {
    match e {
        EventView::SendRequest { target, text } => (
            CoreView { pending: Some(text), ..s },
            seq![ActionView::SendPrivmsg { target, text }],
        ),
        EventView::JoinRequest { channel } => {
            let full = spec_hash_name(channel);
            let reg = if s.registry.contains(full) {
                s.registry
            } else {
                s.registry.push(full)
            };
            (CoreView { registry: reg, ..s }, seq![ActionView::SendJoin { channel: full }])
        },
        EventView::PartRequest { channel } => {
            let full = spec_hash_name(channel);
            let acts = if s.registry.contains(full) {
                seq![
                    ActionView::SendPart { channel: full },
                    ActionView::ResetChannel { channel: full },
                ]
            } else {
                seq![ActionView::SendPart { channel: full }]
            };
            (CoreView { registry: s.registry.remove_value(full), ..s }, acts)
        },
        EventView::ReadError => (s, seq![ActionView::Reconnect] + spec_rejoin_actions(s.registry)),
        EventView::Inbound(f) => spec_handle_frame(s, f, now),
    }
}

/// The protocol client's state between events.
pub struct ClientCore {
    registry: Vec<String>,
    sent_msg: Option<String>,
    username: String,
}

impl View for ClientCore {
    type V = CoreView;

    closed spec fn view(&self) -> CoreView {
        CoreView {
            registry: self.registry.deep_view(),
            pending: match self.sent_msg {
                Some(t) => Some(t@),
                None => None,
            },
            username: self.username@,
        }
    }
}

impl ClientCore {
    /// A fresh core around the username the welcome response confirmed:
    /// nothing joined, nothing pending.
    pub fn new(username: String) -> (r: ClientCore)
        ensures
            r@.registry.len() == 0,
            r@.pending is None,
            r@.username == username@,
            r@.registry.no_duplicates(),
    {
        let r = ClientCore { registry: Vec::new(), sent_msg: None, username };
        proof {
            assert(r@.registry =~= Seq::<Seq<char>>::empty());
        }
        r
    }

    /// Processes one event: updates the state and returns, in order, the
    /// actions the connection owner must perform.
    pub fn handle_event(&mut self, e: Event, now_ms: u64) -> (acts: Vec<Action>)
        requires
            old(self)@.registry.no_duplicates(),
        ensures
            final (self)@ == spec_handle(old(self)@, e.deep_view(), now_ms).0,
            acts.deep_view() == spec_handle(old(self)@, e.deep_view(), now_ms).1,
            final (self)@.registry.no_duplicates(),
    {
        let ghost s0 = self@;
        let ghost ev = e.deep_view();
        match e {
            Event::SendRequest { target, text } => {
                let mut acts: Vec<Action> = Vec::new();
                acts.push(Action::SendPrivmsg { target, text: text.clone() });
                self.sent_msg = Some(text);
                proof {
                    assert(acts.deep_view() =~~= spec_handle(s0, ev, now_ms).1);
                }
                acts
            },
            Event::JoinRequest { channel } => {
                let full = hash_name(channel.as_str());
                if !vec_contains_str(&self.registry, full.as_str()) {
                    let ghost before = self.registry.deep_view();
                    self.registry.push(full.clone());
                    proof {
                        assert(self.registry.deep_view() =~~= before.push(full@));
                        lemma_push_fresh_keeps_no_duplicates(before, full@);
                    }
                }
                let mut acts: Vec<Action> = Vec::new();
                acts.push(Action::SendJoin { channel: full });
                proof {
                    assert(acts.deep_view() =~~= spec_handle(s0, ev, now_ms).1);
                }
                acts
            },
            Event::PartRequest { channel } => {
                let full = hash_name(channel.as_str());
                let mut acts: Vec<Action> = Vec::new();
                acts.push(Action::SendPart { channel: full.clone() });
                let ghost reg = self.registry.deep_view();
                match find_str(&self.registry, full.as_str()) {
                    Some(i) => {
                        let ghost before = self.registry.deep_view();
                        self.registry.remove(i);
                        proof {
                            assert(self.registry.deep_view() =~~= before.remove(i as int));
                            lemma_remove_first_is_remove_value(before, full@, i as int);
                            before.remove_ensures(i as int);
                            lemma_remove_keeps_no_duplicates(before, i as int);
                        }
                        acts.push(Action::ResetChannel { channel: full });
                    },
                    None => {
                        proof {
                            assert(!reg.contains(full@));
                            reg.index_of_first_ensures(full@);
                            assert(reg.remove_value(full@) == reg);
                        }
                    },
                }
                proof {
                    assert(acts.deep_view() =~~= spec_handle(s0, ev, now_ms).1);
                }
                acts
            },
            Event::ReadError => {
                let mut acts: Vec<Action> = Vec::new();
                acts.push(Action::Reconnect);
                let ghost reg = self.registry.deep_view();
                let mut i: usize = 0;
                proof {
                    assert(reg.skip(0) =~~= reg);
                    assert(acts.deep_view() =~~= seq![ActionView::Reconnect]);
                    assert(acts.deep_view() + spec_rejoin_actions(reg.skip(0))
                        =~~= seq![ActionView::Reconnect] + spec_rejoin_actions(reg));
                }
                while i < self.registry.len()
                    invariant
                        i <= self.registry.len(),
                        reg == self.registry.deep_view(),
                        acts.deep_view() + spec_rejoin_actions(reg.skip(i as int))
                            == seq![ActionView::Reconnect] + spec_rejoin_actions(reg),
                    decreases self.registry.len() - i,
                {
                    let ghost before = acts.deep_view();
                    acts.push(Action::SendJoin { channel: self.registry[i].clone() });
                    proof {
                        assert(reg[i as int] == self.registry@[i as int]@);
                        assert(reg.skip(i as int).drop_first() =~~= reg.skip(i as int + 1));
                        assert(reg.skip(i as int)[0] == reg[i as int]);
                        assert(acts.deep_view() =~~= before.push(
                            ActionView::SendJoin { channel: reg[i as int] },
                        ));
                        assert(before.push(ActionView::SendJoin { channel: reg[i as int] })
                            + spec_rejoin_actions(reg.skip(i as int + 1)) =~~= before + (seq![
                            ActionView::SendJoin { channel: reg[i as int] },
                        ] + spec_rejoin_actions(reg.skip(i as int + 1))));
                    }
                    i = i + 1;
                }
                proof {
                    assert(reg.skip(reg.len() as int) =~~= Seq::<Seq<char>>::empty());
                    assert(acts.deep_view() + Seq::<ActionView>::empty() =~~= acts.deep_view());
                    assert(acts.deep_view() =~~= spec_handle(s0, ev, now_ms).1);
                }
                acts
            },
            Event::Inbound(frame) => self.handle_frame(frame, now_ms, Ghost(s0)),
        }
    }

    fn handle_frame(&mut self, frame: InboundFrame, now_ms: u64, s0: Ghost<CoreView>) -> (acts:
        Vec<Action>)
        requires
            old(self)@.registry.no_duplicates(),
            s0@ == old(self)@,
        ensures
            final (self)@ == spec_handle_frame(s0@, frame.deep_view(), now_ms).0,
            acts.deep_view() == spec_handle_frame(s0@, frame.deep_view(), now_ms).1,
            final (self)@.registry.no_duplicates(),
    {
        let ghost fv = frame.deep_view();
        let mut acts: Vec<Action> = Vec::new();
        match &frame.command {
            FrameCommand::Join(chan) => {
                if vec_contains_str(&self.registry, chan.as_str()) {
                    let chan_c = chan.clone();
                    acts.push(Action::SetJoined { channel: chan_c.clone() });
                    let ghost before = acts.deep_view();
                    match TwitchMsg::from_frame(frame) {
                        Some(m) => {
                            acts.push(Action::Dispatch { channel: chan_c, msg: m.sanitized() });
                            proof {
                                assert(acts.deep_view() =~~= spec_handle_frame(
                                    s0@,
                                    fv,
                                    now_ms,
                                ).1);
                            }
                        },
                        None => {
                            proof {
                                assert(acts.deep_view() =~~= spec_handle_frame(
                                    s0@,
                                    fv,
                                    now_ms,
                                ).1);
                            }
                        },
                    }
                } else {
                    proof {
                        assert(acts.deep_view() =~~= spec_handle_frame(s0@, fv, now_ms).1);
                    }
                }
                acts
            },
            FrameCommand::Privmsg(target, _payload) => {
                let registered = vec_contains_str(&self.registry, target.as_str());
                let target_c = target.clone();
                match TwitchMsg::from_frame(frame) {
                    Some(m) => {
                        if registered {
                            acts.push(Action::Dispatch { channel: target_c, msg: m.sanitized() });
                        }
                    },
                    None => {},
                }
                proof {
                    assert(acts.deep_view() =~~= spec_handle_frame(s0@, fv, now_ms).1);
                }
                acts
            },
            FrameCommand::Notice(_target, content) => {
                if str_eq(content.as_str(), "Login authentication failed") {
                    acts.push(Action::FatalAuth);
                }
                proof {
                    assert(acts.deep_view() =~~= spec_handle_frame(s0@, fv, now_ms).1);
                }
                acts
            },
            FrameCommand::Raw(cmd, params) => {
                let is_userstate = str_eq(cmd.as_str(), "USERSTATE");
                if is_userstate && self.sent_msg.is_some() {
                    let text = match &self.sent_msg {
                        Some(t) => t.clone(),
                        None => String::new(),
                    };
                    self.sent_msg = None;
                    if params.len() >= 1 {
                        let chan = params[0].clone();
                        let InboundFrame { tags, prefix_user: _, command: _ } = frame;
                        let mut synth_tags = tags;
                        let ghost tags_before = synth_tags.deep_view();
                        synth_tags.push(
                            TagPair { key: "tmi-sent-ts".to_owned(), value: Some(u64_to_dec(now_ms)) },
                        );
                        proof {
                            assert(synth_tags.deep_view() =~~= tags_before.push(
                                TagView { key: "tmi-sent-ts"@, value: Some(spec_dec(now_ms as nat)) },
                            ));
                        }
                        let synth = InboundFrame {
                            tags: synth_tags,
                            prefix_user: Some(self.username.clone()),
                            command: FrameCommand::Privmsg(chan.clone(), text),
                        };
                        proof {
                            assert(synth.deep_view() == spec_synth_frame(
                                fv.tags,
                                s0@.username,
                                fv.command->Raw_1[0],
                                s0@.pending->0,
                                now_ms,
                            ));
                        }
                        let registered = vec_contains_str(&self.registry, chan.as_str());
                        match TwitchMsg::from_frame(synth) {
                            Some(m) => {
                                if registered {
                                    acts.push(Action::Dispatch { channel: chan, msg: m.sanitized() });
                                }
                            },
                            None => {},
                        }
                    }
                }
                proof {
                    assert(acts.deep_view() =~~= spec_handle_frame(s0@, fv, now_ms).1);
                }
                acts
            },
            FrameCommand::Response(_code, _params) => {
                proof {
                    assert(acts.deep_view() =~~= spec_handle_frame(s0@, fv, now_ms).1);
                }
                acts
            },
            FrameCommand::Other => {
                proof {
                    assert(acts.deep_view() =~~= spec_handle_frame(s0@, fv, now_ms).1);
                }
                acts
            },
        }
    }
}

/// Why client construction failed: the server sent nothing, or its first
/// response was not the welcome acknowledgment.
#[derive(Clone, Copy, PartialEq, Eq, Structural, Debug)]
pub enum AuthError {
    NoResponse,
    NotWelcome,
}

/// The confirmed username the welcome acknowledgment carries: the first
/// parameter of a numeric response with code 1.
pub open spec fn spec_welcome_user(f: FrameView) -> Option<Seq<char>> {
    match f.command {
        FrameCommandView::Response(code, params) => {
            if code == 1 && params.len() >= 1 {
                Some(params[0])
            } else {
                None
            }
        },
        _ => None,
    }
}

/// Checks the first server response of a fresh connection: construction
/// succeeds, with the confirmed username, exactly when that response is a
/// welcome acknowledgment; otherwise it fails without retry.
pub fn check_welcome(first: &Option<InboundFrame>) -> (r: Result<String, AuthError>)
    ensures
        r is Ok <==> (first is Some && spec_welcome_user(first->0.deep_view()) is Some),
        r is Ok ==> r->Ok_0@ == spec_welcome_user(first->0.deep_view())->0,
        r == Err::<String, AuthError>(AuthError::NoResponse) <==> first is None,
{
    match first {
        None => Err(AuthError::NoResponse),
        Some(f) => match &f.command {
            FrameCommand::Response(code, params) => {
                if *code == 1 && params.len() >= 1 {
                    Ok(params[0].clone())
                } else {
                    Err(AuthError::NotWelcome)
                }
            },
            _ => Err(AuthError::NotWelcome),
        },
    }
}

/// Part then join on one channel: the part deregisters it (and only it) and
/// resets its state; the rejoin registers it exactly once more. No history
/// moves with this: buffers belong to the channel state, and a fresh
/// `ChannelManager` starts with empty buffers.
pub proof fn lemma_part_then_join(s: CoreView, channel: Seq<char>, now: u64)
    requires
        s.registry.no_duplicates(),
    ensures
        ({
            let full = spec_hash_name(channel);
            let after_part = spec_handle(s, EventView::PartRequest { channel }, now).0;
            let after_join = spec_handle(after_part, EventView::JoinRequest { channel }, now).0;
            &&& !after_part.registry.contains(full)
            &&& after_join.registry == after_part.registry.push(full)
            &&& after_join.registry.contains(full)
        }),
{
    let full = spec_hash_name(channel);
    s.registry.index_of_first_ensures(full);
    if s.registry.contains(full) {
        let fi = s.registry.index_of_first(full)->0;
        let r = s.registry.remove(fi);
        s.registry.remove_ensures(fi);
        assert forall|j: int| 0 <= j < r.len() implies r[j] != full by {
            if j < fi {
                assert(r[j] == s.registry[j]);
            } else {
                assert(r[j] == s.registry[j + 1]);
            }
        }
        assert(!r.contains(full));
    }
    let after_part = spec_handle(s, EventView::PartRequest { channel }, now).0;
    let after_join = spec_handle(after_part, EventView::JoinRequest { channel }, now).0;
    assert(after_join.registry == after_part.registry.push(full));
    assert(after_join.registry[after_part.registry.len() as int] == full);
}

/// Reconnect: a read error reconnects and rejoins every registered channel,
/// in registry order, leaving the registry itself unchanged — so a chat
/// frame for a registered channel arriving after the reconnect is still
/// dispatched to that channel.
pub proof fn lemma_reconnect_rejoins(s: CoreView, f: FrameView, now: u64)
    requires
        f.command is Privmsg,
        s.registry.contains(f.command->Privmsg_0),
        spec_msg_of_frame(f) is Some,
    ensures
        ({
            let s2 = spec_handle(s, EventView::ReadError, now).0;
            let acts = spec_handle(s, EventView::ReadError, now).1;
            &&& s2 == s
            &&& acts.len() == 1 + s.registry.len()
            &&& acts[0] == ActionView::Reconnect
            &&& (forall|i: int|
                0 <= i < s.registry.len() ==> acts[i + 1] == (ActionView::SendJoin {
                    channel: s.registry[i],
                }))
            &&& spec_handle(s2, EventView::Inbound(f), now).1 == seq![
                (ActionView::Dispatch {
                    channel: f.command->Privmsg_0,
                    msg: spec_sanitize(spec_msg_of_frame(f)->0),
                }),
            ]
        }),
{
    lemma_rejoin_actions_index(s.registry);
}

/// The channel name behind a `#`, as the protocol writes it.
fn hash_name(name: &str) -> (r: String)
    ensures
        r@ == spec_hash_name(name@),
{
    let mut r = String::new();
    push_char(&mut r, '#');
    r.append(name);
    proof {
        assert(Seq::<char>::empty() + seq!['#'] =~= seq!['#']);
    }
    r
}

proof fn lemma_push_fresh_keeps_no_duplicates(s: Seq<Seq<char>>, x: Seq<char>)
    requires
        s.no_duplicates(),
        !s.contains(x),
    ensures
        s.push(x).no_duplicates(),
{
    let p = s.push(x);
    assert forall|i: int, j: int| 0 <= i < p.len() && 0 <= j < p.len() && i != j implies p[i]
        != p[j] by {
        if i < s.len() && j < s.len() {
        } else if i == s.len() {
            assert(p[j] == s[j]);
        } else {
            assert(p[i] == s[i]);
        }
    }
}

proof fn lemma_remove_keeps_no_duplicates(s: Seq<Seq<char>>, i: int)
    requires
        s.no_duplicates(),
        0 <= i < s.len(),
    ensures
        s.remove(i).no_duplicates(),
{
    s.remove_ensures(i);
    let r = s.remove(i);
    assert forall|a: int, b: int| 0 <= a < r.len() && 0 <= b < r.len() && a != b implies r[a]
        != r[b] by {
        let a0 = if a < i {
            a
        } else {
            a + 1
        };
        let b0 = if b < i {
            b
        } else {
            b + 1
        };
        assert(r[a] == s[a0]);
        assert(r[b] == s[b0]);
    }
}

proof fn lemma_remove_first_is_remove_value(s: Seq<Seq<char>>, x: Seq<char>, i: int)
    requires
        s.no_duplicates(),
        0 <= i < s.len(),
        s[i] == x,
    ensures
        s.remove_value(x) == s.remove(i),
{
    assert(s.contains(x));
    s.index_of_first_ensures(x);
    let fi = s.index_of_first(x);
    assert(fi is Some);
    assert(s[fi->0] == x);
    assert(fi->0 == i);
}

} // verus!
