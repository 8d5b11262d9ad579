//! Per-channel state: the two bounded message buffers, the compiled filter,
//! the transcript sinks with their recorded errors, the alert subscription
//! and the unread flag — and `ingest`, the single funnel through which every
//! inbound message for the channel passes.

use std::collections::VecDeque;
use vstd::prelude::*;
use vstd::string::StringExecFns;

use crate::filter::{
    spec_accepts, spec_filter_of_state, spec_first_bad_state, spec_state_of_filter, spec_state_ok,
    Filter, FilterState, FilterView, PatternError,
};
use crate::message::{spec_badge_names, MsgView, TwitchMsg};
use crate::pattern::Pattern;
use crate::text::{lower_of, push_char, to_lowercase};

verus! {

/// Whether the channel's subscription on the wire is established.
#[derive(Clone, Copy, PartialEq, Eq, Structural, Debug)]
pub enum ChannelConnectionState {
    Uninitialized,
    Joined,
}

/// The most recent `bound` elements of `s`, oldest first.
pub open spec fn keep_last<T>(s: Seq<T>, bound: nat) -> Seq<T> {
    if s.len() <= bound {
        s
    } else {
        s.skip(s.len() - bound)
    }
}

/// One ingest step of the bounded buffer.
pub open spec fn spec_ingest_step<T>(s: Seq<T>, m: T, bound: nat) -> Seq<T> {
    keep_last(s.push(m), bound)
}

/// The buffer contents after ingesting a whole history into an empty
/// channel, one message at a time.
pub open spec fn spec_ingest_fold<T>(history: Seq<T>, bound: nat) -> Seq<T>
    decreases history.len(),
{
    if history.len() == 0 {
        Seq::<T>::empty()
    } else {
        spec_ingest_step(spec_ingest_fold(history.drop_last(), bound), history.last(), bound)
    }
}

proof fn lemma_keep_last_step<T>(h: Seq<T>, m: T, bound: nat)
    ensures
        keep_last(keep_last(h, bound).push(m), bound) == keep_last(h.push(m), bound),
{
    let k = keep_last(h, bound);
    if h.len() <= bound {
        assert(k == h);
    } else {
        let d = h.len() - bound;
        assert(k == h.skip(d));
        assert(k.len() == bound);
        assert(k.push(m) =~= h.push(m).skip(d));
        assert(k.push(m).len() == bound + 1);
        assert(keep_last(k.push(m), bound) =~= k.push(m).skip(1));
        assert(k.push(m).skip(1) =~= h.push(m).skip(d + 1));
        assert(keep_last(h.push(m), bound) =~= h.push(m).skip(d + 1));
    }
}

/// Bounded retention: ingesting any history into an empty channel leaves
/// exactly the most recent `bound` messages, oldest first — so the buffer
/// never exceeds the bound.
pub proof fn lemma_retained_most_recent<T>(history: Seq<T>, bound: nat)
    ensures
        spec_ingest_fold(history, bound) == keep_last(history, bound),
        spec_ingest_fold(history, bound).len() <= bound,
    decreases history.len(),
{
    if history.len() == 0 {
    } else {
        let h = history.drop_last();
        lemma_retained_most_recent(h, bound);
        lemma_keep_last_step(h, history.last(), bound);
        assert(h.push(history.last()) =~= history);
    }
}

/// The decisions one ingest made: whether the message matched the filter,
/// which transcript sinks a line must be appended to, and whether the alert
/// is to be signalled.
#[derive(Clone, Copy, PartialEq, Eq, Structural, Debug)]
pub struct IngestOutcome {
    pub matched: bool,
    pub write_all_log: bool,
    pub write_filtered_log: bool,
    pub alert: bool,
}

/// One transcript sink: its path, and the last write error if one occurred.
/// A failed sink stays configured — writing keeps being attempted.
struct TranscriptSink {
    path: String,
    error: Option<String>,
}

/// The mathematical value of one transcript sink.
pub struct SinkView {
    pub path: Seq<char>,
    pub error: Option<Seq<char>>,
}

spec fn spec_sink_of(s: Option<TranscriptSink>) -> Option<SinkView> {
    match s {
        None => None,
        Some(t) => Some(
            SinkView {
                path: t.path@,
                error: match t.error {
                    Some(e) => Some(e@),
                    None => None,
                },
            },
        ),
    }
}

/// The mathematical value of a channel.
pub struct ChannelView {
    pub channel_name: Seq<char>,
    pub connected: bool,
    pub msgs: Seq<MsgView>,
    pub filtered: Seq<MsgView>,
    pub filter: FilterView,
    pub max_msg_count: nat,
    pub state: ChannelConnectionState,
    pub log: Option<SinkView>,
    pub log_filtered: Option<SinkView>,
    pub alert: bool,
    pub unread: bool,
}

/// One joined (or joinable) channel's state.
pub struct ChannelManager {
    channel_name: String,
    connected: bool,
    msg_list: VecDeque<TwitchMsg>,
    filtered_msg_list: VecDeque<TwitchMsg>,
    filter: Filter,
    max_msg_count: usize,
    state: ChannelConnectionState,
    log: Option<TranscriptSink>,
    log_filtered: Option<TranscriptSink>,
    alert: bool,
    has_unread_filtered_msg: bool,
}

impl View for ChannelManager {
    type V = ChannelView;

    closed spec fn view(&self) -> ChannelView {
        ChannelView {
            channel_name: self.channel_name@,
            connected: self.connected,
            msgs: self.msg_list@.map_values(|m: TwitchMsg| m@),
            filtered: self.filtered_msg_list@.map_values(|m: TwitchMsg| m@),
            filter: self.filter@,
            max_msg_count: self.max_msg_count as nat,
            state: self.state,
            log: spec_sink_of(self.log),
            log_filtered: spec_sink_of(self.log_filtered),
            alert: self.alert,
            unread: self.has_unread_filtered_msg,
        }
    }
}

fn evict_over(list: &mut VecDeque<TwitchMsg>, bound: usize)
    ensures
        final (list)@ == keep_last(old(list)@, bound as nat),
{
    let ghost orig = list@;
    let ghost mut k: int = 0;
    proof {
        assert(orig.skip(0) =~= orig);
    }
    while list.len() > bound
        invariant
            0 <= k <= orig.len(),
            list@ == orig.skip(k),
            k == 0 || orig.len() - k >= bound,
        decreases list.len(),
    {
        list.pop_front();
        proof {
            assert(orig.skip(k).drop_first() =~= orig.skip(k + 1));
            k = k + 1;
        }
    }
    proof {
        if k > 0 {
            assert(orig.len() - k == list@.len());
            assert(list@ =~= orig.skip(orig.len() - bound));
        }
    }
}

impl ChannelManager {
    /// A fresh channel: both buffers empty, nothing read or written yet, the
    /// name folded to lower case.
    pub fn new(channel: &str, max_msg_count: usize, filter: Filter) -> (r: ChannelManager)
        ensures
            r@.channel_name == lower_of(channel@),
            !r@.connected,
            r@.msgs.len() == 0,
            r@.filtered.len() == 0,
            r@.filter == filter@,
            r@.max_msg_count == max_msg_count as nat,
            r@.state == ChannelConnectionState::Uninitialized,
            r@.log is None,
            r@.log_filtered is None,
            !r@.alert,
            !r@.unread,
    {
        let r = ChannelManager {
            channel_name: to_lowercase(channel),
            connected: false,
            msg_list: VecDeque::new(),
            filtered_msg_list: VecDeque::new(),
            filter,
            max_msg_count,
            state: ChannelConnectionState::Uninitialized,
            log: None,
            log_filtered: None,
            alert: false,
            has_unread_filtered_msg: false,
        };
        proof {
            assert(r@.msgs =~= Seq::<MsgView>::empty());
            assert(r@.filtered =~= Seq::<MsgView>::empty());
        }
        r
    }

    /// The single funnel for inbound messages: appends to "all" with
    /// oldest-first eviction; if the filter matches, appends to "filtered"
    /// under the same rule, sets the unread flag, and reports which
    /// transcript sinks need a line and whether to signal the alert.
    pub fn ingest(&mut self, msg: TwitchMsg) -> (o: IngestOutcome)
        ensures
            ({
                let m = msg@;
                let matched = spec_accepts(
                    old(self)@.filter,
                    m.payload,
                    m.login,
                    spec_badge_names(m.tags),
                );
                &&& o.matched == matched
                &&& o.write_all_log == (old(self)@.log is Some)
                &&& o.write_filtered_log == (matched && old(self)@.log_filtered is Some)
                &&& o.alert == (matched && old(self)@.alert)
                &&& final (self)@.msgs == keep_last(
                    old(self)@.msgs.push(m),
                    old(self)@.max_msg_count,
                )
                &&& final (self)@.filtered == if matched {
                    keep_last(old(self)@.filtered.push(m), old(self)@.max_msg_count)
                } else {
                    old(self)@.filtered
                }
                &&& final (self)@.msgs.len() <= old(self)@.max_msg_count
                &&& (old(self)@.filtered.len() <= old(self)@.max_msg_count ==> final (
                self)@.filtered.len() <= old(self)@.max_msg_count)
                &&& final (self)@.unread == (old(self)@.unread || matched)
                &&& final (self)@ == (ChannelView {
                    msgs: final (self)@.msgs,
                    filtered: final (self)@.filtered,
                    unread: final (self)@.unread,
                    ..old(self)@
                })
            }),
    {
        let matched = self.filter.test(&msg);
        let ghost old_filtered = self.filtered_msg_list@;
        if matched {
            self.filtered_msg_list.push_back(msg.clone());
            evict_over(&mut self.filtered_msg_list, self.max_msg_count);
            self.has_unread_filtered_msg = true;
        }
        let ghost old_msgs = self.msg_list@;
        self.msg_list.push_back(msg);
        evict_over(&mut self.msg_list, self.max_msg_count);
        proof {
            let m_all = |m: TwitchMsg| m@;
            assert(self.msg_list@.map_values(m_all) =~= keep_last(
                old_msgs.map_values(m_all).push(msg@),
                self.max_msg_count as nat,
            )) by {
                assert(old_msgs.push(msg).map_values(m_all) =~= old_msgs.map_values(m_all).push(
                    msg@,
                ));
                if old_msgs.push(msg).len() > self.max_msg_count as nat {
                    let d = old_msgs.push(msg).len() - self.max_msg_count as nat;
                    assert(old_msgs.push(msg).skip(d as int).map_values(m_all) =~= old_msgs.push(
                        msg,
                    ).map_values(m_all).skip(d as int));
                }
            }
            if matched {
                assert(self.filtered_msg_list@.map_values(m_all) =~= keep_last(
                    old_filtered.map_values(m_all).push(msg@),
                    self.max_msg_count as nat,
                )) by {
                    assert(old_filtered.push(msg).map_values(m_all) =~= old_filtered.map_values(
                        m_all,
                    ).push(msg@));
                    if old_filtered.push(msg).len() > self.max_msg_count as nat {
                        let d = old_filtered.push(msg).len() - self.max_msg_count as nat;
                        assert(old_filtered.push(msg).skip(d as int).map_values(m_all)
                            =~= old_filtered.push(msg).map_values(m_all).skip(d as int));
                    }
                }
            }
        }
        IngestOutcome {
            matched,
            write_all_log: match &self.log {
                Some(_) => true,
                None => false,
            },
            write_filtered_log: matched && match &self.log_filtered {
                Some(_) => true,
                None => false,
            },
            alert: matched && self.alert,
        }
    }

    /// Empties one of the two buffers, leaving the other and the connection
    /// state untouched.
    pub fn clear(&mut self, filtered: bool)
        ensures
            filtered ==> final (self)@ == (ChannelView {
                filtered: Seq::<MsgView>::empty(),
                ..old(self)@
            }),
            !filtered ==> final (self)@ == (ChannelView {
                msgs: Seq::<MsgView>::empty(),
                ..old(self)@
            }),
    {
        if filtered {
            self.filtered_msg_list.clear();
            proof {
                assert(self.filtered_msg_list@.map_values(|m: TwitchMsg| m@) =~= Seq::<
                    MsgView,
                >::empty());
            }
        } else {
            self.msg_list.clear();
            proof {
                assert(self.msg_list@.map_values(|m: TwitchMsg| m@) =~= Seq::<MsgView>::empty());
            }
        }
    }

    /// Marks the channel as connected and returns the channel name whose
    /// join is to be requested from the protocol client.
    pub fn connect(&mut self) -> (r: String)
        ensures
            final (self)@ == (ChannelView { connected: true, ..old(self)@ }),
            r@ == old(self)@.channel_name,
    {
        self.connected = true;
        self.channel_name.clone()
    }

    /// Marks the channel as disconnected and returns the channel name whose
    /// part is to be requested from the protocol client.
    pub fn disconnect(&mut self) -> (r: String)
        ensures
            final (self)@ == (ChannelView { connected: false, ..old(self)@ }),
            r@ == old(self)@.channel_name,
    {
        self.connected = false;
        self.channel_name.clone()
    }

    /// Whether the consumer has asked for this channel to be connected.
    pub fn is_connected(&self) -> (r: bool)
        ensures
            r == self@.connected,
    {
        self.connected
    }

    /// A snapshot of one buffer's slice `range`, oldest first.
    pub fn get_n_msg(&self, range: core::ops::Range<usize>, filtered: bool) -> (r: Vec<TwitchMsg>)
        requires
            range.start <= range.end,
            range.end <= if filtered {
                self@.filtered.len()
            } else {
                self@.msgs.len()
            },
        ensures
            r.deep_view() == if filtered {
                self@.filtered.subrange(range.start as int, range.end as int)
            } else {
                self@.msgs.subrange(range.start as int, range.end as int)
            },
    {
        let mut r: Vec<TwitchMsg> = Vec::new();
        let list = if filtered {
            &self.filtered_msg_list
        } else {
            &self.msg_list
        };
        let ghost lv = list@.map_values(|m: TwitchMsg| m@);
        let mut i: usize = range.start;
        proof {
            assert(r.deep_view() =~= lv.subrange(range.start as int, range.start as int));
        }
        while i < range.end
            invariant
                range.start <= i <= range.end,
                range.end <= list@.len(),
                lv == list@.map_values(|m: TwitchMsg| m@),
                r.deep_view() == lv.subrange(range.start as int, i as int),
            decreases range.end - i,
        {
            let ghost before = r.deep_view();
            r.push(list[i].clone());
            proof {
                assert(r.deep_view() =~= before.push(lv[i as int]));
                assert(before.push(lv[i as int]) =~= lv.subrange(
                    range.start as int,
                    i as int + 1,
                ));
            }
            i = i + 1;
        }
        r
    }

    /// A snapshot of one whole buffer, oldest first.
    pub fn get_msg(&self, filtered: bool) -> (r: Vec<TwitchMsg>)
        ensures
            r.deep_view() == if filtered {
                self@.filtered
            } else {
                self@.msgs
            },
    {
        let list = if filtered {
            &self.filtered_msg_list
        } else {
            &self.msg_list
        };
        let ghost lv = list@.map_values(|m: TwitchMsg| m@);
        let mut r: Vec<TwitchMsg> = Vec::new();
        let mut i: usize = 0;
        proof {
            assert(r.deep_view() =~= lv.take(0));
        }
        while i < list.len()
            invariant
                i <= list@.len(),
                lv == list@.map_values(|m: TwitchMsg| m@),
                r.deep_view() == lv.take(i as int),
            decreases list@.len() - i,
        {
            let ghost before = r.deep_view();
            r.push(list[i].clone());
            proof {
                assert(r.deep_view() =~= before.push(lv[i as int]));
                assert(before.push(lv[i as int]) =~= lv.take(i as int + 1));
            }
            i = i + 1;
        }
        proof {
            assert(lv.take(list@.len() as int) =~= lv);
        }
        r
    }

    /// How many messages one buffer holds.
    pub fn get_msg_count(&self, filtered: bool) -> (r: usize)
        ensures
            r == if filtered {
                self@.filtered.len()
            } else {
                self@.msgs.len()
            },
    {
        if filtered {
            self.filtered_msg_list.len()
        } else {
            self.msg_list.len()
        }
    }

    /// The channel's connection state.
    pub fn state(&self) -> (r: ChannelConnectionState)
        ensures
            r == self@.state,
    {
        self.state
    }

    /// Sets the connection state; the protocol client drives this on join
    /// confirmations, parts and connection loss.
    pub fn set_state(&mut self, s: ChannelConnectionState)
        ensures
            final (self)@ == (ChannelView { state: s, ..old(self)@ }),
    {
        self.state = s;
    }

    /// The editable representation of the current filter.
    pub fn get_filter_state(&self) -> (r: FilterState)
        ensures
            r.deep_view() == spec_state_of_filter(self@.filter),
    {
        FilterState::from_filter(&self.filter)
    }

    /// Replaces the filter by compiling an edited representation; a failed
    /// compilation reports the offending pattern and leaves the previous
    /// filter — and all routing state — unchanged.
    pub fn set_filter(&mut self, state: &FilterState) -> (r: Result<(), PatternError>)
        ensures
            r is Ok <==> spec_state_ok(state.deep_view()),
            r is Ok ==> final (self)@ == (ChannelView {
                filter: spec_filter_of_state(state.deep_view()),
                ..old(self)@
            }),
            r is Err ==> final (self)@ == old(self)@ && spec_first_bad_state(state.deep_view())
                == Some(r->Err_0.pattern@),
    {
        match Filter::compile(state) {
            Ok(f) => {
                self.filter = f;
                Ok(())
            },
            Err(e) => Err(e),
        }
    }

    /// Appends one compiled pattern to the filter's inclusive author group.
    pub fn add_author_pat(&mut self, pat: Pattern)
        ensures
            final (self)@ == (ChannelView {
                filter: FilterView {
                    inc_author: old(self)@.filter.inc_author.push(pat@),
                    ..old(self)@.filter
                },
                ..old(self)@
            }),
    {
        self.filter.add_author_pat(pat);
    }

    /// Appends one compiled pattern to the filter's exclusive author group.
    pub fn add_exc_author_pat(&mut self, pat: Pattern)
        ensures
            final (self)@ == (ChannelView {
                filter: FilterView {
                    exc_author: old(self)@.filter.exc_author.push(pat@),
                    ..old(self)@.filter
                },
                ..old(self)@
            }),
    {
        self.filter.add_exc_author_pat(pat);
    }

    /// Replaces the filter's badge names.
    pub fn set_badge_pat(&mut self, pat: Vec<String>)
        ensures
            final (self)@ == (ChannelView {
                filter: FilterView { badges: pat.deep_view(), ..old(self)@.filter },
                ..old(self)@
            }),
    {
        self.filter.set_badge_pat(pat);
    }

    /// The channel's name, lower-cased.
    pub fn channel_name(&self) -> (r: &str)
        ensures
            r@ == self@.channel_name,
    {
        self.channel_name.as_str()
    }

    /// Sets or removes the "all" transcript sink; a fresh sink starts
    /// without an error.
    pub fn set_log(&mut self, p: Option<String>)
        ensures
            final (self)@ == (ChannelView {
                log: match p {
                    Some(q) => Some(SinkView { path: q@, error: None }),
                    None => None,
                },
                ..old(self)@
            }),
    {
        self.log = match p {
            Some(q) => Some(TranscriptSink { path: q, error: None }),
            None => None,
        };
    }

    /// The "all" transcript sink's status: absent, its path, or its recorded
    /// error.
    pub fn log_status(&self) -> (r: Option<Result<String, String>>)
        ensures
            match r {
                None => self@.log is None,
                Some(Ok(p)) => self@.log is Some && self@.log->0.error is None && p@
                    == self@.log->0.path,
                Some(Err(e)) => self@.log is Some && self@.log->0.error == Some(e@),
            },
    {
        sink_status(&self.log)
    }

    /// The path of the "all" transcript sink, whether or not its last write
    /// failed: a failed sink stays configured and keeps being written.
    pub fn log_path(&self) -> (r: Option<String>)
        ensures
            match r {
                None => self@.log is None,
                Some(p) => self@.log is Some && p@ == self@.log->0.path,
            },
    {
        match &self.log {
            None => None,
            Some(t) => Some(t.path.clone()),
        }
    }

    /// Records a write failure on the "all" transcript sink; the sink stays
    /// configured and later writes keep being attempted.
    pub fn record_log_error(&mut self, e: String)
        ensures
            old(self)@.log is Some ==> final (self)@ == (ChannelView {
                log: Some(SinkView { path: old(self)@.log->0.path, error: Some(e@) }),
                ..old(self)@
            }),
            old(self)@.log is None ==> final (self)@ == old(self)@,
    {
        match &mut self.log {
            Some(t) => {
                t.error = Some(e);
            },
            None => {},
        }
    }

    /// Sets or removes the filtered transcript sink.
    pub fn set_filtered_log(&mut self, p: Option<String>)
        ensures
            final (self)@ == (ChannelView {
                log_filtered: match p {
                    Some(q) => Some(SinkView { path: q@, error: None }),
                    None => None,
                },
                ..old(self)@
            }),
    {
        self.log_filtered = match p {
            Some(q) => Some(TranscriptSink { path: q, error: None }),
            None => None,
        };
    }

    /// The filtered transcript sink's status.
    pub fn filtered_log_status(&self) -> (r: Option<Result<String, String>>)
        ensures
            match r {
                None => self@.log_filtered is None,
                Some(Ok(p)) => self@.log_filtered is Some && self@.log_filtered->0.error is None
                    && p@ == self@.log_filtered->0.path,
                Some(Err(e)) => self@.log_filtered is Some && self@.log_filtered->0.error == Some(
                    e@,
                ),
            },
    {
        sink_status(&self.log_filtered)
    }

    /// The path of the filtered transcript sink, failed or not.
    pub fn filtered_log_path(&self) -> (r: Option<String>)
        ensures
            match r {
                None => self@.log_filtered is None,
                Some(p) => self@.log_filtered is Some && p@ == self@.log_filtered->0.path,
            },
    {
        match &self.log_filtered {
            None => None,
            Some(t) => Some(t.path.clone()),
        }
    }

    /// Records a write failure on the filtered transcript sink.
    pub fn record_filtered_log_error(&mut self, e: String)
        ensures
            old(self)@.log_filtered is Some ==> final (self)@ == (ChannelView {
                log_filtered: Some(
                    SinkView { path: old(self)@.log_filtered->0.path, error: Some(e@) },
                ),
                ..old(self)@
            }),
            old(self)@.log_filtered is None ==> final (self)@ == old(self)@,
    {
        match &mut self.log_filtered {
            Some(t) => {
                t.error = Some(e);
            },
            None => {},
        }
    }

    /// Whether an alert subscription is present.
    pub fn alert(&self) -> (r: bool)
        ensures
            r == self@.alert,
    {
        self.alert
    }

    /// Subscribes or unsubscribes the channel from the audible alert.
    pub fn set_alert(&mut self, on: bool)
        ensures
            final (self)@ == (ChannelView { alert: on, ..old(self)@ }),
    {
        self.alert = on;
    }

    /// Whether a filtered message arrived since the channel was last read.
    pub fn has_unread_filtered_msg(&self) -> (r: bool)
        ensures
            r == self@.unread,
    {
        self.has_unread_filtered_msg
    }

    /// Clears the unread flag.
    pub fn read(&mut self)
        ensures
            final (self)@ == (ChannelView { unread: false, ..old(self)@ }),
    {
        self.has_unread_filtered_msg = false;
    }

    /// An outbound send for this channel: the protocol target is the channel
    /// name behind a `#`.
    pub fn send_msg(&self, msg: String) -> (r: OutboundSend)
        ensures
            r.target@ == seq!['#'] + self@.channel_name,
            r.text@ == msg@,
    {
        let mut target = String::new();
        push_char(&mut target, '#');
        target.append(self.channel_name.as_str());
        proof {
            assert(Seq::<char>::empty() + seq!['#'] =~= seq!['#']);
        }
        OutboundSend { target, text: msg }
    }
}

fn sink_status(s: &Option<TranscriptSink>) -> (r: Option<Result<String, String>>)
    ensures
        match r {
            None => spec_sink_of(*s) is None,
            Some(Ok(p)) => spec_sink_of(*s) is Some && spec_sink_of(*s)->0.error is None && p@
                == spec_sink_of(*s)->0.path,
            Some(Err(e)) => spec_sink_of(*s) is Some && spec_sink_of(*s)->0.error == Some(e@),
        },
{
    match s {
        None => None,
        Some(t) => match &t.error {
            None => Some(Ok(t.path.clone())),
            Some(e) => Some(Err(e.clone())),
        },
    }
}

/// One outbound chat send: the protocol target and the text.
pub struct OutboundSend {
    pub target: String,
    pub text: String,
}

} // verus!
