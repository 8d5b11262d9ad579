//! The typed view over one inbound protocol frame: tags, sender identity,
//! payload, badges, timestamps. Parsing a frame fails (and the frame is
//! dropped) when the sender identity, display name or id tag is missing.

use vstd::prelude::*;
use vstd::string::StrSliceExecFns;

use crate::text::{
    parse_i64_trimmed, spec_hex_byte, spec_parse_i64, spec_split, split_str, str_eq, hex_byte,
};

verus! {

/// One protocol tag: a key with an optional value.
pub struct TagPair {
    pub key: String,
    pub value: Option<String>,
}

/// The mathematical value of a tag.
pub struct TagView {
    pub key: Seq<char>,
    pub value: Option<Seq<char>>,
}

impl DeepView for TagPair {
    type V = TagView;

    open spec fn deep_view(&self) -> TagView {
        TagView {
            key: self.key@,
            value: match self.value {
                Some(v) => Some(v@),
                None => None,
            },
        }
    }
}

impl Clone for TagPair {
    fn clone(&self) -> (r: Self)
        ensures
            r.deep_view() == self.deep_view(),
    {
        TagPair {
            key: self.key.clone(),
            value: match &self.value {
                Some(v) => Some(v.clone()),
                None => None,
            },
        }
    }
}

/// The value of the first tag whose key is `key`, if that tag carries one.
pub open spec fn spec_search_tag(tags: Seq<TagView>, key: Seq<char>) -> Option<Seq<char>>
    decreases tags.len(),
{
    if tags.len() == 0 {
        None
    } else if tags[0].key == key {
        tags[0].value
    } else {
        spec_search_tag(tags.drop_first(), key)
    }
}

proof fn lemma_search_tag_at(tags: Seq<TagView>, key: Seq<char>, i: int)
    requires
        0 <= i <= tags.len(),
        forall|k: int| 0 <= k < i ==> tags[k].key != key,
    ensures
        i == tags.len() ==> spec_search_tag(tags, key) is None,
        i < tags.len() && tags[i].key == key ==> spec_search_tag(tags, key) == tags[i].value,
    decreases i,
{
    if i > 0 {
        let d = tags.drop_first();
        lemma_search_tag_at(d, key, i - 1);
        if i < tags.len() {
            assert(d[i - 1] == tags[i]);
        }
    }
}

/// The first tag named `target` that carries a value, scanned in tag order.
pub fn search_tag<'a>(tags: &'a Vec<TagPair>, target: &str) -> (r: Option<&'a String>)
    ensures
        match r {
            Some(v) => spec_search_tag(tags.deep_view(), target@) == Some(v@),
            None => spec_search_tag(tags.deep_view(), target@) is None,
        },
{
    let ghost tv = tags.deep_view();
    let mut i: usize = 0;
    while i < tags.len()
        invariant
            i <= tags.len(),
            tv == tags.deep_view(),
            forall|k: int| 0 <= k < i ==> tv[k].key != target@,
        decreases tags.len() - i,
    {
        if str_eq(tags[i].key.as_str(), target) {
            proof {
                lemma_search_tag_at(tv, target@, i as int);
            }
            return tags[i].value.as_ref();
        }
        i = i + 1;
    }
    proof {
        lemma_search_tag_at(tv, target@, tags.len() as int);
    }
    None
}

/// The (name, version) a badge piece denotes: the first two `/`-separated
/// parts, if the piece has at least two.
pub open spec fn spec_badge_of_piece(p: Seq<char>) -> Option<(Seq<char>, Seq<char>)> {
    let parts = spec_split(p, '/');
    if parts.len() >= 2 {
        Some((parts[0], parts[1]))
    } else {
        None
    }
}

/// The badge pairs of the comma-separated pieces, skipping malformed pieces.
pub open spec fn spec_collect_badges(ps: Seq<Seq<char>>) -> Seq<(Seq<char>, Seq<char>)>
    decreases ps.len(),
{
    if ps.len() == 0 {
        Seq::<(Seq<char>, Seq<char>)>::empty()
    } else {
        let rest = spec_collect_badges(ps.drop_first());
        match spec_badge_of_piece(ps[0]) {
            Some(b) => seq![b] + rest,
            None => rest,
        }
    }
}

/// The badge pairs of a message: the `badges` tag split on commas, each
/// piece read as name`/`version.
pub open spec fn spec_badges(tags: Seq<TagView>) -> Seq<(Seq<char>, Seq<char>)> {
    match spec_search_tag(tags, "badges"@) {
        Some(s) => spec_collect_badges(spec_split(s, ',')),
        None => Seq::<(Seq<char>, Seq<char>)>::empty(),
    }
}

/// The badge names of a message, in badge order.
pub open spec fn spec_badge_names(tags: Seq<TagView>) -> Seq<Seq<char>> {
    spec_badges(tags).map_values(|b: (Seq<char>, Seq<char>)| b.0)
}

/// The version of the first badge named `name`, if any.
pub open spec fn spec_find_badge(pairs: Seq<(Seq<char>, Seq<char>)>, name: Seq<char>) -> Option<
    Seq<char>,
>
    decreases pairs.len(),
{
    if pairs.len() == 0 {
        None
    } else if pairs[0].0 == name {
        Some(pairs[0].1)
    } else {
        spec_find_badge(pairs.drop_first(), name)
    }
}

proof fn lemma_find_badge_at(pairs: Seq<(Seq<char>, Seq<char>)>, name: Seq<char>, i: int)
    requires
        0 <= i <= pairs.len(),
        forall|k: int| 0 <= k < i ==> pairs[k].0 != name,
    ensures
        i == pairs.len() ==> spec_find_badge(pairs, name) is None,
        i < pairs.len() && pairs[i].0 == name ==> spec_find_badge(pairs, name) == Some(pairs[i].1),
    decreases i,
{
    if i > 0 {
        let d = pairs.drop_first();
        lemma_find_badge_at(d, name, i - 1);
        if i < pairs.len() {
            assert(d[i - 1] == pairs[i]);
        }
    }
}

/// The timestamp of a message: its `tmi-sent-ts` tag read as a decimal
/// number of milliseconds.
pub open spec fn spec_sent_time(tags: Seq<TagView>) -> Option<i64> {
    match spec_search_tag(tags, "tmi-sent-ts"@) {
        Some(v) => spec_parse_i64(v),
        None => None,
    }
}

/// The sender's name colour: the `color` tag read as `#rrggbb`.
pub open spec fn spec_name_color(tags: Seq<TagView>) -> Option<(u8, u8, u8)> {
    match spec_search_tag(tags, "color"@) {
        None => None,
        Some(s) => {
            if s.len() < 7 {
                None
            } else {
                let r = spec_hex_byte(s[1], s[2]);
                let g = spec_hex_byte(s[3], s[4]);
                let b = spec_hex_byte(s[5], s[6]);
                if r is Some && g is Some && b is Some {
                    Some((r->0, g->0, b->0))
                } else {
                    None
                }
            }
        },
    }
}

/// The mathematical value of a message.
pub struct MsgView {
    pub payload: Seq<char>,
    pub login: Seq<char>,
    pub display: Seq<char>,
    pub channel: Seq<char>,
    pub id: Seq<char>,
    pub tags: Seq<TagView>,
}

/// One chat message: sender identity, payload, channel, id and the raw tags
/// of the frame it was parsed from.
pub struct TwitchMsg {
    payload: String,
    sender_login: String,
    sender_display: String,
    channel: String,
    id: String,
    tags: Vec<TagPair>,
}

impl View for TwitchMsg {
    type V = MsgView;

    closed spec fn view(&self) -> MsgView {
        MsgView {
            payload: self.payload@,
            login: self.sender_login@,
            display: self.sender_display@,
            channel: self.channel@,
            id: self.id@,
            tags: self.tags.deep_view(),
        }
    }
}

impl DeepView for TwitchMsg {
    type V = MsgView;

    open spec fn deep_view(&self) -> MsgView {
        self.view()
    }
}

impl Clone for TwitchMsg {
    fn clone(&self) -> (r: Self)
        ensures
            r@ == self@,
    {
        let r = TwitchMsg {
            payload: self.payload.clone(),
            sender_login: self.sender_login.clone(),
            sender_display: self.sender_display.clone(),
            channel: self.channel.clone(),
            id: self.id.clone(),
            tags: self.tags.clone(),
        };
        proof {
            assert(r.tags.deep_view() =~= self.tags.deep_view());
            assert(r@ =~= self@);
        }
        r
    }
}

impl TwitchMsg {
    /// The message text.
    pub fn payload(&self) -> (r: &str)
        ensures
            r@ == self@.payload,
    {
        self.payload.as_str()
    }

    /// The sender's login, as the protocol delivered it.
    pub fn sender_login(&self) -> (r: &str)
        ensures
            r@ == self@.login,
    {
        self.sender_login.as_str()
    }

    /// The sender's display name.
    pub fn sender_display(&self) -> (r: &str)
        ensures
            r@ == self@.display,
    {
        self.sender_display.as_str()
    }

    /// The channel the message was delivered to.
    pub fn channel(&self) -> (r: &str)
        ensures
            r@ == self@.channel,
    {
        self.channel.as_str()
    }

    /// The message id tag.
    pub fn id(&self) -> (r: &str)
        ensures
            r@ == self@.id,
    {
        self.id.as_str()
    }

    /// The value of the first tag named `tag_name`, if it carries one.
    pub fn tag(&self, tag_name: &str) -> (r: Option<&String>)
        ensures
            match r {
                Some(v) => spec_search_tag(self@.tags, tag_name@) == Some(v@),
                None => spec_search_tag(self@.tags, tag_name@) is None,
            },
    {
        search_tag(&self.tags, tag_name)
    }

    /// The message's badges as (name, version) pairs, in tag order.
    pub fn badges(&self) -> (r: Vec<(String, String)>)
        ensures
            r.deep_view() == spec_badges(self@.tags),
    {
        let mut v: Vec<(String, String)> = Vec::new();
        let tagval = self.tag("badges");
        match tagval {
            None => v,
            Some(badges_str) => {
                let pieces = split_str(badges_str.as_str(), ',');
                let ghost pv = pieces.deep_view();
                proof {
                    assert(pv.skip(0) =~~= pv);
                    assert(v.deep_view() + spec_collect_badges(pv) =~~= spec_collect_badges(pv));
                }
                let mut i: usize = 0;
                while i < pieces.len()
                    invariant
                        i <= pieces.len(),
                        pv == pieces.deep_view(),
                        v.deep_view() + spec_collect_badges(pv.skip(i as int))
                            == spec_collect_badges(pv),
                    decreases pieces.len() - i,
                {
                    let ghost before = v.deep_view();
                    proof {
                        assert(pv.skip(i as int).drop_first() =~~= pv.skip(i as int + 1));
                        assert(pv.skip(i as int)[0] == pv[i as int]);
                    }
                    let parts = split_str(pieces[i].as_str(), '/');
                    if parts.len() >= 2 {
                        v.push((parts[0].clone(), parts[1].clone()));
                        proof {
                            assert(v.deep_view() =~~= before.push(
                                (parts[0]@, parts[1]@),
                            ));
                            assert(before.push((parts[0]@, parts[1]@)) + spec_collect_badges(
                                pv.skip(i as int + 1),
                            ) =~~= before + (seq![(parts[0]@, parts[1]@)] + spec_collect_badges(
                                pv.skip(i as int + 1),
                            )));
                        }
                    }
                    i = i + 1;
                }
                proof {
                    assert(pv.skip(pieces.len() as int) =~~= Seq::<Seq<char>>::empty());
                    assert(v.deep_view() + Seq::<(Seq<char>, Seq<char>)>::empty() =~~= v.deep_view());
                }
                v
            },
        }
    }

    /// The version of the message's first badge named `target`, if any.
    pub fn has_badge(&self, target: &str) -> (r: Option<String>)
        ensures
            match r {
                Some(v) => spec_find_badge(spec_badges(self@.tags), target@) == Some(v@),
                None => spec_find_badge(spec_badges(self@.tags), target@) is None,
            },
    {
        let bs = self.badges();
        let ghost bv = bs.deep_view();
        let mut i: usize = 0;
        while i < bs.len()
            invariant
                i <= bs.len(),
                bv == bs.deep_view(),
                bv == spec_badges(self@.tags),
                forall|k: int| 0 <= k < i ==> bv[k].0 != target@,
            decreases bs.len() - i,
        {
            if str_eq(bs[i].0.as_str(), target) {
                proof {
                    lemma_find_badge_at(bv, target@, i as int);
                }
                return Some(bs[i].1.clone());
            }
            i = i + 1;
        }
        proof {
            lemma_find_badge_at(bv, target@, bs.len() as int);
        }
        None
    }

    /// The message's timestamp in milliseconds, read from its `tmi-sent-ts`
    /// tag.
    pub fn sent_time(&self) -> (r: Option<i64>)
        ensures
            r == spec_sent_time(self@.tags),
    {
        match self.tag("tmi-sent-ts") {
            Some(v) => parse_i64_trimmed(v.as_str()),
            None => None,
        }
    }

    /// The sender's name colour, read from the `color` tag as `#rrggbb`.
    pub fn name_color(&self) -> (r: Option<(u8, u8, u8)>)
        ensures
            r == spec_name_color(self@.tags),
    {
        match self.tag("color") {
            None => None,
            Some(hex) => {
                let s = hex.as_str();
                if s.unicode_len() < 7 {
                    None
                } else {
                    let rr = hex_byte(s.get_char(1), s.get_char(2));
                    let gg = hex_byte(s.get_char(3), s.get_char(4));
                    let bb = hex_byte(s.get_char(5), s.get_char(6));
                    match (rr, gg, bb) {
                        (Some(r0), Some(g0), Some(b0)) => Some((r0, g0, b0)),
                        _ => None,
                    }
                }
            },
        }
    }
}

/// One inbound frame's command, as far as the client reads it.
pub enum FrameCommand {
    /// A join confirmation carrying the channel name.
    Join(String),
    /// A chat message: target channel, then payload.
    Privmsg(String, String),
    /// A server notice: target, then content.
    Notice(String, String),
    /// A numeric response with its parameters.
    Response(u16, Vec<String>),
    /// Any other named command with its parameters.
    Raw(String, Vec<String>),
    /// A command the client has no reading for.
    Other,
}

/// The mathematical value of a frame command.
pub enum FrameCommandView {
    Join(Seq<char>),
    Privmsg(Seq<char>, Seq<char>),
    Notice(Seq<char>, Seq<char>),
    Response(u16, Seq<Seq<char>>),
    Raw(Seq<char>, Seq<Seq<char>>),
    Other,
}

impl DeepView for FrameCommand {
    type V = FrameCommandView;

    open spec fn deep_view(&self) -> FrameCommandView {
        match self {
            FrameCommand::Join(c) => FrameCommandView::Join(c@),
            FrameCommand::Privmsg(t, p) => FrameCommandView::Privmsg(t@, p@),
            FrameCommand::Notice(t, c) => FrameCommandView::Notice(t@, c@),
            FrameCommand::Response(n, ps) => FrameCommandView::Response(*n, ps.deep_view()),
            FrameCommand::Raw(c, ps) => FrameCommandView::Raw(c@, ps.deep_view()),
            FrameCommand::Other => FrameCommandView::Other,
        }
    }
}

/// One parsed unit of the wire protocol: tags, the user part of the prefix,
/// and the command.
pub struct InboundFrame {
    pub tags: Vec<TagPair>,
    pub prefix_user: Option<String>,
    pub command: FrameCommand,
}

/// The mathematical value of an inbound frame.
pub struct FrameView {
    pub tags: Seq<TagView>,
    pub prefix_user: Option<Seq<char>>,
    pub command: FrameCommandView,
}

impl DeepView for InboundFrame {
    type V = FrameView;

    open spec fn deep_view(&self) -> FrameView {
        FrameView {
            tags: self.tags.deep_view(),
            prefix_user: match self.prefix_user {
                Some(u) => Some(u@),
                None => None,
            },
            command: self.command.deep_view(),
        }
    }
}

/// The message a frame parses to: the frame must be a chat message whose
/// prefix names the sender and whose tags carry a display name and an id.
pub open spec fn spec_msg_of_frame(f: FrameView) -> Option<MsgView> {
    if !(f.command is Privmsg) {
        None
    } else if f.prefix_user is None {
        None
    } else {
        let d = spec_search_tag(f.tags, "display-name"@);
        let id = spec_search_tag(f.tags, "id"@);
        if d is None {
            None
        } else if id is None {
            None
        } else {
            Some(
                MsgView {
                    payload: f.command->Privmsg_1,
                    channel: f.command->Privmsg_0,
                    login: f.prefix_user->0,
                    display: d->0,
                    id: id->0,
                    tags: f.tags,
                },
            )
        }
    }
}

impl TwitchMsg {
    /// Parses one inbound frame into a message; a frame without sender
    /// identity, display name or id yields `None` and is dropped.
    pub fn from_frame(frame: InboundFrame) -> (r: Option<TwitchMsg>)
        ensures
            match r {
                Some(m) => spec_msg_of_frame(frame.deep_view()) == Some(m@),
                None => spec_msg_of_frame(frame.deep_view()) is None,
            },
    {
        let InboundFrame { tags, prefix_user, command } = frame;
        let (channel, payload) = match command {
            FrameCommand::Privmsg(c, p) => (c, p),
            _ => {
                return None;
            },
        };
        let login = match prefix_user {
            Some(u) => u,
            None => {
                return None;
            },
        };
        let display = match search_tag(&tags, "display-name") {
            Some(s) => s.clone(),
            None => {
                return None;
            },
        };
        let id = match search_tag(&tags, "id") {
            Some(s) => s.clone(),
            None => {
                return None;
            },
        };
        Some(
            TwitchMsg {
                payload,
                sender_login: login,
                sender_display: display,
                channel,
                id,
                tags,
            },
        )
    }
}

/// `payload` with every trailing echo-marker character (U+E0000) removed.
pub open spec fn spec_strip_marker(s: Seq<char>) -> Seq<char>
    decreases s.len(),
{
    if s.len() > 0 && s[s.len() - 1] == '\u{e0000}' {
        spec_strip_marker(s.drop_last())
    } else {
        s
    }
}

proof fn lemma_strip_marker_take(s: Seq<char>, i: int)
    requires
        0 <= i <= s.len(),
        forall|k: int| i <= k < s.len() ==> s[k] == '\u{e0000}',
    ensures
        spec_strip_marker(s) == spec_strip_marker(s.take(i)),
    decreases s.len() - i,
{
    if i < s.len() {
        assert(s.drop_last() =~= s.take(s.len() - 1));
        lemma_strip_marker_take(s.take(s.len() - 1), i);
        assert(s.take(s.len() - 1).take(i) =~= s.take(i));
    } else {
        assert(s.take(i) =~= s);
    }
}

impl TwitchMsg {
    /// The message with trailing echo-marker characters stripped from its
    /// payload; everything else is unchanged.
    pub fn sanitized(self) -> (r: TwitchMsg)
        ensures
            r@.payload == spec_strip_marker(self@.payload),
            r@.login == self@.login,
            r@.display == self@.display,
            r@.channel == self@.channel,
            r@.id == self@.id,
            r@.tags == self@.tags,
    {
        let n = self.payload.as_str().unicode_len();
        let mut end = n;
        while end > 0 && self.payload.as_str().get_char(end - 1) == '\u{e0000}'
            invariant
                n == self.payload@.len(),
                end <= n,
                forall|k: int| end <= k < n ==> self.payload@[k] == '\u{e0000}',
            decreases end,
        {
            end = end - 1;
        }
        proof {
            lemma_strip_marker_take(self.payload@, end as int);
        }
        if end == n {
            proof {
                assert(self.payload@.take(n as int) =~= self.payload@);
            }
            self
        } else {
            let stripped = self.payload.as_str().substring_char(0, end).to_owned();
            proof {
                assert(self.payload@.take(end as int) =~= self.payload@.subrange(
                    0,
                    end as int,
                ));
                if end > 0 {
                    assert(!(self.payload@.take(end as int)[end - 1] == '\u{e0000}'));
                }
            }
            let TwitchMsg { payload: _, sender_login, sender_display, channel, id, tags } = self;
            TwitchMsg {
                payload: stripped,
                sender_login,
                sender_display,
                channel,
                id,
                tags,
            }
        }
    }
}

} // verus!
