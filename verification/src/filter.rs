//! The filter engine: an editable textual representation (`FilterState`),
//! a compiled filter of five predicate groups (`Filter`), and the fixed
//! short-circuit evaluation order in which exclusion always wins.

use vstd::prelude::*;

use crate::message::{spec_badge_names, spec_badges, TwitchMsg};
use crate::pattern::{regex_match, regex_ok, Pattern};
use crate::text::{
    clean_lines, join_with, spec_clean_lines, spec_join, str_eq, line_clean,
    lemma_clean_lines_of_join,
};

verus! {

pub const BROADCASTER_BADGE_NAME: &'static str = "broadcaster";

pub const MODERATOR_BADGE_NAME: &'static str = "moderator";

pub const VIP_BADGE_NAME: &'static str = "vip";

pub const PARTNER_BADGE_NAME: &'static str = "partner";

/// The editable representation of a filter: four newline-delimited pattern
/// texts and four badge flags.
pub struct FilterState {
    pub inc_msg: String,
    pub inc_author: String,
    pub exc_msg: String,
    pub exc_author: String,
    pub broadcaster: bool,
    pub moderator: bool,
    pub vip: bool,
    pub partner: bool,
}

/// The mathematical value of a `FilterState`.
pub struct FilterStateView {
    pub inc_msg: Seq<char>,
    pub inc_author: Seq<char>,
    pub exc_msg: Seq<char>,
    pub exc_author: Seq<char>,
    pub broadcaster: bool,
    pub moderator: bool,
    pub vip: bool,
    pub partner: bool,
}

impl DeepView for FilterState {
    type V = FilterStateView;

    open spec fn deep_view(&self) -> FilterStateView {
        FilterStateView {
            inc_msg: self.inc_msg@,
            inc_author: self.inc_author@,
            exc_msg: self.exc_msg@,
            exc_author: self.exc_author@,
            broadcaster: self.broadcaster,
            moderator: self.moderator,
            vip: self.vip,
            partner: self.partner,
        }
    }
}

impl Clone for FilterState {
    fn clone(&self) -> (r: Self)
        ensures
            r.deep_view() == self.deep_view(),
    {
        FilterState {
            inc_msg: self.inc_msg.clone(),
            inc_author: self.inc_author.clone(),
            exc_msg: self.exc_msg.clone(),
            exc_author: self.exc_author.clone(),
            broadcaster: self.broadcaster,
            moderator: self.moderator,
            vip: self.vip,
            partner: self.partner,
        }
    }
}

impl Default for FilterState {
    /// The empty representation: no patterns, no badge flags.
    fn default() -> (r: Self)
        ensures
            r.deep_view().inc_msg.len() == 0,
            r.deep_view().inc_author.len() == 0,
            r.deep_view().exc_msg.len() == 0,
            r.deep_view().exc_author.len() == 0,
            !r.deep_view().broadcaster,
            !r.deep_view().moderator,
            !r.deep_view().vip,
            !r.deep_view().partner,
    {
        FilterState {
            inc_msg: String::new(),
            inc_author: String::new(),
            exc_msg: String::new(),
            exc_author: String::new(),
            broadcaster: false,
            moderator: false,
            vip: false,
            partner: false,
        }
    }
}

/// The mathematical value of a compiled filter: the pattern sources of the
/// four groups and the configured badge names.
pub struct FilterView {
    pub inc_msg: Seq<Seq<char>>,
    pub inc_author: Seq<Seq<char>>,
    pub exc_msg: Seq<Seq<char>>,
    pub exc_author: Seq<Seq<char>>,
    pub badges: Seq<Seq<char>>,
}

/// A compiled filter: four groups of compiled patterns and a set of badge
/// names.
#[derive(Debug)]
pub struct Filter {
    inc_msg_pat: Vec<Pattern>,
    inc_author_pat: Vec<Pattern>,
    badge_pat: Vec<String>,
    exc_msg_pat: Vec<Pattern>,
    exc_author_pat: Vec<Pattern>,
}

impl View for Filter {
    type V = FilterView;

    closed spec fn view(&self) -> FilterView {
        FilterView {
            inc_msg: self.inc_msg_pat.deep_view(),
            inc_author: self.inc_author_pat.deep_view(),
            exc_msg: self.exc_msg_pat.deep_view(),
            exc_author: self.exc_author_pat.deep_view(),
            badges: self.badge_pat.deep_view(),
        }
    }
}

impl Clone for Filter {
    /// Filters are cheap value objects: the clone decides exactly as the
    /// original does.
    fn clone(&self) -> (r: Self)
        ensures
            r@ == self@,
    {
        let r = Filter {
            inc_msg_pat: self.inc_msg_pat.clone(),
            inc_author_pat: self.inc_author_pat.clone(),
            badge_pat: self.badge_pat.clone(),
            exc_msg_pat: self.exc_msg_pat.clone(),
            exc_author_pat: self.exc_author_pat.clone(),
        };
        proof {
            assert(r.inc_msg_pat.deep_view() =~= self.inc_msg_pat.deep_view());
            assert(r.inc_author_pat.deep_view() =~= self.inc_author_pat.deep_view());
            assert(r.badge_pat.deep_view() =~= self.badge_pat.deep_view());
            assert(r.exc_msg_pat.deep_view() =~= self.exc_msg_pat.deep_view());
            assert(r.exc_author_pat.deep_view() =~= self.exc_author_pat.deep_view());
        }
        r
    }
}

impl Default for Filter {
    /// The empty filter: it accepts nothing.
    fn default() -> (r: Self)
        ensures
            r@.inc_msg.len() == 0,
            r@.inc_author.len() == 0,
            r@.exc_msg.len() == 0,
            r@.exc_author.len() == 0,
            r@.badges.len() == 0,
    {
        Filter {
            inc_msg_pat: Vec::new(),
            inc_author_pat: Vec::new(),
            badge_pat: Vec::new(),
            exc_msg_pat: Vec::new(),
            exc_author_pat: Vec::new(),
        }
    }
}

/// Whether any pattern of the group matches the text.
pub open spec fn matches_any(pats: Seq<Seq<char>>, text: Seq<char>) -> bool {
    exists|i: int| 0 <= i < pats.len() && regex_match(pats[i], text)
}

/// Whether the message's badge names share an entry with the filter's badge
/// names.
pub open spec fn has_common_badge(names: Seq<Seq<char>>, badges: Seq<Seq<char>>) -> bool {
    exists|i: int, j: int|
        0 <= i < names.len() && 0 <= j < badges.len() && names[i] == badges[j]
}

/// The filter decision, in its fixed short-circuit order: exclusive message
/// patterns, exclusive author patterns, inclusive message patterns,
/// inclusive author patterns, then badges; exclusion always wins.
pub open spec fn spec_accepts(
    f: FilterView,
    payload: Seq<char>,
    login: Seq<char>,
    badge_names: Seq<Seq<char>>,
) -> bool {
    if matches_any(f.exc_msg, payload) {
        false
    } else if matches_any(f.exc_author, login) {
        false
    } else if matches_any(f.inc_msg, payload) {
        true
    } else if matches_any(f.inc_author, login) {
        true
    } else {
        has_common_badge(badge_names, f.badges)
    }
}

/// Exclusion takes precedence over inclusion: a message matched by an
/// exclusive message or exclusive author pattern is rejected, whatever the
/// inclusive patterns or badges say.
pub proof fn lemma_exclusion_wins(
    f: FilterView,
    payload: Seq<char>,
    login: Seq<char>,
    badge_names: Seq<Seq<char>>,
)
    requires
        matches_any(f.exc_msg, payload) || matches_any(f.exc_author, login),
    ensures
        !spec_accepts(f, payload, login, badge_names),
{
}

/// A rejected pattern line, with the compile error the regular expression
/// engine reported for it.
#[derive(Debug)]
pub struct PatternError {
    pub pattern: String,
    pub message: String,
}

/// Whether every clean line of the group text is a valid pattern.
pub open spec fn spec_group_ok(text: Seq<char>) -> bool {
    forall|i: int|
        0 <= i < spec_clean_lines(text).len() ==> regex_ok(#[trigger] spec_clean_lines(text)[i])
}

/// The first invalid line of a group, if any.
pub open spec fn spec_first_bad_line(lines: Seq<Seq<char>>) -> Option<Seq<char>>
    decreases lines.len(),
{
    if lines.len() == 0 {
        None
    } else if !regex_ok(lines[0]) {
        Some(lines[0])
    } else {
        spec_first_bad_line(lines.drop_first())
    }
}

proof fn lemma_first_bad_at(lines: Seq<Seq<char>>, i: int)
    requires
        0 <= i <= lines.len(),
        forall|k: int| 0 <= k < i ==> regex_ok(#[trigger] lines[k]),
    ensures
        i == lines.len() ==> spec_first_bad_line(lines) is None,
        i < lines.len() && !regex_ok(lines[i]) ==> spec_first_bad_line(lines) == Some(lines[i]),
    decreases i,
{
    if i > 0 {
        let d = lines.drop_first();
        lemma_first_bad_at(d, i - 1);
        if i < lines.len() {
            assert(d[i - 1] == lines[i]);
        }
    }
}

/// Compiles one newline-delimited pattern group; the first invalid line
/// aborts the group with that line's error.
fn compile_group(text: &str) -> (r: Result<Vec<Pattern>, PatternError>)
    ensures
        r is Ok <==> spec_group_ok(text@),
        r is Ok ==> r->Ok_0.deep_view() == spec_clean_lines(text@),
        r is Ok ==> spec_first_bad_line(spec_clean_lines(text@)) is None,
        r is Err ==> spec_first_bad_line(spec_clean_lines(text@)) == Some(r->Err_0.pattern@),
{
    let lines = clean_lines(text);
    let ghost lv = lines.deep_view();
    let mut out: Vec<Pattern> = Vec::new();
    let mut i: usize = 0;
    proof {
        assert(out.deep_view() =~~= lv.take(0));
    }
    while i < lines.len()
        invariant
            i <= lines.len(),
            lv == lines.deep_view(),
            lv == spec_clean_lines(text@),
            forall|k: int| 0 <= k < i ==> regex_ok(#[trigger] lv[k]),
            out.deep_view() == lv.take(i as int),
        decreases lines.len() - i,
    {
        let ghost before = out.deep_view();
        match Pattern::compile(lines[i].as_str()) {
            Ok(p) => {
                out.push(p);
                proof {
                    assert(out.deep_view() =~~= before.push(p@));
                    assert(before.push(lv[i as int]) =~~= lv.take(i as int + 1));
                }
            },
            Err(e) => {
                proof {
                    lemma_first_bad_at(lv, i as int);
                }
                return Err(PatternError { pattern: lines[i].clone(), message: e });
            },
        }
        i = i + 1;
    }
    proof {
        lemma_first_bad_at(lv, lv.len() as int);
        assert(lv.take(lv.len() as int) =~~= lv);
    }
    Ok(out)
}

/// The badge names a state's four flags stand for, in their fixed order.
pub open spec fn spec_flag_badges(sv: FilterStateView) -> Seq<Seq<char>> {
    (if sv.broadcaster {
        seq!["broadcaster"@]
    } else {
        Seq::<Seq<char>>::empty()
    }) + (if sv.moderator {
        seq!["moderator"@]
    } else {
        Seq::<Seq<char>>::empty()
    }) + (if sv.vip {
        seq!["vip"@]
    } else {
        Seq::<Seq<char>>::empty()
    }) + (if sv.partner {
        seq!["partner"@]
    } else {
        Seq::<Seq<char>>::empty()
    })
}

/// The compiled value of an editable state: the clean lines of the four
/// groups and the badge names of the four flags.
pub open spec fn spec_filter_of_state(sv: FilterStateView) -> FilterView {
    FilterView {
        inc_msg: spec_clean_lines(sv.inc_msg),
        inc_author: spec_clean_lines(sv.inc_author),
        exc_msg: spec_clean_lines(sv.exc_msg),
        exc_author: spec_clean_lines(sv.exc_author),
        badges: spec_flag_badges(sv),
    }
}

/// Whether every line of every group of the state is a valid pattern.
pub open spec fn spec_state_ok(sv: FilterStateView) -> bool {
    &&& spec_group_ok(sv.inc_msg)
    &&& spec_group_ok(sv.inc_author)
    &&& spec_group_ok(sv.exc_msg)
    &&& spec_group_ok(sv.exc_author)
}

/// The first invalid line of the state, in group order: inclusive message,
/// inclusive author, exclusive message, exclusive author.
pub open spec fn spec_first_bad_state(sv: FilterStateView) -> Option<Seq<char>> {
    match spec_first_bad_line(spec_clean_lines(sv.inc_msg)) {
        Some(l) => Some(l),
        None => match spec_first_bad_line(spec_clean_lines(sv.inc_author)) {
            Some(l) => Some(l),
            None => match spec_first_bad_line(spec_clean_lines(sv.exc_msg)) {
                Some(l) => Some(l),
                None => spec_first_bad_line(spec_clean_lines(sv.exc_author)),
            },
        },
    }
}

impl Filter {
    /// Compiles an editable state into a filter: blank lines are skipped,
    /// and the first invalid pattern aborts the whole compilation with that
    /// line's error, so a failed edit leaves the previous filter intact.
    pub fn compile(state: &FilterState) -> (r: Result<Filter, PatternError>)
        ensures
            r is Ok <==> spec_state_ok(state.deep_view()),
            r is Ok ==> r->Ok_0@ == spec_filter_of_state(state.deep_view()),
            r is Err ==> spec_first_bad_state(state.deep_view()) == Some(r->Err_0.pattern@),
    {
        let inc_msg_pat = match compile_group(state.inc_msg.as_str()) {
            Ok(v) => v,
            Err(e) => {
                return Err(e);
            },
        };
        let inc_author_pat = match compile_group(state.inc_author.as_str()) {
            Ok(v) => v,
            Err(e) => {
                return Err(e);
            },
        };
        let exc_msg_pat = match compile_group(state.exc_msg.as_str()) {
            Ok(v) => v,
            Err(e) => {
                return Err(e);
            },
        };
        let exc_author_pat = match compile_group(state.exc_author.as_str()) {
            Ok(v) => v,
            Err(e) => {
                return Err(e);
            },
        };
        let mut badge_pat: Vec<String> = Vec::new();
        if state.broadcaster {
            badge_pat.push(BROADCASTER_BADGE_NAME.to_owned());
        }
        if state.moderator {
            badge_pat.push(MODERATOR_BADGE_NAME.to_owned());
        }
        if state.vip {
            badge_pat.push(VIP_BADGE_NAME.to_owned());
        }
        if state.partner {
            badge_pat.push(PARTNER_BADGE_NAME.to_owned());
        }
        proof {
            assert(badge_pat.deep_view() =~~= spec_flag_badges(state.deep_view()));
        }
        let f = Filter { inc_msg_pat, inc_author_pat, badge_pat, exc_msg_pat, exc_author_pat };
        proof {
            assert(f@ =~~= spec_filter_of_state(state.deep_view()));
        }
        Ok(f)
    }

    /// Replaces the inclusive message patterns.
    pub fn set_msg_pat(&mut self, pat: Vec<Pattern>)
        ensures
            final (self)@ == (FilterView { inc_msg: pat.deep_view(), ..old(self)@ }),
    {
        self.inc_msg_pat = pat;
    }

    /// Replaces the inclusive author patterns.
    pub fn set_author_pat(&mut self, pat: Vec<Pattern>)
        ensures
            final (self)@ == (FilterView { inc_author: pat.deep_view(), ..old(self)@ }),
    {
        self.inc_author_pat = pat;
    }

    /// Replaces the badge names.
    pub fn set_badge_pat(&mut self, pat: Vec<String>)
        ensures
            final (self)@ == (FilterView { badges: pat.deep_view(), ..old(self)@ }),
    {
        self.badge_pat = pat;
    }

    /// Appends one compiled pattern to the inclusive author group.
    pub fn add_author_pat(&mut self, pat: Pattern)
        ensures
            final (self)@ == (FilterView {
                inc_author: old(self)@.inc_author.push(pat@),
                ..old(self)@
            }),
    {
        let ghost before = self.inc_author_pat.deep_view();
        self.inc_author_pat.push(pat);
        proof {
            assert(self.inc_author_pat.deep_view() =~~= before.push(pat@));
        }
    }

    /// Appends one compiled pattern to the exclusive author group.
    pub fn add_exc_author_pat(&mut self, pat: Pattern)
        ensures
            final (self)@ == (FilterView {
                exc_author: old(self)@.exc_author.push(pat@),
                ..old(self)@
            }),
    {
        let ghost before = self.exc_author_pat.deep_view();
        self.exc_author_pat.push(pat);
        proof {
            assert(self.exc_author_pat.deep_view() =~~= before.push(pat@));
        }
    }

    /// Decides whether the message belongs to the filtered subset, in the
    /// fixed order in which exclusion always wins.
    pub fn test(&self, msg: &TwitchMsg) -> (r: bool)
        ensures
            r == spec_accepts(self@, msg@.payload, msg@.login, spec_badge_names(msg@.tags)),
    {
        if any_match(&self.exc_msg_pat, msg.payload()) {
            return false;
        }
        if any_match(&self.exc_author_pat, msg.sender_login()) {
            return false;
        }
        if any_match(&self.inc_msg_pat, msg.payload()) {
            return true;
        }
        if any_match(&self.inc_author_pat, msg.sender_login()) {
            return true;
        }
        let badges = msg.badges();
        let ghost names = spec_badge_names(msg@.tags);
        let ghost bp = self.badge_pat.deep_view();
        let mut i: usize = 0;
        while i < badges.len()
            invariant
                i <= badges.len(),
                !matches_any(self@.exc_msg, msg@.payload),
                !matches_any(self@.exc_author, msg@.login),
                names == spec_badge_names(msg@.tags),
                badges.deep_view() == spec_badges(msg@.tags),
                names.len() == badges.len(),
                forall|k: int| 0 <= k < badges.len() ==> names[k] == badges.deep_view()[k].0,
                bp == self.badge_pat.deep_view(),
                forall|k: int, j: int|
                    0 <= k < i && 0 <= j < bp.len() ==> names[k] != bp[j],
            decreases badges.len() - i,
        {
            let mut j: usize = 0;
            while j < self.badge_pat.len()
                invariant
                    i < badges.len(),
                    j <= self.badge_pat.len(),
                    !matches_any(self@.exc_msg, msg@.payload),
                    !matches_any(self@.exc_author, msg@.login),
                    names == spec_badge_names(msg@.tags),
                    badges.deep_view() == spec_badges(msg@.tags),
                    names.len() == badges.len(),
                    forall|k: int| 0 <= k < badges.len() ==> names[k] == badges.deep_view()[k].0,
                    bp == self.badge_pat.deep_view(),
                    forall|jj: int| 0 <= jj < j ==> names[i as int] != bp[jj],
                decreases self.badge_pat.len() - j,
            {
                if str_eq(badges[i].0.as_str(), self.badge_pat[j].as_str()) {
                    proof {
                        assert(badges.deep_view()[i as int].0 == badges@[i as int].0@);
                        assert(bp[j as int] == self.badge_pat@[j as int]@);
                        assert(names[i as int] == bp[j as int]);
                        assert(has_common_badge(names, self@.badges));
                    }
                    return true;
                }
                j = j + 1;
            }
            i = i + 1;
        }
        proof {
            assert(!has_common_badge(names, self@.badges));
        }
        false
    }
}

/// Whether any pattern of the group matches the text; the executable side of
/// `matches_any`.
fn any_match(pats: &Vec<Pattern>, text: &str) -> (r: bool)
    ensures
        r == matches_any(pats.deep_view(), text@),
{
    let mut i: usize = 0;
    while i < pats.len()
        invariant
            i <= pats.len(),
            forall|k: int| 0 <= k < i ==> !regex_match(pats.deep_view()[k], text@),
        decreases pats.len() - i,
    {
        if pats[i].is_match(text) {
            proof {
                assert(regex_match(pats.deep_view()[i as int], text@));
            }
            return true;
        }
        i = i + 1;
    }
    false
}

/// The members of `v`, character for character.
fn contains_str(v: &Vec<String>, s: &str) -> (r: bool)
    ensures
        r == v.deep_view().contains(s@),
{
    let mut i: usize = 0;
    while i < v.len()
        invariant
            i <= v.len(),
            forall|k: int| 0 <= k < i ==> v.deep_view()[k] != s@,
        decreases v.len() - i,
    {
        if str_eq(v[i].as_str(), s) {
            proof {
                assert(v.deep_view()[i as int] == v@[i as int]@);
                assert(v.deep_view().contains(s@));
            }
            return true;
        }
        i = i + 1;
    }
    false
}

/// The editable representation a compiled filter reads back as: each group's
/// pattern sources joined with newlines, and one flag per badge name.
pub open spec fn spec_state_of_filter(fv: FilterView) -> FilterStateView {
    FilterStateView {
        inc_msg: spec_join(fv.inc_msg, '\n'),
        inc_author: spec_join(fv.inc_author, '\n'),
        exc_msg: spec_join(fv.exc_msg, '\n'),
        exc_author: spec_join(fv.exc_author, '\n'),
        broadcaster: fv.badges.contains("broadcaster"@),
        moderator: fv.badges.contains("moderator"@),
        vip: fv.badges.contains("vip"@),
        partner: fv.badges.contains("partner"@),
    }
}

fn group_sources(pats: &Vec<Pattern>) -> (r: Vec<String>)
    ensures
        r.deep_view() == pats.deep_view(),
{
    let mut out: Vec<String> = Vec::new();
    let mut i: usize = 0;
    while i < pats.len()
        invariant
            i <= pats.len(),
            out.deep_view() == pats.deep_view().take(i as int),
        decreases pats.len() - i,
    {
        let ghost before = out.deep_view();
        out.push(pats[i].as_str().to_owned());
        proof {
            assert(out.deep_view() =~~= before.push(pats.deep_view()[i as int]));
            assert(before.push(pats.deep_view()[i as int]) =~~= pats.deep_view().take(i as int + 1));
        }
        i = i + 1;
    }
    proof {
        assert(pats.deep_view().take(pats.len() as int) =~~= pats.deep_view());
    }
    out
}

proof fn lemma_badge_round_trip(fv: FilterView, names: Seq<Seq<char>>)
    requires
        forall|j: int|
            0 <= j < fv.badges.len() ==> #[trigger] fv.badges[j] == "broadcaster"@
                || fv.badges[j] == "moderator"@ || fv.badges[j] == "vip"@ || fv.badges[j]
                == "partner"@,
    ensures
        has_common_badge(names, spec_flag_badges(spec_state_of_filter(fv))) == has_common_badge(
            names,
            fv.badges,
        ),
{
    let l1 = "broadcaster"@;
    let l2 = "moderator"@;
    let l3 = "vip"@;
    let l4 = "partner"@;
    let c1 = fv.badges.contains(l1);
    let c2 = fv.badges.contains(l2);
    let c3 = fv.badges.contains(l3);
    let c4 = fv.badges.contains(l4);
    let s1: Seq<Seq<char>> = if c1 {
        seq![l1]
    } else {
        Seq::<Seq<char>>::empty()
    };
    let s2: Seq<Seq<char>> = if c2 {
        seq![l2]
    } else {
        Seq::<Seq<char>>::empty()
    };
    let s3: Seq<Seq<char>> = if c3 {
        seq![l3]
    } else {
        Seq::<Seq<char>>::empty()
    };
    let s4: Seq<Seq<char>> = if c4 {
        seq![l4]
    } else {
        Seq::<Seq<char>>::empty()
    };
    let flags = spec_flag_badges(spec_state_of_filter(fv));
    assert(flags == s1 + s2 + s3 + s4);
    assert forall|j: int| 0 <= j < flags.len() implies fv.badges.contains(#[trigger] flags[j]) by {
        assert((flags[j] == l1 && c1) || (flags[j] == l2 && c2) || (flags[j] == l3 && c3) || (
        flags[j] == l4 && c4));
    }
    if has_common_badge(names, flags) {
        let (i, j) = choose|i: int, j: int|
            0 <= i < names.len() && 0 <= j < flags.len() && names[i] == flags[j];
        assert(fv.badges.contains(flags[j]));
        let k = choose|k: int| 0 <= k < fv.badges.len() && fv.badges[k] == flags[j];
        assert(names[i] == fv.badges[k]);
        assert(has_common_badge(names, fv.badges));
    }
    if has_common_badge(names, fv.badges) {
        let (i, k) = choose|i: int, k: int|
            0 <= i < names.len() && 0 <= k < fv.badges.len() && names[i] == fv.badges[k];
        let b = fv.badges[k];
        if b == l1 {
            assert(c1);
            assert(flags[0] == l1);
        } else if b == l2 {
            assert(c2);
            assert(flags[s1.len() as int] == l2);
        } else if b == l3 {
            assert(c3);
            assert(flags[s1.len() + s2.len() as int] == l3);
        } else {
            assert(b == l4);
            assert(c4);
            assert(flags[s1.len() + s2.len() + s3.len() as int] == l4);
        }
        assert(has_common_badge(names, flags));
    }
}

/// Round trip of the editable representation: reading a compiled filter
/// back into its state and compiling that state again yields a filter with
/// the same decision on every message — provided each pattern source is a
/// single clean line and each badge name is one the state can carry.
pub proof fn lemma_filter_state_round_trip(
    fv: FilterView,
    payload: Seq<char>,
    login: Seq<char>,
    badge_names: Seq<Seq<char>>,
)
    requires
        forall|i: int| 0 <= i < fv.inc_msg.len() ==> line_clean(#[trigger] fv.inc_msg[i]),
        forall|i: int| 0 <= i < fv.inc_author.len() ==> line_clean(#[trigger] fv.inc_author[i]),
        forall|i: int| 0 <= i < fv.exc_msg.len() ==> line_clean(#[trigger] fv.exc_msg[i]),
        forall|i: int| 0 <= i < fv.exc_author.len() ==> line_clean(#[trigger] fv.exc_author[i]),
        forall|j: int|
            0 <= j < fv.badges.len() ==> #[trigger] fv.badges[j] == "broadcaster"@
                || fv.badges[j] == "moderator"@ || fv.badges[j] == "vip"@ || fv.badges[j]
                == "partner"@,
    ensures
        spec_accepts(spec_filter_of_state(spec_state_of_filter(fv)), payload, login, badge_names)
            == spec_accepts(fv, payload, login, badge_names),
{
    lemma_clean_lines_of_join(fv.inc_msg);
    lemma_clean_lines_of_join(fv.inc_author);
    lemma_clean_lines_of_join(fv.exc_msg);
    lemma_clean_lines_of_join(fv.exc_author);
    lemma_badge_round_trip(fv, badge_names);
}

impl FilterState {
    /// Reads a compiled filter back into its editable representation.
    pub fn from_filter(f: &Filter) -> (st: FilterState)
        ensures
            st.deep_view() == spec_state_of_filter(f@),
    {
        let inc_msg_v = group_sources(&f.inc_msg_pat);
        let inc_author_v = group_sources(&f.inc_author_pat);
        let exc_msg_v = group_sources(&f.exc_msg_pat);
        let exc_author_v = group_sources(&f.exc_author_pat);
        let st = FilterState {
            inc_msg: join_with(&inc_msg_v, '\n'),
            inc_author: join_with(&inc_author_v, '\n'),
            exc_msg: join_with(&exc_msg_v, '\n'),
            exc_author: join_with(&exc_author_v, '\n'),
            broadcaster: contains_str(&f.badge_pat, BROADCASTER_BADGE_NAME),
            moderator: contains_str(&f.badge_pat, MODERATOR_BADGE_NAME),
            vip: contains_str(&f.badge_pat, VIP_BADGE_NAME),
            partner: contains_str(&f.badge_pat, PARTNER_BADGE_NAME),
        };
        st
    }
}

} // verus!
