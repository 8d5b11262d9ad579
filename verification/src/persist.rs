//! The persisted-state layout: per channel its name, enabled flag, filter
//! representation, transcript paths and alert flag, plus the global
//! defaults. The encoding itself belongs to the persistence collaborator;
//! the core only reads and produces these records.

use vstd::prelude::*;

use crate::channel::{ChannelManager, ChannelView};
use crate::filter::{
    spec_filter_of_state, spec_first_bad_state, spec_state_of_filter, spec_state_ok, Filter,
    FilterState, FilterStateView, PatternError,
};
use crate::text::lower_of;

verus! {

/// The saved record of one channel.
pub struct ChannelSaveState {
    pub name: String,
    pub enabled: bool,
    pub filter: FilterState,
    pub log_status: Option<String>,
    pub filtered_log_status: Option<String>,
    pub alert: bool,
}

/// The mathematical value of a channel's saved record.
pub struct ChannelSaveView {
    pub name: Seq<char>,
    pub enabled: bool,
    pub filter: FilterStateView,
    pub log_status: Option<Seq<char>>,
    pub filtered_log_status: Option<Seq<char>>,
    pub alert: bool,
}

impl DeepView for ChannelSaveState {
    type V = ChannelSaveView;

    open spec fn deep_view(&self) -> ChannelSaveView {
        ChannelSaveView {
            name: self.name@,
            enabled: self.enabled,
            filter: self.filter.deep_view(),
            log_status: match self.log_status {
                Some(p) => Some(p@),
                None => None,
            },
            filtered_log_status: match self.filtered_log_status {
                Some(p) => Some(p@),
                None => None,
            },
            alert: self.alert,
        }
    }
}

/// The saved record of the whole application's core state.
pub struct AppSaveState {
    pub channels: Vec<ChannelSaveState>,
    pub def_filter: FilterState,
    pub username: String,
    pub access_token: String,
    pub max_msg_count: usize,
}

/// The record one channel saves as: its name, whether it was connected, the
/// filter read back into its editable form, the transcript paths of the
/// sinks that have no recorded error, and the alert flag.
pub open spec fn spec_save_of_channel(c: ChannelView) -> ChannelSaveView {
    ChannelSaveView {
        name: c.channel_name,
        enabled: c.connected,
        filter: spec_state_of_filter(c.filter),
        log_status: match c.log {
            Some(s) => if s.error is None {
                Some(s.path)
            } else {
                None
            },
            None => None,
        },
        filtered_log_status: match c.log_filtered {
            Some(s) => if s.error is None {
                Some(s.path)
            } else {
                None
            },
            None => None,
        },
        alert: c.alert,
    }
}

/// Snapshots one channel into its saved record.
pub fn save_channel(mgr: &ChannelManager) -> (r: ChannelSaveState)
    ensures
        r.deep_view() == spec_save_of_channel(mgr@),
{
    ChannelSaveState {
        name: mgr.channel_name().to_owned(),
        enabled: mgr.is_connected(),
        filter: mgr.get_filter_state(),
        log_status: match mgr.log_status() {
            Some(Ok(p)) => Some(p),
            _ => None,
        },
        filtered_log_status: match mgr.filtered_log_status() {
            Some(Ok(p)) => Some(p),
            _ => None,
        },
        alert: mgr.alert(),
    }
}

/// Rebuilds one channel from its record: a fresh state with empty buffers,
/// the compiled filter, the saved transcript sinks and alert flag. The
/// caller connects it if the record was enabled. The first bad pattern
/// aborts the restore with that line's error.
pub fn restore_channel(save: &ChannelSaveState, max_msg_count: usize) -> (r: Result<
    ChannelManager,
    PatternError,
>)
    ensures
        r is Ok <==> spec_state_ok(save.deep_view().filter),
        r is Ok ==> ({
            let m = r->Ok_0@;
            &&& m.channel_name == lower_of(save.deep_view().name)
            &&& !m.connected
            &&& m.msgs.len() == 0
            &&& m.filtered.len() == 0
            &&& m.filter == spec_filter_of_state(save.deep_view().filter)
            &&& m.max_msg_count == max_msg_count as nat
            &&& m.log == (match save.deep_view().log_status {
                Some(p) => Some(crate::channel::SinkView { path: p, error: None }),
                None => None,
            })
            &&& m.log_filtered == (match save.deep_view().filtered_log_status {
                Some(p) => Some(crate::channel::SinkView { path: p, error: None }),
                None => None,
            })
            &&& m.alert == save.deep_view().alert
            &&& !m.unread
        }),
        r is Err ==> spec_first_bad_state(save.deep_view().filter) == Some(r->Err_0.pattern@),
{
    let f = match Filter::compile(&save.filter) {
        Ok(f) => f,
        Err(e) => {
            return Err(e);
        },
    };
    let mut m = ChannelManager::new(save.name.as_str(), max_msg_count, f);
    m.set_log(
        match &save.log_status {
            Some(p) => Some(p.clone()),
            None => None,
        },
    );
    m.set_filtered_log(
        match &save.filtered_log_status {
            Some(p) => Some(p.clone()),
            None => None,
        },
    );
    m.set_alert(save.alert);
    Ok(m)
}

/// Snapshots every channel, in list order.
pub fn save_channels(list: &Vec<ChannelManager>) -> (r: Vec<ChannelSaveState>)
    ensures
        r.deep_view().len() == list@.len(),
        forall|i: int|
            0 <= i < list@.len() ==> r.deep_view()[i] == spec_save_of_channel(list@[i]@),
{
    let mut r: Vec<ChannelSaveState> = Vec::new();
    let mut i: usize = 0;
    while i < list.len()
        invariant
            i <= list@.len(),
            r.deep_view().len() == i,
            forall|k: int| 0 <= k < i ==> r.deep_view()[k] == spec_save_of_channel(list@[k]@),
        decreases list@.len() - i,
    {
        let ghost before = r.deep_view();
        let s = save_channel(&list[i]);
        r.push(s);
        proof {
            assert(r.deep_view() =~~= before.push(s.deep_view()));
        }
        i = i + 1;
    }
    r
}

/// The filter representation of the first channel record that does not
/// compile, if any.
pub open spec fn spec_first_bad_save(saves: Seq<ChannelSaveView>) -> Option<FilterStateView>
    decreases saves.len(),
{
    if saves.len() == 0 {
        None
    } else if !spec_state_ok(saves[0].filter) {
        Some(saves[0].filter)
    } else {
        spec_first_bad_save(saves.drop_first())
    }
}

proof fn lemma_first_bad_save_at(saves: Seq<ChannelSaveView>, i: int)
    requires
        0 <= i <= saves.len(),
        forall|k: int| 0 <= k < i ==> spec_state_ok(#[trigger] saves[k].filter),
    ensures
        i == saves.len() ==> spec_first_bad_save(saves) is None,
        i < saves.len() && !spec_state_ok(saves[i].filter) ==> spec_first_bad_save(saves) == Some(
            saves[i].filter,
        ),
    decreases i,
{
    if i > 0 {
        let d = saves.drop_first();
        lemma_first_bad_save_at(d, i - 1);
        if i < saves.len() {
            assert(d[i - 1] == saves[i]);
        }
    }
}

/// Rebuilds every channel of a saved record; the first channel whose filter
/// does not compile aborts the restore with that pattern's error, as one
/// bad record must not install half a configuration.
pub fn restore_channels(saves: &Vec<ChannelSaveState>, max_msg_count: usize) -> (r: Result<
    Vec<ChannelManager>,
    PatternError,
>)
    ensures
        r is Ok <==> (forall|i: int|
            0 <= i < saves@.len() ==> spec_state_ok(#[trigger] saves.deep_view()[i].filter)),
        r is Ok ==> r->Ok_0@.len() == saves@.len(),
        r is Ok ==> (forall|i: int|
            0 <= i < saves@.len() ==> {
                let m = #[trigger] r->Ok_0@[i]@;
                &&& m.channel_name == lower_of(saves.deep_view()[i].name)
                &&& m.msgs.len() == 0
                &&& m.filtered.len() == 0
                &&& m.filter == spec_filter_of_state(saves.deep_view()[i].filter)
                &&& m.max_msg_count == max_msg_count as nat
                &&& m.alert == saves.deep_view()[i].alert
            }),
        r is Err ==> spec_first_bad_save(saves.deep_view()) is Some && spec_first_bad_state(
            spec_first_bad_save(saves.deep_view())->0,
        ) == Some(r->Err_0.pattern@),
{
    let mut out: Vec<ChannelManager> = Vec::new();
    let mut i: usize = 0;
    while i < saves.len()
        invariant
            i <= saves@.len(),
            out@.len() == i,
            forall|k: int| 0 <= k < i ==> spec_state_ok(#[trigger] saves.deep_view()[k].filter),
            forall|k: int|
                0 <= k < i ==> {
                    let m = #[trigger] out@[k]@;
                    &&& m.channel_name == lower_of(saves.deep_view()[k].name)
                    &&& m.msgs.len() == 0
                    &&& m.filtered.len() == 0
                    &&& m.filter == spec_filter_of_state(saves.deep_view()[k].filter)
                    &&& m.max_msg_count == max_msg_count as nat
                    &&& m.alert == saves.deep_view()[k].alert
                },
        decreases saves@.len() - i,
    {
        proof {
            assert(saves.deep_view()[i as int] == saves@[i as int].deep_view());
        }
        match restore_channel(&saves[i], max_msg_count) {
            Ok(m) => {
                out.push(m);
            },
            Err(e) => {
                proof {
                    assert(!spec_state_ok(saves.deep_view()[i as int].filter));
                    lemma_first_bad_save_at(saves.deep_view(), i as int);
                }
                return Err(e);
            },
        }
        i = i + 1;
    }
    Ok(out)
}

} // verus!
