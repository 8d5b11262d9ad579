//! Transcript lines: the exact text appended to a transcript sink for one
//! message. The caller performs the file append and reports failures back
//! to the channel's sink status.

use vstd::prelude::*;
use vstd::string::StringExecFns;

use crate::message::{MsgView, TwitchMsg};

verus! {

/// The transcript line for one message:
/// `<time> <display>(<login>): <payload>` and a newline.
pub open spec fn spec_transcript_line(time: Seq<char>, m: MsgView) -> Seq<char> {
    time + " "@ + m.display + "("@ + m.login + "): "@ + m.payload + "\n"@
}

/// Renders the transcript line for `msg` with an already-formatted time.
pub fn msg_to_str(time: &str, msg: &TwitchMsg) -> (r: String)
    ensures
        r@ == spec_transcript_line(time@, msg@),
{
    let mut r = time.to_owned();
    r.append(" ");
    r.append(msg.sender_display());
    r.append("(");
    r.append(msg.sender_login());
    r.append("): ");
    r.append(msg.payload());
    r.append("\n");
    r
}

/// Relies on chrono's `Local` time zone: renders a millisecond timestamp as
/// `YYYY-MM-DD HH:MM:SS` in the machine's local zone; the result depends on
/// that zone, so nothing is claimed of it.
#[verifier::external_body]
fn format_local_millis(ms: i64) -> String {
    match chrono::TimeZone::timestamp_millis_opt(&chrono::Local, ms) {
        chrono::LocalResult::Single(dt) => dt.format("%Y-%m-%d %H:%M:%S").to_string(),
        _ => String::new(),
    }
}

/// The transcript line for `msg`, its timestamp rendered in the machine's
/// local time zone; a message without a readable timestamp is rendered at
/// the epoch.
pub fn transcript_line_local(msg: &TwitchMsg) -> (r: String)
    ensures
        exists|t: Seq<char>| r@ == spec_transcript_line(t, msg@),
{
    let ms = match msg.sent_time() {
        Some(v) => v,
        None => 0,
    };
    let time = format_local_millis(ms);
    let r = msg_to_str(time.as_str(), msg);
    proof {
        assert(r@ == spec_transcript_line(time@, msg@));
    }
    r
}

} // verus!
