//! The alert debouncer: an audible cue plays at most once per fixed
//! cooldown window; requests inside the window are dropped, never queued.

use vstd::prelude::*;

verus! {

/// The cooldown between two audible plays, in milliseconds.
pub const ALERT_COOLDOWN_MS: u64 = 10000;

/// The debouncer decision: play if nothing has played yet, or the cooldown
/// has fully elapsed since the last play.
pub open spec fn spec_should_play(last: Option<u64>, now: u64) -> bool {
    match last {
        None => true,
        Some(l) => now >= l && now - l >= ALERT_COOLDOWN_MS,
    }
}

/// The alert rate limiter. Its state is the time of the last actual play;
/// it is intentionally lossy: a request inside the cooldown window is
/// dropped, not buffered.
pub struct AlertDebouncer {
    last_play: Option<u64>,
}

impl View for AlertDebouncer {
    type V = Option<u64>;

    closed spec fn view(&self) -> Option<u64> {
        self.last_play
    }
}

impl AlertDebouncer {
    /// A fresh debouncer; its first request always plays.
    pub fn new() -> (r: AlertDebouncer)
        ensures
            r@ is None,
    {
        AlertDebouncer { last_play: None }
    }

    /// Decides one play request arriving at `now_ms`: inside the cooldown
    /// window the request is dropped; otherwise it plays and the play time
    /// is recorded.
    pub fn request(&mut self, now_ms: u64) -> (play: bool)
        ensures
            play == spec_should_play(old(self)@, now_ms),
            final (self)@ == if play {
                Some(now_ms)
            } else {
                old(self)@
            },
    {
        let play = match self.last_play {
            None => true,
            Some(l) => now_ms >= l && now_ms - l >= ALERT_COOLDOWN_MS,
        };
        if play {
            self.last_play = Some(now_ms);
        }
        play
    }
}

/// Debounce law: after a play at time `t`, a second request `dt` later is
/// dropped inside the cooldown window and plays at or past it — so two
/// triggers one second apart produce one play, and two triggers eleven
/// seconds apart produce two.
pub proof fn lemma_debounce_window(t: u64, dt: u64)
    requires
        t + dt <= u64::MAX,
    ensures
        spec_should_play(Some(t), (t + dt) as u64) == (dt >= ALERT_COOLDOWN_MS),
{
}

} // verus!
