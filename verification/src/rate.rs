//! Frames-per-second bookkeeping.
//!
//! The tracker tallies frames accepted since the last measurement window
//! boundary.  On a tick at least one window length after the boundary, the
//! rate becomes `tally` frames over the elapsed time — kept as the exact
//! pair (frames, elapsed milliseconds), so fractional seconds lose nothing
//! and no drift accumulates over slightly-long ticks — the tally resets to
//! zero and the boundary moves to the tick's time.  The caller supplies the
//! clock readings, in milliseconds.

use vstd::prelude::*;

verus! {

/// Length of one measurement window, in milliseconds.
pub const RATE_WINDOW_MS: u64 = 1000;

/// Running tally of accepted frames plus the most recently computed rate.
pub struct RateTracker {
    window_start_ms: u64,
    tally: u64,
    rate_frames: u64,
    rate_window_ms: u64,
}

impl RateTracker {
    /// Clock reading at the start of the current measurement window.
    pub closed spec fn spec_window_start_ms(self) -> u64 {
        self.window_start_ms
    }

    /// Frames accepted since the current window started.
    pub closed spec fn spec_tally(self) -> u64 {
        self.tally
    }

    /// Numerator of the last computed rate: frames in the last full window.
    pub closed spec fn spec_rate_frames(self) -> u64 {
        self.rate_frames
    }

    /// Denominator of the last computed rate: that window's real length in
    /// milliseconds; zero until a first window has completed.
    pub closed spec fn spec_rate_window_ms(self) -> u64 {
        self.rate_window_ms
    }

    /// A tracker whose first window starts at `now_ms`, with no rate yet.
    pub fn new(now_ms: u64) -> (r: RateTracker)
        ensures
            r.spec_window_start_ms() == now_ms,
            r.spec_tally() == 0,
            r.spec_rate_frames() == 0,
            r.spec_rate_window_ms() == 0,
    {
        RateTracker { window_start_ms: now_ms, tally: 0, rate_frames: 0, rate_window_ms: 0 }
    }

    /// Counts one accepted frame toward the current window.
    pub fn record_frame(&mut self)
        requires
            old(self).spec_tally() < u64::MAX,
        ensures
            final(self).spec_tally() == old(self).spec_tally() + 1,
            final(self).spec_window_start_ms() == old(self).spec_window_start_ms(),
            final(self).spec_rate_frames() == old(self).spec_rate_frames(),
            final(self).spec_rate_window_ms() == old(self).spec_rate_window_ms(),
    {
        self.tally = self.tally + 1;
    }

    /// One renderer tick at clock reading `now_ms`.  Exactly when at least
    /// one window length has elapsed since the window boundary, the rate
    /// becomes the tally over the elapsed milliseconds, the tally resets to
    /// zero and the boundary moves to `now_ms`; otherwise nothing changes.
    pub fn tick(&mut self, now_ms: u64) -> (updated: bool)
        ensures
            updated == (now_ms >= old(self).spec_window_start_ms()
                && now_ms - old(self).spec_window_start_ms() >= RATE_WINDOW_MS),
            updated ==> {
                &&& final(self).spec_rate_frames() == old(self).spec_tally()
                &&& final(self).spec_rate_window_ms()
                    == now_ms - old(self).spec_window_start_ms()
                &&& final(self).spec_tally() == 0
                &&& final(self).spec_window_start_ms() == now_ms
            },
            !updated ==> *final(self) == *old(self),
    {
        if now_ms >= self.window_start_ms && now_ms - self.window_start_ms >= RATE_WINDOW_MS {
            self.rate_frames = self.tally;
            self.rate_window_ms = now_ms - self.window_start_ms;
            self.tally = 0;
            self.window_start_ms = now_ms;
            true
        } else {
            false
        }
    }

    /// The last computed rate, as the exact pair (frames, window length in
    /// milliseconds); the window length is zero until a first window has
    /// completed.
    pub fn rate(&self) -> (r: (u64, u64))
        ensures
            r.0 == self.spec_rate_frames(),
            r.1 == self.spec_rate_window_ms(),
    {
        (self.rate_frames, self.rate_window_ms)
    }

    /// Frames accepted since the current window started.
    pub fn tally(&self) -> (t: u64)
        ensures
            t == self.spec_tally(),
    {
        self.tally
    }
}

} // verus!
