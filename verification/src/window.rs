//! Voting window timing.
//!
//! A window tracks when voting started, how long it nominally runs, a
//! grace period for a final late evaluation, and any accumulated
//! extension.  All timing is a pure function of a caller-supplied
//! timestamp in whole seconds; nothing here reads a clock.

use vstd::prelude::*;

verus! {

/// Bound on the magnitude of any timestamp handled by the library, in
/// seconds since the epoch (roughly 126 millennia): keeps every time
/// difference representable in `i64`.
pub const MAX_TIME: i64 = 4000000000000;

/// Bound on any single duration, grace period or accumulated extension,
/// in seconds.
pub const MAX_DURATION: u64 = 4000000000000;

/// Coarse lifecycle classification of a voting window.
#[derive(Clone, Copy, Debug, PartialEq, Eq, Structural)]
pub enum WindowState {
    /// Voting has not yet started.
    NotStarted,
    /// Voting is open and no extension has been granted.
    Open,
    /// Voting is open and the window has been extended at least once.
    Extended,
    /// Past the nominal end, within the grace period.
    GracePeriod,
    /// Past the grace period as well.
    Expired,
}

/// Position within an active voting period, by thirds.
#[derive(Clone, Copy, Debug, PartialEq, Eq, Structural)]
pub enum VotingPhase {
    /// First third of the effective duration.
    Early,
    /// Middle third.
    Mid,
    /// Final third and beyond.
    Late,
}

/// Timing state of one proposal's voting period.
#[derive(Clone, Copy, Debug)]
pub struct VotingWindow {
    /// When voting begins, in seconds since the epoch.
    pub start_time: i64,
    /// Base duration of the voting period in seconds.
    pub duration: u64,
    /// Grace period after voting ends, in seconds.
    pub grace_period: u64,
    /// Additional seconds granted through extensions.
    pub extended_by: u64,
}

impl VotingWindow {
    /// Field bounds under which all window arithmetic is exact.
    pub open spec fn wf(self) -> bool {
        &&& -MAX_TIME <= self.start_time <= MAX_TIME
        &&& self.duration <= MAX_DURATION
        &&& self.grace_period <= MAX_DURATION
        &&& self.extended_by <= MAX_DURATION
    }

    /// Seconds since voting started; zero for a `now` before the start.
    pub open spec fn spec_elapsed(self, now: int) -> int {
        if now >= self.start_time {
            now - self.start_time
        } else {
            0
        }
    }

    /// Effective total duration: base duration plus accumulated extension.
    pub open spec fn spec_total(self) -> int {
        self.duration + self.extended_by
    }

    pub open spec fn spec_state(self, now: int) -> WindowState {
        if now < self.start_time {
            WindowState::NotStarted
        } else if self.spec_elapsed(now) <= self.spec_total() {
            if self.extended_by > 0 {
                WindowState::Extended
            } else {
                WindowState::Open
            }
        } else if self.spec_elapsed(now) <= self.spec_total() + self.grace_period {
            WindowState::GracePeriod
        } else {
            WindowState::Expired
        }
    }

    pub open spec fn spec_phase(self, now: int) -> VotingPhase {
        let e = self.spec_elapsed(now);
        let total = self.spec_total();
        if e <= total / 3 {
            VotingPhase::Early
        } else if e <= 2 * total / 3 {
            VotingPhase::Mid
        } else {
            VotingPhase::Late
        }
    }

    /// Creates a window that starts at `start_time`, runs for `duration`
    /// seconds and allows a final evaluation for `grace_period` more.
    pub fn new(start_time: i64, duration: u64, grace_period: u64) -> (w: Self)
        requires
            -MAX_TIME <= start_time <= MAX_TIME,
            duration <= MAX_DURATION,
            grace_period <= MAX_DURATION,
        ensures
            w == (VotingWindow { start_time, duration, grace_period, extended_by: 0 }),
            w.wf(),
    {
        VotingWindow { start_time, duration, grace_period, extended_by: 0 }
    }

    /// Whole seconds elapsed since the start; zero if voting has not begun.
    pub fn elapsed(&self, now: i64) -> (e: u64)
        requires
            self.wf(),
            -MAX_TIME <= now <= MAX_TIME,
        ensures
            e as int == self.spec_elapsed(now as int),
    {
        if now >= self.start_time {
            (now - self.start_time) as u64
        } else {
            0
        }
    }

    /// The effective total duration, extensions included.
    pub fn total_duration(&self) -> (t: u64)
        requires
            self.wf(),
        ensures
            t as int == self.spec_total(),
    {
        self.duration + self.extended_by
    }

    /// Derived lifecycle state at `now`; recomputed on every call, never
    /// stored.
    pub fn state(&self, now: i64) -> (s: WindowState)
        requires
            self.wf(),
            -MAX_TIME <= now <= MAX_TIME,
        ensures
            s == self.spec_state(now as int),
    {
        let elapsed = self.elapsed(now);
        if now < self.start_time {
            WindowState::NotStarted
        } else if elapsed <= self.total_duration() {
            if self.extended_by > 0 {
                WindowState::Extended
            } else {
                WindowState::Open
            }
        } else if elapsed <= self.total_duration() + self.grace_period {
            WindowState::GracePeriod
        } else {
            WindowState::Expired
        }
    }

    /// Adds `seconds` to the accumulated extension; the window never
    /// shrinks.
    pub fn extend(&mut self, seconds: u64)
        requires
            old(self).wf(),
            old(self).extended_by + seconds <= MAX_DURATION,
        ensures
            *final(self) == (VotingWindow {
                extended_by: (old(self).extended_by + seconds) as u64,
                ..*old(self)
            }),
            final(self).wf(),
    {
        self.extended_by = self.extended_by + seconds;
    }

    /// Which third of the effective duration `now` falls in, with the
    /// lower tier inclusive.
    pub fn phase(&self, now: i64) -> (p: VotingPhase)
        requires
            self.wf(),
            -MAX_TIME <= now <= MAX_TIME,
        ensures
            p == self.spec_phase(now as int),
    {
        let elapsed = self.elapsed(now);
        let total = self.total_duration();
        if elapsed <= total / 3 {
            VotingPhase::Early
        } else if elapsed <= 2 * total / 3 {
            VotingPhase::Mid
        } else {
            VotingPhase::Late
        }
    }
}

} // verus!
