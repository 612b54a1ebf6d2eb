//! Wall-clock scheduling of redraws.
use vstd::prelude::*;

verus! {

/// Nanoseconds in a second.
pub const NANOS_PER_SECOND: u64 = 1_000_000_000;

/// What the control loop does on a tick.
#[derive(Clone, Copy, Debug, PartialEq, Eq, Structural)]
pub enum PacerDecision {
    /// Draw a frame now.
    Draw,
    /// Wait this many nanoseconds before the next frame is due.
    Wait(u64),
}

/// Decides when to draw, from a monotonic clock in nanoseconds.
#[derive(Clone, Copy, Debug, PartialEq, Eq, Structural)]
pub struct FramePacer {
    /// The target time between two frames.
    pub interval: u64,
    /// When the last frame was drawn.
    pub last_draw: u64,
}

/// The frame interval for a rate of `fps` frames per second.
pub open spec fn interval_for(fps: int) -> int {
    NANOS_PER_SECOND as int / fps
}

/// The time elapsed since `last`, or zero for a clock reading before it.
pub open spec fn elapsed(last: u64, now: u64) -> int {
    if now >= last {
        now - last
    } else {
        0
    }
}

impl FramePacer {
    /// A pacer aiming at `fps` frames per second, whose last frame was at `now`.
    pub fn new(fps: u16, now: u64) -> (r: FramePacer)
        requires
            fps > 0,
        ensures
            r.interval == interval_for(fps as int),
            r.last_draw == now,
    {
        FramePacer { interval: NANOS_PER_SECOND / fps as u64, last_draw: now }
    }

    /// Sets the target rate to `fps` frames per second. A rate of zero or
    /// less is refused and leaves the pacer as it was.
    pub fn set_target_framerate(&mut self, fps: i16) -> (r: bool)
        ensures
            r == (fps > 0),
            r ==> final(self).interval == interval_for(fps as int),
            final(self).last_draw == old(self).last_draw,
            !r ==> *final(self) == *old(self),
    {
        if fps <= 0 {
            return false;
        }
        self.interval = NANOS_PER_SECOND / fps as u64;
        true
    }

    /// Draws when at least one interval has passed since the last frame,
    /// and then counts `now` as the last frame; else says how long to wait.
    pub fn tick(&mut self, now: u64) -> (r: PacerDecision)
        ensures
            elapsed(old(self).last_draw, now) >= old(self).interval ==> r == PacerDecision::Draw
                && *final(self) == (FramePacer { interval: old(self).interval, last_draw: now }),
            elapsed(old(self).last_draw, now) < old(self).interval ==> r == PacerDecision::Wait(
                (old(self).interval - elapsed(old(self).last_draw, now)) as u64,
            ) && *final(self) == *old(self),
    {
        let e = if now >= self.last_draw { now - self.last_draw } else { 0 };
        if e >= self.interval {
            self.last_draw = now;
            PacerDecision::Draw
        } else {
            PacerDecision::Wait(self.interval - e)
        }
    }
}

} // verus!
