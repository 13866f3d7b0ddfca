//! Frame pacing: decides when the next frame is due. Times are nanosecond
//! timestamps from a monotonic clock that the caller reads.
use vstd::prelude::*;

verus! {

/// Nanoseconds in a second.
pub const NANOS_PER_SEC: u64 = 1000000000;

/// Frame scheduler for consistent frame timing.
#[derive(Debug)]
pub struct FrameScheduler {
    pub target_fps: u32,
    /// Target frame duration in nanoseconds.
    pub target_duration: u64,
    /// Time of the last completed frame.
    pub last_frame: u64,
    pub vsync: bool,
    /// Time accumulated towards the next frame.
    pub accumulated: u64,
}

impl FrameScheduler {
    /// A scheduler for `target_fps` frames per second, started at `now`.
    pub fn new(target_fps: u32, vsync: bool, now: u64) -> (r: Self)
        requires
            target_fps > 0,
        ensures
            r.target_fps == target_fps,
            r.target_duration == NANOS_PER_SEC / (target_fps as u64),
            r.last_frame == now,
            r.vsync == vsync,
            r.accumulated == 0,
    {
        FrameScheduler {
            target_fps,
            target_duration: NANOS_PER_SEC / (target_fps as u64),
            last_frame: now,
            vsync,
            accumulated: 0,
        }
    }

    /// Account the time since the last frame; a frame is due once a whole
    /// frame duration has accumulated, which restarts the count.
    pub fn should_render(&mut self, now: u64) -> (r: bool)
        ensures
            ({
                let elapsed: int = if now >= old(self).last_frame { now - old(self).last_frame } else { 0 };
                let acc: int = if old(self).accumulated + elapsed <= u64::MAX {
                    old(self).accumulated + elapsed
                } else {
                    u64::MAX as int
                };
                &&& r == (acc >= old(self).target_duration)
                &&& final(self).accumulated == if r { 0 } else { acc as u64 }
            }),
            final(self).last_frame == old(self).last_frame,
            final(self).target_duration == old(self).target_duration,
    {
        let elapsed = if now >= self.last_frame { now - self.last_frame } else { 0 };
        let acc = self.accumulated.saturating_add(elapsed);
        if acc >= self.target_duration {
            self.accumulated = 0;
            true
        } else {
            self.accumulated = acc;
            false
        }
    }

    /// Nanoseconds until the next frame is due.
    pub fn time_to_next_frame(&self) -> (r: u64)
        ensures
            r == if self.accumulated >= self.target_duration { 0 } else { (self.target_duration - self.accumulated) as u64 },
    {
        if self.accumulated >= self.target_duration {
            0
        } else {
            self.target_duration - self.accumulated
        }
    }

    /// Mark the frame complete at `now`.
    pub fn frame_complete(&mut self, now: u64)
        ensures
            final(self).last_frame == now,
            final(self).accumulated == old(self).accumulated,
            final(self).target_duration == old(self).target_duration,
    {
        self.last_frame = now;
    }
}

} // verus!
