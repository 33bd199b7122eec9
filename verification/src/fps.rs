//! The frame-rate limiter: when the next frame is due, and how long to
//! wait for it. The caller keeps the clock and does the waiting.

use vstd::prelude::*;

verus! {

/// Frame-rate limiter: the frame rate aimed for (none when not above 0)
/// and when the last frame started, in microseconds of the caller's clock.
pub struct FpsLimiter {
    pub target_fps: i32,
    pub last_frame_us: u64,
}

/// Microseconds per frame at `fps` frames per second, rounded up so that
/// frames are never closer than `1000 / fps` milliseconds; 0 without a
/// limit.
pub open spec fn frame_us(fps: i32) -> int {
    if fps > 0 { (1_000_000 + fps - 1) / (fps as int) } else { 0 }
}

/// When the frame after one that started at `last` may start, `now` being
/// the time the caller asks: at once without a limit, else not before one
/// frame length after `last` (saturating at the clock's end).
pub open spec fn spec_frame_start(last: u64, fps: i32, now: u64) -> int {
    let due = if last + frame_us(fps) <= u64::MAX { last + frame_us(fps) } else { u64::MAX as int };
    if fps <= 0 || due <= now { now as int } else { due }
}

proof fn lemma_frame_us(fps: i32)
    requires
        fps > 0,
    ensures
        1 <= frame_us(fps) <= 1_000_000,
        frame_us(fps) * fps >= 1_000_000,
{
    let f = fps as int;
    let q = (1_000_000 + f - 1) / f;
    assert(q * f >= 1_000_000) by (nonlinear_arith)
        requires f >= 1, q == (1_000_000 + f - 1) / f;
    assert(1 <= q <= 1_000_000) by (nonlinear_arith)
        requires f >= 1, q == (1_000_000 + f - 1) / f;
}

impl FpsLimiter {
    /// A limiter aiming for `target_fps` frames per second that has seen no
    /// frame yet.
    pub fn new(target_fps: i32) -> (r: Self)
        ensures
            r.target_fps == target_fps,
            r.last_frame_us == 0,
    {
        FpsLimiter { target_fps, last_frame_us: 0 }
    }

    /// Wait until the next frame is due: at `now_us`, returns how many
    /// microseconds the caller must wait before the next frame starts, and
    /// records that start. With a limit, the next frame starts no earlier
    /// than `1000 / target_fps` milliseconds after the previous one.
    pub fn wait(&mut self, now_us: u64) -> (sleep_us: u64)
        ensures
            final(self).target_fps == old(self).target_fps,
            final(self).last_frame_us == spec_frame_start(old(self).last_frame_us, old(self).target_fps, now_us),
            sleep_us == spec_frame_start(old(self).last_frame_us, old(self).target_fps, now_us) - now_us,
            old(self).target_fps > 0 ==> frame_us(old(self).target_fps) * old(self).target_fps >= 1_000_000,
    {
        if self.target_fps <= 0 {
            self.last_frame_us = now_us;
            return 0;
        }
        proof { lemma_frame_us(self.target_fps); }
        let fps = self.target_fps as u64;
        let frame = (1_000_000 + fps - 1) / fps;
        let due = if self.last_frame_us <= u64::MAX - frame { self.last_frame_us + frame } else { u64::MAX };
        if due <= now_us {
            self.last_frame_us = now_us;
            0
        } else {
            self.last_frame_us = due;
            due - now_us
        }
    }
}

/// The limiter keeps its promise: after waiting what `wait` returns, the
/// next frame starts no earlier than one frame length (at least
/// `1000 / fps` milliseconds) after the previous one, unless the clock's
/// end is reached; and it never waits when the frame is already due.
pub proof fn law_frames_are_spaced(last: u64, fps: i32, now: u64)
    requires
        fps > 0,
        last + frame_us(fps) <= u64::MAX,
    ensures
        spec_frame_start(last, fps, now) >= last + frame_us(fps),
        spec_frame_start(last, fps, now) >= now,
        frame_us(fps) * fps >= 1_000_000,
        now >= last + frame_us(fps) ==> spec_frame_start(last, fps, now) == now,
{
    lemma_frame_us(fps);
}

} // verus!
