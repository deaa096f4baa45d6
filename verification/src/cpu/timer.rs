use vstd::arithmetic::div_mod::{lemma_fundamental_div_mod, lemma_mod_division_less_than_divisor};
use vstd::arithmetic::mul::lemma_mul_inequality;
use vstd::prelude::*;

verus! {

/// Length of one frame in nanoseconds: timers count down at 60 Hz,
/// independent of how fast instructions execute.
pub const FRAME_NANOS: u128 = 16_666_667;

/// The delay and sound countdown registers.  They are decremented by
/// wall-clock elapsed frames, not by executed instructions: the host hands
/// in a monotonic clock reading, and the pair counts how many whole frame
/// periods have passed since the last decrement.
pub struct Timers {
    pub delay_timer: u8,
    pub sound_timer: u8,
    /// The clock reading up to which elapsed frames have been consumed.
    pub last_tick: u128,
}

/// The report of one decrement: how many frames were consumed, and which
/// timers were still running before the decrement, so that edge-triggered
/// consumers can tell when a countdown has just finished.
pub struct Decremented {
    /// How many frames elapsed, clamped to 255; at least one.
    pub count: u8,
    /// Whether the delay timer was non-zero before the decrement.
    pub delay: bool,
    /// Whether the sound timer was non-zero before the decrement.
    pub sound: bool,
}

/// How many whole frames lie between the last consumed reading and `now`.
pub open spec fn frames_between(last: u128, now: u128) -> int {
    if now >= last {
        (now - last) / (FRAME_NANOS as int)
    } else {
        0
    }
}

/// The elapsed-frame count as an 8-bit decrement: clamped, never fatal, so
/// that a paused host resumes cleanly.
pub open spec fn clamped_frames(last: u128, now: u128) -> int {
    if frames_between(last, now) > 255 {
        255
    } else {
        frames_between(last, now)
    }
}

/// A counter after an 8-bit decrement, clamped at zero: timers never
/// underflow.
pub open spec fn saturating_minus(v: u8, d: int) -> u8 {
    if v >= d {
        (v - d) as u8
    } else {
        0
    }
}

/// The timer pair after the frames up to `now` are consumed.  The last
/// consumed reading advances by exactly the consumed frames times the
/// frame period - not by the raw elapsed time - so no drift accumulates.
pub open spec fn ticked(t: Timers, now: u128) -> Timers {
    let frames = clamped_frames(t.last_tick, now);
    if frames == 0 {
        t
    } else {
        Timers {
            delay_timer: saturating_minus(t.delay_timer, frames),
            sound_timer: saturating_minus(t.sound_timer, frames),
            last_tick: (t.last_tick + frames * FRAME_NANOS) as u128,
        }
    }
}

/// What a decrement up to `now` reports.
pub open spec fn tick_report(t: Timers, now: u128) -> Option<Decremented> {
    let frames = clamped_frames(t.last_tick, now);
    if frames == 0 {
        None
    } else {
        Some(
            Decremented {
                count: frames as u8,
                delay: t.delay_timer > 0,
                sound: t.sound_timer > 0,
            },
        )
    }
}

impl Timers {
    /// Both counters zero; frames are counted from the given clock reading.
    pub fn new(now_nanos: u128) -> (r: Self)
        ensures
            r.delay_timer == 0,
            r.sound_timer == 0,
            r.last_tick == now_nanos,
    {
        Timers { delay_timer: 0, sound_timer: 0, last_tick: now_nanos }
    }

    /// Overwrites the delay counter.
    pub fn set_delay_timer(&mut self, counter: u8)
        ensures
            *final(self) == (Timers { delay_timer: counter, ..*old(self) }),
    {
        self.delay_timer = counter;
    }

    /// Overwrites the sound counter.
    pub fn set_sound_timer(&mut self, counter: u8)
        ensures
            *final(self) == (Timers { sound_timer: counter, ..*old(self) }),
    {
        self.sound_timer = counter;
    }

    /// Consumes the whole frames elapsed up to `now_nanos`.  When none has
    /// elapsed, nothing changes and nothing is reported.  Otherwise both
    /// counters drop by the elapsed-frame count - clamped to 255 and
    /// saturating at zero - and the report says how many frames were
    /// consumed and which counters were running beforehand.
    pub fn count_down(&mut self, now_nanos: u128) -> (r: Option<Decremented>)
        ensures
            *final(self) == ticked(*old(self), now_nanos),
            r == tick_report(*old(self), now_nanos),
    {
        let frames128: u128 = if now_nanos >= self.last_tick {
            (now_nanos - self.last_tick) / FRAME_NANOS
        } else {
            0
        };
        if frames128 == 0 {
            return None;
        }
        let frames: u8 = if frames128 > 255 {
            255
        } else {
            frames128 as u8
        };
        let report = Decremented {
            count: frames,
            delay: self.delay_timer > 0,
            sound: self.sound_timer > 0,
        };
        proof {
            lemma_fundamental_div_mod(now_nanos - self.last_tick, FRAME_NANOS as int);
            lemma_mod_division_less_than_divisor(
                now_nanos - self.last_tick,
                FRAME_NANOS as int,
            );
            lemma_mul_inequality(frames as int, frames128 as int, FRAME_NANOS as int);
            assert(self.last_tick + (frames as int) * (FRAME_NANOS as int) <= now_nanos);
        }
        self.delay_timer = if self.delay_timer >= frames {
            self.delay_timer - frames
        } else {
            0
        };
        self.sound_timer = if self.sound_timer >= frames {
            self.sound_timer - frames
        } else {
            0
        };
        self.last_tick = self.last_tick + (frames as u128) * FRAME_NANOS;
        Some(report)
    }

    /// The delay counter.
    pub fn delay(&self) -> (r: u8)
        ensures
            r == self.delay_timer,
    {
        self.delay_timer
    }

    /// The sound counter.
    pub fn sound(&self) -> (r: u8)
        ensures
            r == self.sound_timer,
    {
        self.sound_timer
    }
}

} // verus!
