//! Pacing of the frames of an animated image.
//!
//! Frames are decoded one ahead by a worker; the UI shows the next frame
//! once its deadline has passed. Deadlines follow the animation's own
//! timeline: each one is the previous deadline plus the frame's delay, so
//! that decode, render and wake-up lateness does not accumulate. Times are
//! nanoseconds since the animation started.
use vstd::prelude::*;
use image::Delay;

verus! {

#[verifier::external_type_specification]
#[verifier::external_body]
pub struct ExDelay(Delay);

/// Shortest time a frame stays on screen, in nanoseconds (10 ms).
pub const MIN_FRAME_DELAY_NS: u64 = 10_000_000;

/// The delay of a frame as a fraction of milliseconds (numerator,
/// denominator), as `Delay::numer_denom_ms` gives it. It depends on the
/// delay alone.
pub uninterp spec fn delay_ratio(delay: Delay) -> (u32, u32);

/// `Delay::numer_denom_ms`. The result is the named `delay_ratio` of the
/// delay; what that is is not stated.
#[verifier::external_body]
fn delay_numer_denom_ms(delay: Delay) -> (r: (u32, u32))
    ensures
        r == delay_ratio(delay),
{
    delay.numer_denom_ms()
}

/// A delay of `numer / denom` milliseconds in whole nanoseconds, rounded
/// down as `Duration::from` converts a `Delay` (0 for a zero denominator,
/// which no `Delay` has), but at least `MIN_FRAME_DELAY_NS`.
pub open spec fn frame_delay_spec(numer: nat, denom: nat) -> nat {
    let ns = if denom == 0 {
        0
    } else {
        numer * 1_000_000 / denom
    };
    if ns >= MIN_FRAME_DELAY_NS {
        ns
    } else {
        MIN_FRAME_DELAY_NS as nat
    }
}

/// How long a frame whose delay is `numer / denom` milliseconds stays on
/// screen, in nanoseconds.
pub fn frame_delay_ratio(numer: u32, denom: u32) -> (d: u64)
    ensures
        d == frame_delay_spec(numer as nat, denom as nat),
{
    if denom == 0 {
        return MIN_FRAME_DELAY_NS;
    }
    let ns: u64 = numer as u64 * 1_000_000 / denom as u64;
    if ns >= MIN_FRAME_DELAY_NS {
        ns
    } else {
        MIN_FRAME_DELAY_NS
    }
}

/// How long a frame with delay `delay` stays on screen, in nanoseconds:
/// its delay, but at least `MIN_FRAME_DELAY_NS`.
pub fn frame_delay(delay: Delay) -> (d: u64)
    ensures
        d == frame_delay_spec(delay_ratio(delay).0 as nat, delay_ratio(delay).1 as nat),
{
    let (numer, denom) = delay_numer_denom_ms(delay);
    frame_delay_ratio(numer, denom)
}

/// Deadline of the next frame of an animation.
pub struct FramePacer {
    next_frame_at: Option<u64>,
}

impl FramePacer {
    /// The deadline of the next frame, `None` before the first frame.
    pub closed spec fn next(&self) -> Option<u64> {
        self.next_frame_at
    }

    /// A pacer before the first frame.
    pub fn new() -> (p: Self)
        ensures
            p.next() is None,
    {
        FramePacer { next_frame_at: None }
    }

    /// The deadline of the next frame, `None` before the first frame.
    pub fn next_frame_at(&self) -> (t: Option<u64>)
        ensures
            t == self.next(),
    {
        self.next_frame_at
    }

    /// Whether a new frame may be shown at `now`: always before the first
    /// frame, afterwards once the deadline has passed.
    pub fn frame_due(&self, now: u64) -> (due: bool)
        ensures
            due == match self.next() {
                Some(t) => now >= t,
                None => true,
            },
    {
        match self.next_frame_at {
            Some(t) => now >= t,
            None => true,
        }
    }

    /// Records that a frame with delay `delay` was shown at `now`: the next
    /// deadline is the previous one (or `now` for the first frame) plus
    /// `delay`.
    pub fn frame_shown(&mut self, now: u64, delay: u64)
        requires
            match old(self).next() {
                Some(t) => t + delay <= u64::MAX,
                None => now + delay <= u64::MAX,
            },
        ensures
            final(self).next() == Some(
                (match old(self).next() {
                    Some(t) => t + delay,
                    None => now + delay,
                }) as u64,
            ),
    {
        let base = match self.next_frame_at {
            Some(t) => t,
            None => now,
        };
        self.next_frame_at = Some(base + delay);
    }

    /// How long to wait at `now` before the next frame: the time left to
    /// the deadline (0 once it has passed), or `None` before the first
    /// frame (repaint at once).
    pub fn wait(&self, now: u64) -> (w: Option<u64>)
        ensures
            w == match self.next() {
                Some(t) => Some(if t > now { (t - now) as u64 } else { 0u64 }),
                None => None::<u64>,
            },
    {
        match self.next_frame_at {
            Some(t) => if t > now {
                Some(t - now)
            } else {
                Some(0)
            },
            None => None,
        }
    }
}

} // verus!
