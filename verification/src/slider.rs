//! Throttle for synchronous decodes while the navigation slider is dragged.
//!
//! While dragging, the image at the latest slider position is decoded
//! synchronously, but at most once per `SLIDER_THROTTLE_MS` milliseconds so
//! that the UI thread is not blocked on every frame.
use vstd::prelude::*;
use std::time::Instant;

verus! {

#[verifier::external_type_specification]
#[verifier::external_body]
pub struct ExInstant(Instant);

/// Minimum number of milliseconds between two slider decodes.
pub const SLIDER_THROTTLE_MS: u128 = 10;

/// `std::time::Instant::now`: the current time. Nothing is stated of the
/// value, which depends on the clock.
#[verifier::external_body]
fn instant_now() -> Instant {
    Instant::now()
}

/// The time from `earlier` to `now` in whole milliseconds, as
/// `Instant::checked_duration_since` and `Duration::as_millis` give it;
/// `None` when `earlier` is later than `now`. It depends on the two
/// instants alone.
pub uninterp spec fn millis_between(now: Instant, earlier: Instant) -> Option<u128>;

/// `Instant::checked_duration_since`, in whole milliseconds. The result is
/// the named `millis_between` of the two instants; what that is is not
/// stated.
#[verifier::external_body]
fn millis_since(now: &Instant, earlier: &Instant) -> (r: Option<u128>)
    ensures
        r == millis_between(*now, *earlier),
{
    now.checked_duration_since(*earlier).map(|d| d.as_millis())
}

/// Whether a slider decode is due, given the milliseconds elapsed since the
/// last one (`None` when the clock went backwards, which counts as a full
/// throttle interval).
pub fn throttle_due(elapsed_ms: Option<u128>) -> (due: bool)
    ensures
        due == throttle_due_spec(elapsed_ms),
{
    let elapsed = match elapsed_ms {
        Some(ms) => ms,
        None => SLIDER_THROTTLE_MS,
    };
    elapsed >= SLIDER_THROTTLE_MS
}

/// Throttled synchronous slider loader.
pub struct SliderLoader {
    last_load: Instant,
}

impl SliderLoader {
    /// Time of the last slider decode.
    pub closed spec fn last_load(&self) -> Instant {
        self.last_load
    }

    /// A loader whose last decode is now.
    pub fn new() -> (l: Self) {
        Self::starting_at(instant_now())
    }

    /// A loader whose last decode was at `now`.
    pub fn starting_at(now: Instant) -> (l: Self)
        ensures
            l.last_load() == now,
    {
        SliderLoader { last_load: now }
    }

    /// Decides at clock reading `now`, `elapsed_ms` after the last decode,
    /// whether a decode is due (see `throttle_due`), and if so records
    /// `now` as the time of the last decode.
    pub fn record_reading(&mut self, now: Instant, elapsed_ms: Option<u128>) -> (due: bool)
        ensures
            due == throttle_due_spec(elapsed_ms),
            final(self).last_load() == if due {
                now
            } else {
                old(self).last_load()
            },
    {
        let due = throttle_due(elapsed_ms);
        if due {
            self.last_load = now;
        }
        due
    }

    /// Returns true if enough time has passed since the last decode, and
    /// then records the current time as the time of the last decode. The
    /// time elapsed is measured from the last decode to the clock reading
    /// taken by this call.
    pub fn should_load(&mut self) -> (due: bool)
        ensures
            exists|now: Instant| #[trigger] throttle_step(old(self).last_load(), now, due, final(self).last_load()),
    {
        let now = instant_now();
        let elapsed = millis_since(&now, &self.last_load);
        let due = self.record_reading(now, elapsed);
        assert(throttle_step(old(self).last_load(), now, due, self.last_load()));
        due
    }
}

/// One throttle decision at clock reading `now` with the last decode at
/// `last`: a decode is due when at least `SLIDER_THROTTLE_MS` passed (or
/// the clock went back), and then `now` becomes the last decode (`next`);
/// otherwise the last decode stays.
pub open spec fn throttle_step(last: Instant, now: Instant, due: bool, next: Instant) -> bool {
    &&& due == throttle_due_spec(millis_between(now, last))
    &&& next == if due {
        now
    } else {
        last
    }
}

/// Slider decodes are spaced: a call is due only when at least
/// `SLIDER_THROTTLE_MS` passed since the last recorded decode (a due call,
/// or the loader's construction) or the clock went back, and a call that
/// is not due leaves the last decode where it was, so that the next due
/// call is measured from the same point.
pub proof fn law_throttle_spacing(last: Instant, now: Instant, due: bool, next: Instant)
    requires
        throttle_step(last, now, due, next),
    ensures
        due ==> match millis_between(now, last) {
            Some(ms) => ms >= SLIDER_THROTTLE_MS,
            None => true,
        },
        due ==> next == now,
        !due ==> next == last,
{
}

/// The decision of `throttle_due`.
pub open spec fn throttle_due_spec(elapsed_ms: Option<u128>) -> bool {
    match elapsed_ms {
        Some(ms) => ms >= SLIDER_THROTTLE_MS,
        None => true,
    }
}

/// A run of slider calls on a loader made at `t0`: call `k` read the clock
/// at `nows[k]`, answered `dues[k]`, and left the last decode at
/// `lasts[k + 1]` (`lasts[0]` is the construction time).
pub open spec fn throttle_run(t0: Instant, nows: Seq<Instant>, dues: Seq<bool>, lasts: Seq<Instant>) -> bool {
    &&& dues.len() == nows.len()
    &&& lasts.len() == nows.len() + 1
    &&& lasts[0] == t0
    &&& forall|k: int|
        0 <= k < nows.len() ==> #[trigger] throttle_step(lasts[k], nows[k], dues[k], lasts[k + 1])
}

proof fn lemma_last_decode_stays(t0: Instant, nows: Seq<Instant>, dues: Seq<bool>, lasts: Seq<Instant>, from: int, m: int)
    requires
        throttle_run(t0, nows, dues, lasts),
        0 <= from <= m <= nows.len(),
        forall|q: int| from <= q < m ==> !#[trigger] dues[q],
    ensures
        lasts[m] == lasts[from],
    decreases m - from,
{
    if m > from {
        lemma_last_decode_stays(t0, nows, dues, lasts, from, m - 1);
        let k = m - 1;
        assert(throttle_step(lasts[k], nows[k], dues[k], lasts[k + 1]));
        assert(!dues[k]);
    }
}

/// Slider decodes are spaced over a run of calls: between two due calls
/// with none due in between, and between the loader's construction and the
/// first due call, at least `SLIDER_THROTTLE_MS` pass (or the clock went
/// back). A call less than that after the last decode is not due.
pub proof fn law_throttle_run_spacing(
    t0: Instant,
    nows: Seq<Instant>,
    dues: Seq<bool>,
    lasts: Seq<Instant>,
    i: int,
    j: int,
)
    requires
        throttle_run(t0, nows, dues, lasts),
        -1 <= i < j < nows.len(),
        dues[j],
        i >= 0 ==> dues[i],
        forall|q: int| i < q < j ==> !#[trigger] dues[q],
    ensures
        ({
            let from = if i >= 0 {
                nows[i]
            } else {
                t0
            };
            match millis_between(nows[j], from) {
                Some(ms) => ms >= SLIDER_THROTTLE_MS,
                None => true,
            }
        }),
{
    assert(throttle_step(lasts[j], nows[j], dues[j], lasts[j + 1]));
    if i >= 0 {
        assert(throttle_step(lasts[i], nows[i], dues[i], lasts[i + 1]));
        lemma_last_decode_stays(t0, nows, dues, lasts, i + 1, j);
    } else {
        lemma_last_decode_stays(t0, nows, dues, lasts, 0, j);
    }
}

/// The clock went forward over a run: taking the construction time `t0`
/// followed by the readings `nows`, each reading is at or after every
/// earlier one, so the time from an earlier reading to a later one is
/// known and is at least the time from any reading in between.
pub open spec fn clock_forward(t0: Instant, nows: Seq<Instant>) -> bool {
    let times = seq![t0] + nows;
    forall|a: int, b: int, c: int|
        #![trigger millis_between(times[c], times[a]), millis_between(times[c], times[b])]
        0 <= a <= b <= c < times.len() ==> {
            &&& millis_between(times[c], times[a]) is Some
            &&& millis_between(times[c], times[b]) is Some
            &&& millis_between(times[c], times[a])->0 >= millis_between(times[c], times[b])->0
        }
}

proof fn lemma_last_due_before(dues: Seq<bool>, i: int, m: int) -> (p: int)
    requires
        -1 <= i < m <= dues.len(),
    ensures
        i <= p < m,
        p > i ==> dues[p],
        forall|q: int| p < q < m ==> !#[trigger] dues[q],
    decreases m - i,
{
    if m - 1 == i {
        i
    } else if dues[m - 1] {
        m - 1
    } else {
        lemma_last_due_before(dues, i, m - 1)
    }
}

/// Slider decodes are spaced between any two due calls: when the clock
/// goes forward over a run of calls, at least `SLIDER_THROTTLE_MS` pass
/// between any due call and any later due call, and between the loader's
/// construction and any due call, whatever calls came in between.
pub proof fn law_throttle_any_two_due(
    t0: Instant,
    nows: Seq<Instant>,
    dues: Seq<bool>,
    lasts: Seq<Instant>,
    i: int,
    j: int,
)
    requires
        throttle_run(t0, nows, dues, lasts),
        clock_forward(t0, nows),
        -1 <= i < j < nows.len(),
        dues[j],
        i >= 0 ==> dues[i],
    ensures
        ({
            let from = if i >= 0 {
                nows[i]
            } else {
                t0
            };
            &&& millis_between(nows[j], from) is Some
            &&& millis_between(nows[j], from)->0 >= SLIDER_THROTTLE_MS
        }),
{
    let p = lemma_last_due_before(dues, i, j);
    law_throttle_run_spacing(t0, nows, dues, lasts, p, j);
    let times = seq![t0] + nows;
    assert(times[j + 1] == nows[j]);
    assert(times[i + 1] == if i >= 0 { nows[i] } else { t0 });
    assert(times[p + 1] == if p >= 0 { nows[p] } else { t0 });
    assert(millis_between(times[j + 1], times[i + 1])->0 >= millis_between(times[j + 1], times[p + 1])->0);
}

} // verus!
