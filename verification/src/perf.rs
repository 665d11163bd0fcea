//! Figures shown in the performance overlay: the rate at which images are
//! displayed, over a rolling window, and the process's memory use.
use vstd::prelude::*;
use std::collections::VecDeque;
use crate::text::{decimal, div_round_even, f64_value, f64_value_of, push_decimal_u128, round_div_even};

verus! {

/// Length of the rolling window over which displayed images are counted:
/// two seconds, in nanoseconds.
pub const LOAD_WINDOW_NS: u64 = 2_000_000_000;

/// The text of a memory use of `bytes`: mebibytes without decimals below
/// 1 GiB, gibibytes with one decimal from there on (`{:.0}` and `{:.1}` of
/// the `f64` quotient, rounded half to even).
pub open spec fn memory_text_spec(bytes: nat) -> Seq<char> {
    let f = f64_value(bytes);
    if f >= 0x4000_0000 {
        let t = div_round_even(f * 10, 0x4000_0000);
        decimal(t / 10) + seq!['.'] + decimal(t % 10) + seq![' ', 'G', 'B']
    } else {
        decimal(div_round_even(f, 0x10_0000)) + seq![' ', 'M', 'B']
    }
}

/// Human-readable memory use: `"{x:.0} MB"` below 1 GiB, `"{x:.1} GB"`
/// from there on.
pub fn memory_text(bytes: u64) -> (s: String)
    ensures
        s@ == memory_text_spec(bytes as nat),
{
    let mut s = String::new();
    proof {
        reveal_strlit(".");
        reveal_strlit(" GB");
        reveal_strlit(" MB");
    }
    let f = f64_value_of(bytes);
    if f >= 0x4000_0000 {
        let t = round_div_even(f * 10, 0x4000_0000);
        push_decimal_u128(&mut s, t / 10);
        s.append(".");
        push_decimal_u128(&mut s, t % 10);
        s.append(" GB");
    } else {
        let m = round_div_even(f, 0x10_0000);
        push_decimal_u128(&mut s, m);
        s.append(" MB");
    }
    s
}

/// Start of the rolling window that ends at `now` (0 while less than a
/// window has passed).
pub open spec fn window_start(now: u64) -> u64 {
    if now >= LOAD_WINDOW_NS {
        (now - LOAD_WINDOW_NS) as u64
    } else {
        0
    }
}

/// Times at which images were displayed, in nanoseconds since tracking
/// started, in the order they were recorded.
pub struct ImageLoads {
    stamps: VecDeque<u64>,
}

impl ImageLoads {
    /// The recorded display times, oldest first.
    pub closed spec fn times(&self) -> Seq<u64> {
        self.stamps@
    }

    /// No display recorded.
    pub fn new() -> (l: Self)
        ensures
            l.times() == Seq::<u64>::empty(),
    {
        ImageLoads { stamps: VecDeque::new() }
    }

    /// Records that an image was displayed at `now`.
    pub fn record(&mut self, now: u64)
        ensures
            final(self).times() == old(self).times().push(now),
    {
        self.stamps.push_back(now);
    }

    /// Forgets the displays recorded before the window ending at `now`,
    /// taking them from the oldest while they are older than its start, and
    /// returns how many displays remain and the oldest of them.
    pub fn prune(&mut self, now: u64) -> (r: (usize, Option<u64>))
        ensures
            exists|k: int|
                0 <= k <= old(self).times().len() && final(self).times() == old(self).times().skip(k)
                    && (forall|j: int| 0 <= j < k ==> #[trigger] old(self).times()[j] < window_start(now))
                    && (k < old(self).times().len() ==> old(self).times()[k] >= window_start(now)),
            r.0 == final(self).times().len(),
            r.1 == if final(self).times().len() > 0 {
                Some(final(self).times()[0])
            } else {
                None::<u64>
            },
    {
        let cutoff: u64 = if now >= LOAD_WINDOW_NS {
            now - LOAD_WINDOW_NS
        } else {
            0
        };
        let ghost all = self.stamps@;
        let n0 = self.stamps.len();
        let mut k: usize = 0;
        while self.stamps.len() > 0 && self.stamps[0] < cutoff
            invariant
                cutoff == window_start(now),
                all.len() == n0,
                k <= all.len(),
                self.stamps@ == all.skip(k as int),
                forall|j: int| 0 <= j < k ==> #[trigger] all[j] < cutoff,
            decreases self.stamps@.len(),
        {
            assert(self.stamps@.len() == all.len() - k);
            assert(all[k as int] == self.stamps@[0]);
            self.stamps.pop_front();
            k = k + 1;
            assert(self.stamps@ =~= all.skip(k as int));
        }
        proof {
            assert(self.stamps@.len() == all.len() - k);
            if (k as int) < all.len() {
                assert(all[k as int] == self.stamps@[0]);
            }
            assert(all == old(self).times());
            let kk = k as int;
            assert(0 <= kk <= all.len() && self.stamps@ == all.skip(kk) && (forall|j: int|
                0 <= j < kk ==> #[trigger] all[j] < window_start(now)) && (kk < all.len() ==> all[kk]
                >= window_start(now)));
        }
        let oldest = if self.stamps.len() > 0 {
            Some(self.stamps[0])
        } else {
            None
        };
        (self.stamps.len(), oldest)
    }
}

} // verus!
