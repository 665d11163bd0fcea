//! Navigation across the panes of the window.
use vstd::prelude::*;
use crate::lru::{image_bytes, sum_bytes};
use crate::pane::{decodes_fit, nav_target, Pane};
use crate::window::{texture_at, CachedTexture};

verus! {

/// A pane takes part in navigation: every pane in synced mode, only the
/// selected ones in independent mode.
pub open spec fn is_active<T, I>(p: &Pane<T, I>, use_selection: bool) -> bool {
    !use_selection || p.is_selected()
}

/// A pane is ready to move `delta` images: it is empty, at the end of its
/// list in that direction, or has the target image cached.
pub open spec fn is_ready<T, I>(p: &Pane<T, I>, delta: int) -> bool {
    let t = nav_target(p.current() as int, delta, p.files() as int);
    p.files() == 0 || t == p.current() || (p.window() matches Some(v) && texture_at(v, t as usize)
        is Some)
}

/// A pane can still move in the direction of `delta` (forward when
/// positive, backward otherwise).
pub open spec fn can_move<T, I>(p: &Pane<T, I>, delta: int) -> bool {
    if delta > 0 {
        p.files() > 0 && p.current() < p.files() - 1
    } else {
        p.files() > 0 && p.current() > 0
    }
}

/// Moves every active pane `delta` images (`delta` is 1 or -1), but only
/// when every active pane is ready, so that synced panes move together and
/// none waits on a decode while another advances. Returns whether any pane
/// advanced, and whether an active pane can still move that way (then the
/// caller keeps repainting).
pub fn navigate_panes<T: Clone, I>(panes: &mut Vec<Pane<T, I>>, delta: isize, use_selection: bool) -> (r: (
    bool,
    bool,
))
    requires
        delta == 1 || delta == -1,
        forall|i: int| 0 <= i < old(panes)@.len() ==> (#[trigger] old(panes)@[i]).wf(),
    ensures
        final(panes)@.len() == old(panes)@.len(),
        forall|i: int| 0 <= i < final(panes)@.len() ==> (#[trigger] final(panes)@[i]).wf(),
        ({
            let all_ready = forall|i: int|
                0 <= i < old(panes)@.len() && is_active(&old(panes)@[i], use_selection)
                    ==> is_ready(#[trigger] &old(panes)@[i], delta as int);
            &&& forall|i: int|
                0 <= i < old(panes)@.len() ==> if all_ready && is_active(
                    &old(panes)@[i],
                    use_selection,
                ) {
                    Pane::navigated(
                        &old(panes)@[i],
                        #[trigger] &final(panes)@[i],
                        delta as int,
                        Pane::nav_hit(&old(panes)@[i], delta as int),
                    )
                } else {
                    final(panes)@[i] == old(panes)@[i]
                }
            &&& r.0 == (all_ready && exists|i: int|
                0 <= i < old(panes)@.len() && is_active(&old(panes)@[i], use_selection)
                    && #[trigger] Pane::nav_hit(&old(panes)@[i], delta as int))
            &&& r.1 == exists|i: int|
                0 <= i < final(panes)@.len() && is_active(&final(panes)@[i], use_selection)
                    && can_move(#[trigger] &final(panes)@[i], delta as int)
        }),
{
    let n = panes.len();
    let ghost old_panes = panes@;
    let mut all_ready = true;
    let mut i: usize = 0;
    while i < n
        invariant
            delta == 1 || delta == -1,
            n == panes@.len(),
            panes@ == old_panes,
            i <= n,
            forall|j: int| 0 <= j < n ==> (#[trigger] panes@[j]).wf(),
            all_ready == forall|j: int|
                0 <= j < i && is_active(&panes@[j], use_selection) ==> is_ready(
                    #[trigger] &panes@[j],
                    delta as int,
                ),
        decreases n - i,
    {
        let active = !use_selection || panes[i].selected();
        if active {
            proof {
                panes@[i as int].lemma_wf_bounds();
            }
            let ready = panes[i].num_files() == 0 || panes[i].is_next_cached(delta);
            if !ready {
                all_ready = false;
            }
        }
        i = i + 1;
    }
    let mut any_advanced = false;
    if all_ready {
        let mut k: usize = 0;
        while k < n
            invariant
                delta == 1 || delta == -1,
                n == panes@.len(),
                n == old_panes.len(),
                k <= n,
                forall|j: int| 0 <= j < n ==> (#[trigger] panes@[j]).wf(),
                forall|j: int| k <= j < n ==> #[trigger] panes@[j] == old_panes[j],
                forall|j: int|
                    0 <= j < k ==> if is_active(&old_panes[j], use_selection) {
                        Pane::navigated(
                            &old_panes[j],
                            #[trigger] &panes@[j],
                            delta as int,
                            Pane::nav_hit(&old_panes[j], delta as int),
                        )
                    } else {
                        panes@[j] == old_panes[j]
                    },
                any_advanced == exists|j: int|
                    0 <= j < k && is_active(&old_panes[j], use_selection)
                        && #[trigger] Pane::nav_hit(&old_panes[j], delta as int),
            decreases n - k,
        {
            let active = !use_selection || panes[k].selected();
            if active {
                let mut p = panes.remove(k);
                proof {
                    p.lemma_wf_bounds();
                }
                let adv = p.navigate(delta);
                panes.insert(k, p);
                if adv {
                    any_advanced = true;
                }
            }
            k = k + 1;
        }
    }
    let mut any_can = false;
    let mut m: usize = 0;
    while m < n
        invariant
            n == panes@.len(),
            m <= n,
            any_can == exists|j: int|
                0 <= j < m && is_active(&panes@[j], use_selection) && can_move(
                    #[trigger] &panes@[j],
                    delta as int,
                ),
        decreases n - m,
    {
        let active = !use_selection || panes[m].selected();
        let can = if delta > 0 {
            panes[m].can_navigate_forward()
        } else {
            panes[m].can_navigate_backward()
        };
        if active && can {
            any_can = true;
        }
        m = m + 1;
    }
    (any_advanced, any_can)
}

/// The image a jump to the start (or, with `to_last`, to the end) of a
/// list of `n` files lands on.
pub open spec fn jump_target(to_last: bool, n: nat) -> nat {
    if to_last && n > 0 {
        (n - 1) as nat
    } else {
        0
    }
}

/// Jumps every active pane to its first image (Home), or with `to_last`
/// to its last image (End). The closures decode and upload for a pane
/// given its position in `panes`: `decode_center(p, k)` decodes file `k`
/// of pane `p` into a texture for its sliding window, `decode(p, k)` and
/// `upload(p, k, image)` load it synchronously (see `Pane::jump_to`).
/// Inactive panes are left as they are.
pub fn jump_panes<T: Clone, I, C, D, U>(
    panes: &mut Vec<Pane<T, I>>,
    to_last: bool,
    use_selection: bool,
    decode_center: C,
    decode: D,
    upload: U,
) where
    C: Fn(usize, usize) -> Option<CachedTexture<T>>,
    D: Fn(usize, usize) -> Option<(I, [usize; 2])>,
    U: Fn(usize, usize, I) -> T,

    requires
        forall|i: int| 0 <= i < old(panes)@.len() ==> (#[trigger] old(panes)@[i]).wf(),
        forall|p: usize, k: usize| #[trigger] call_requires(decode_center, (p, k)),
        forall|p: usize, k: usize| #[trigger] call_requires(decode, (p, k)),
        forall|p: usize, k: usize, img: I| #[trigger] call_requires(upload, (p, k, img)),
        forall|p: usize, k: usize, r: Option<(I, [usize; 2])>|
            p < old(panes)@.len() && #[trigger] call_ensures(decode, (p, k), r) ==> (r matches Some((img, size))
                ==> sum_bytes(old(panes)@[p as int].lru()) + image_bytes(size) <= usize::MAX),
    ensures
        final(panes)@.len() == old(panes)@.len(),
        forall|i: int| 0 <= i < final(panes)@.len() ==> (#[trigger] final(panes)@[i]).wf(),
        forall|i: int|
            0 <= i < old(panes)@.len() ==> if is_active(&old(panes)@[i], use_selection) {
                &&& (#[trigger] final(panes)@[i]).current() == jump_target(to_last, old(panes)@[i].files())
                &&& final(panes)@[i].files() == old(panes)@[i].files()
            } else {
                final(panes)@[i] == old(panes)@[i]
            },
{
    let n = panes.len();
    let ghost old_panes = panes@;
    let mut k: usize = 0;
    while k < n
        invariant
            n == panes@.len(),
            n == old_panes.len(),
            old_panes == old(panes)@,
            k <= n,
            forall|j: int| 0 <= j < n ==> (#[trigger] panes@[j]).wf(),
            forall|j: int| k <= j < n ==> #[trigger] panes@[j] == old_panes[j],
            forall|j: int|
                0 <= j < k ==> if is_active(&old_panes[j], use_selection) {
                    &&& (#[trigger] panes@[j]).current() == jump_target(to_last, old_panes[j].files())
                    &&& panes@[j].files() == old_panes[j].files()
                } else {
                    panes@[j] == old_panes[j]
                },
            forall|p: usize, f: usize| #[trigger] call_requires(decode_center, (p, f)),
            forall|p: usize, f: usize| #[trigger] call_requires(decode, (p, f)),
            forall|p: usize, f: usize, img: I| #[trigger] call_requires(upload, (p, f, img)),
            forall|p: usize, f: usize, r: Option<(I, [usize; 2])>|
                p < old_panes.len() && #[trigger] call_ensures(decode, (p, f), r) ==> (r matches Some((img, size))
                    ==> sum_bytes(old_panes[p as int].lru()) + image_bytes(size) <= usize::MAX),
        decreases n - k,
    {
        let active = !use_selection || panes[k].selected();
        if active {
            let mut p = panes.remove(k);
            let files = p.num_files();
            let target = if to_last && files > 0 {
                files - 1
            } else {
                0
            };
            let pane = k;
            let dc = |f: usize| -> (r: Option<CachedTexture<T>>)
                ensures
                    call_ensures(decode_center, (pane, f), r),
                { decode_center(pane, f) };
            let dd = |f: usize| -> (r: Option<(I, [usize; 2])>)
                ensures
                    call_ensures(decode, (pane, f), r),
                { decode(pane, f) };
            let du = |f: usize, img: I| -> (r: T)
                ensures
                    call_ensures(upload, (pane, f, img), r),
                { upload(pane, f, img) };
            proof {
                assert(p == old_panes[k as int]);
                assert(decodes_fit(dd, sum_bytes(p.lru()))) by {
                    assert forall|f: usize, r: Option<(I, [usize; 2])>| #[trigger] call_ensures(dd, (f,), r) implies (r matches Some((img, size))
                        ==> sum_bytes(p.lru()) + image_bytes(size) <= usize::MAX) by {
                        assert(call_ensures(decode, (pane, f), r));
                    }
                }
            }
            p.jump_to(target, dc, dd, du);
            panes.insert(k, p);
        }
        k = k + 1;
    }
}

} // verus!
