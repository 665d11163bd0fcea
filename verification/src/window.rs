//! Sliding window cache that preloads the neighbors of the current image.
//!
//! The window has `cache_count * 2 + 1` slots. `first_file_index` is the
//! file index that slot 0 maps to. The current image sits at slot
//! `current_index - first_file_index`, ideally at the center
//! (`cache_count`), but off-center near the ends of the file list.
//!
//! Decoding happens on background threads owned by the caller. The cache
//! decides which files to decode and when: a decode that is started is
//! recorded as in flight and its file index is queued in the spawn
//! requests, which the caller takes with `take_spawn_requests` and starts.
//! At most `max_decode_threads` decodes are in flight; further requests
//! wait in `pending_decodes`. Finished decodes come back through `poll`,
//! which queues them for upload and uploads at most `UPLOADS_PER_FRAME`
//! per call.
use vstd::prelude::*;
use crate::text::decimal;
use std::collections::HashSet;
use std::collections::VecDeque;

verus! {

broadcast use vstd::std_specs::hash::group_hash_axioms;

/// Maximum number of texture uploads issued by one call of `poll`.
pub const UPLOADS_PER_FRAME: usize = 2;

/// An uploaded texture together with its size in pixels (width, height).
pub struct CachedTexture<T> {
    pub handle: T,
    pub size: [usize; 2],
}

/// The outcome of one background decode: the file index and the decoded
/// image, or `None` when decoding failed.
pub struct DecodeResult<I> {
    pub file_index: usize,
    pub image: Option<I>,
}

/// State of one window slot, as shown by the cache overlay.
#[derive(PartialEq, Eq, Structural, Clone, Copy, Debug)]
pub enum SlotState {
    /// The slot maps past the last file.
    Invalid,
    /// The slot holds a texture.
    Loaded,
    /// The slot's file is being decoded.
    Loading,
    /// Nothing is loaded or loading for the slot's file.
    Empty,
}

/// The decode scheduling state: decodes in flight, decodes waiting for a
/// thread, decoded images waiting for upload, and the decodes started but
/// not yet handed to the caller.
pub struct Pipeline<I> {
    pub in_flight: Set<usize>,
    pub pending_decodes: Seq<usize>,
    pub pending_uploads: Seq<(usize, I)>,
    pub spawns: Seq<usize>,
    pub max_threads: int,
}

/// Slot position of `file_index` in a window starting at `first` with
/// `len` slots.
pub open spec fn slot_of(first: int, len: int, file_index: usize) -> Option<int> {
    if first <= file_index < first + len {
        Some(file_index - first)
    } else {
        None
    }
}

impl<I> Pipeline<I> {
    /// Starts a decode of `idx`: it becomes in flight and is handed to the
    /// caller to spawn.
    pub open spec fn start(self, idx: usize) -> Pipeline<I> {
        Pipeline {
            in_flight: self.in_flight.insert(idx),
            pending_decodes: self.pending_decodes,
            pending_uploads: self.pending_uploads,
            spawns: self.spawns.push(idx),
            max_threads: self.max_threads,
        }
    }

    /// Requests a decode of `idx`: ignored when it is already in flight or
    /// queued; started when fewer than `max_threads` decodes are in flight;
    /// queued otherwise.
    pub open spec fn load(self, idx: usize) -> Pipeline<I> {
        if self.in_flight.contains(idx) || self.pending_decodes.contains(idx) {
            self
        } else if self.in_flight.len() < self.max_threads {
            self.start(idx)
        } else {
            Pipeline {
                in_flight: self.in_flight,
                pending_decodes: self.pending_decodes.push(idx),
                pending_uploads: self.pending_uploads,
                spawns: self.spawns,
                max_threads: self.max_threads,
            }
        }
    }

    /// Requests decodes of `idxs` in order.
    pub open spec fn load_all(self, idxs: Seq<usize>) -> Pipeline<I>
        decreases idxs.len(),
    {
        if idxs.len() == 0 {
            self
        } else {
            self.load(idxs[0]).load_all(idxs.drop_first())
        }
    }

    /// While fewer than `max_threads` decodes are in flight, takes the
    /// oldest queued decode and starts it if its file is still inside the
    /// window (`first`, `len`); a stale one is dropped.
    pub open spec fn refill(self, first: int, len: int) -> Pipeline<I>
        decreases self.pending_decodes.len(),
    {
        if self.in_flight.len() < self.max_threads && self.pending_decodes.len() > 0 {
            let idx = self.pending_decodes[0];
            let rest = Pipeline {
                in_flight: self.in_flight,
                pending_decodes: self.pending_decodes.drop_first(),
                pending_uploads: self.pending_uploads,
                spawns: self.spawns,
                max_threads: self.max_threads,
            };
            if slot_of(first, len, idx) is Some {
                rest.start(idx).refill(first, len)
            } else {
                rest.refill(first, len)
            }
        } else {
            self
        }
    }

    /// Handles one finished decode: it is no longer in flight, a decoded
    /// image is queued for upload, and the freed thread takes queued work.
    pub open spec fn receive(self, r: DecodeResult<I>, first: int, len: int) -> Pipeline<I> {
        let uploads = match r.image {
            Some(img) => self.pending_uploads.push((r.file_index, img)),
            None => self.pending_uploads,
        };
        Pipeline {
            in_flight: self.in_flight.remove(r.file_index),
            pending_decodes: self.pending_decodes,
            pending_uploads: uploads,
            spawns: self.spawns,
            max_threads: self.max_threads,
        }.refill(first, len)
    }

    /// Handles finished decodes in order.
    pub open spec fn receive_all(self, rs: Seq<DecodeResult<I>>, first: int, len: int) -> Pipeline<I>
        decreases rs.len(),
    {
        if rs.len() == 0 {
            self
        } else {
            self.receive(rs[0], first, len).receive_all(rs.drop_first(), first, len)
        }
    }

    /// The same pipeline with `uploads` as its upload queue.
    pub open spec fn with_uploads(self, uploads: Seq<(usize, I)>) -> Pipeline<I> {
        Pipeline {
            in_flight: self.in_flight,
            pending_decodes: self.pending_decodes,
            pending_uploads: uploads,
            spawns: self.spawns,
            max_threads: self.max_threads,
        }
    }

    /// No decode is both queued and in flight, and none is queued twice.
    pub open spec fn disjoint(self) -> bool {
        &&& self.in_flight.finite()
        &&& self.pending_decodes.no_duplicates()
        &&& forall|i: int|
            0 <= i < self.pending_decodes.len() ==> !self.in_flight.contains(
                #[trigger] self.pending_decodes[i],
            )
    }
}

/// The abstract state of a sliding window cache.
pub struct WindowView<T, I> {
    pub slots: Seq<Option<CachedTexture<T>>>,
    pub first: int,
    pub cache_count: int,
    pub pipe: Pipeline<I>,
}

/// Number of slots of a window with half-size `cache_count`.
pub open spec fn window_size(cache_count: int) -> int {
    cache_count * 2 + 1
}

/// File index of the first slot when the window is centered on `center`
/// among `num_files` files, clamped so that it does not run past the end.
pub open spec fn centered_first(center: int, cache_count: int, num_files: int) -> int {
    let from_center = if center >= cache_count { center - cache_count } else { 0 };
    let max_first = if num_files >= window_size(cache_count) {
        num_files - window_size(cache_count)
    } else {
        0
    };
    if from_center <= max_first { from_center } else { max_first }
}

/// The files among the first `k` slots of a window starting at `first`
/// that are preloaded on initialization: every valid file but the center.
pub open spec fn init_targets(first: int, center: int, num_files: int, k: nat) -> Seq<usize>
    decreases k,
{
    if k == 0 {
        Seq::empty()
    } else {
        let prev = init_targets(first, center, num_files, (k - 1) as nat);
        let f = first + k - 1;
        if f != center && f < num_files {
            prev.push(f as usize)
        } else {
            prev
        }
    }
}

/// One upload step: the oldest decoded image in `uploads` (if any) is
/// uploaded into its slot when its file is inside the window and the slot is
/// empty; the slot then holds what `f` returned for it.
pub open spec fn upload_step<T, I, F: Fn(usize, I) -> CachedTexture<T>>(
    slots: Seq<Option<CachedTexture<T>>>,
    first: int,
    uploads: Seq<(usize, I)>,
    f: F,
    out: Seq<Option<CachedTexture<T>>>,
) -> bool {
    if uploads.len() == 0 {
        out == slots
    } else {
        let (idx, img) = uploads[0];
        match slot_of(first, slots.len() as int, idx) {
            Some(p) => if slots[p] is None {
                exists|t: CachedTexture<T>| call_ensures(f, (idx, img), t) && out == slots.update(p, Some(t))
            } else {
                out == slots
            },
            None => out == slots,
        }
    }
}

pub proof fn lemma_loaded_bytes_prefix<T>(slots: Seq<Option<CachedTexture<T>>>, i: int)
    requires
        0 <= i <= slots.len(),
    ensures
        loaded_bytes(slots.take(i)) <= loaded_bytes(slots),
    decreases slots.len() - i,
{
    if i < slots.len() {
        lemma_loaded_bytes_prefix(slots, i + 1);
        assert(slots.take(i + 1) =~= slots.take(i).push(slots[i]));
        lemma_loaded_bytes_push(slots.take(i), slots[i]);
    } else {
        assert(slots.take(i) =~= slots);
    }
}

/// The summary line of a window: `[first..last] loaded/total inflight=N`.
pub open spec fn summary_text(first: nat, last: nat, loaded: nat, total: nat, inflight: nat) -> Seq<char> {
    seq!['['] + decimal(first) + seq!['.', '.'] + decimal(last) + seq![']', ' '] + decimal(loaded) + seq!['/']
        + decimal(total) + seq![' ', 'i', 'n', 'f', 'l', 'i', 'g', 'h', 't', '='] + decimal(inflight)
}

/// The texture cached for `file_index` in window `v`, if any.
pub open spec fn texture_at<T, I>(v: WindowView<T, I>, file_index: usize) -> Option<CachedTexture<T>> {
    match slot_of(v.first, v.slots.len() as int, file_index) {
        Some(p) => v.slots[p],
        None => None,
    }
}

/// The window after forward navigation to `new_index`: when the new image
/// is right of the center slot, the window moves one file to the right and
/// the file entering on the right (if it exists) is requested.
pub open spec fn forward_view<T, I>(v: WindowView<T, I>, new_index: usize, num_files: usize) -> WindowView<T, I> {
    if new_index - v.first > v.cache_count {
        let entering = v.first + window_size(v.cache_count);
        WindowView {
            slots: v.slots.drop_first().push(None),
            first: v.first + 1,
            cache_count: v.cache_count,
            pipe: if entering < num_files {
                v.pipe.load(entering as usize)
            } else {
                v.pipe
            },
        }
    } else {
        v
    }
}

/// The window after backward navigation to `new_index`: when the new image
/// is left of the center slot and the window does not start at file 0, the
/// window moves one file to the left and the file entering on the left is
/// requested.
pub open spec fn backward_view<T, I>(v: WindowView<T, I>, new_index: usize) -> WindowView<T, I> {
    if new_index - v.first < v.cache_count && v.first > 0 {
        WindowView {
            slots: seq![None].add(v.slots.drop_last()),
            first: v.first - 1,
            cache_count: v.cache_count,
            pipe: v.pipe.load((v.first - 1) as usize),
        }
    } else {
        v
    }
}

/// The window initialized around `center` over `num_files` files (more
/// than zero), whose center slot holds `center_texture`.
pub open spec fn init_view<T, I>(
    v: WindowView<T, I>,
    center: usize,
    num_files: usize,
    center_texture: Option<CachedTexture<T>>,
) -> WindowView<T, I> {
    let first = centered_first(center as int, v.cache_count, num_files as int);
    let size = window_size(v.cache_count);
    WindowView {
        slots: empty_slots::<T>(size as nat).update(center - first, center_texture),
        first: first,
        cache_count: v.cache_count,
        pipe: (Pipeline {
            in_flight: Set::<usize>::empty(),
            pending_decodes: Seq::<usize>::empty(),
            pending_uploads: Seq::<(usize, I)>::empty(),
            spawns: v.pipe.spawns,
            max_threads: v.pipe.max_threads,
        }).load_all(init_targets(first, center as int, num_files as int, size as nat)),
    }
}

/// `w` is window `v` after its half-size was set to `cache_count` with
/// `current_index` as the current file among `num_files` files: unchanged
/// when the half-size is the same; otherwise the new half-size, and, when
/// there are files, the window initialized around `current_index` with
/// `center_texture` in its center slot.
pub open spec fn resized<T, I>(
    v: WindowView<T, I>,
    cache_count: int,
    current_index: usize,
    num_files: usize,
    center_texture: Option<CachedTexture<T>>,
    w: WindowView<T, I>,
) -> bool {
    if cache_count == v.cache_count {
        w == v
    } else if num_files == 0 {
        w == (WindowView { cache_count: cache_count, ..v })
    } else {
        w == init_view(
            WindowView { cache_count: cache_count, ..v },
            current_index,
            num_files,
            center_texture,
        )
    }
}

/// `w` is window `v` after a poll that handled the finished decodes `rs`
/// in order and then took at most `UPLOADS_PER_FRAME` decoded images for
/// upload with `f`; `repaint` tells whether work is still queued.
pub open spec fn polled<T, I, F: Fn(usize, I) -> CachedTexture<T>>(
    v: WindowView<T, I>,
    rs: Seq<DecodeResult<I>>,
    f: F,
    w: WindowView<T, I>,
    repaint: bool,
) -> bool {
    let mid = v.pipe.receive_all(rs, v.first, v.slots.len() as int);
    let k: int = if mid.pending_uploads.len() >= 2 {
        2
    } else {
        mid.pending_uploads.len() as int
    };
    &&& w.first == v.first
    &&& w.cache_count == v.cache_count
    &&& w.pipe == mid.with_uploads(mid.pending_uploads.skip(k))
    &&& exists|s1: Seq<Option<CachedTexture<T>>>|
        upload_step(v.slots, v.first, mid.pending_uploads, f, s1) && upload_step(
            s1,
            v.first,
            mid.pending_uploads.skip(if mid.pending_uploads.len() > 0 { 1 } else { 0 }),
            f,
            w.slots,
        )
    &&& repaint == (w.pipe.pending_uploads.len() > 0 || w.pipe.pending_decodes.len() > 0)
}

/// Slots of an empty window of `n` slots.
pub open spec fn empty_slots<T>(n: nat) -> Seq<Option<CachedTexture<T>>> {
    Seq::new(n, |i: int| None)
}

/// Total bytes (`width * height * 4`) of the loaded slots.
pub open spec fn loaded_bytes<T>(slots: Seq<Option<CachedTexture<T>>>) -> nat
    decreases slots.len(),
{
    if slots.len() == 0 {
        0
    } else {
        loaded_bytes(slots.drop_last()) + match slots.last() {
            Some(t) => (t.size[0] * t.size[1] * 4) as nat,
            None => 0,
        }
    }
}

/// Number of loaded slots.
pub open spec fn loaded_count<T>(slots: Seq<Option<CachedTexture<T>>>) -> nat
    decreases slots.len(),
{
    if slots.len() == 0 {
        0
    } else {
        loaded_count(slots.drop_last()) + if slots.last() is Some {
            1nat
        } else {
            0nat
        }
    }
}

pub proof fn lemma_load_all_push<I>(p: Pipeline<I>, idxs: Seq<usize>, x: usize)
    ensures
        p.load_all(idxs.push(x)) == p.load_all(idxs).load(x),
    decreases idxs.len(),
{
    if idxs.len() == 0 {
        let one = idxs.push(x);
        assert(one.drop_first() =~= Seq::<usize>::empty());
        assert(one[0] == x);
        assert(p.load_all(Seq::<usize>::empty()) == p);
        assert(p.load(x).load_all(Seq::<usize>::empty()) == p.load(x));
        assert(idxs =~= Seq::<usize>::empty());
    } else {
        assert(idxs.push(x).drop_first() =~= idxs.drop_first().push(x));
        lemma_load_all_push(p.load(idxs[0]), idxs.drop_first(), x);
    }
}

pub proof fn lemma_receive_all_push<I>(
    p: Pipeline<I>,
    rs: Seq<DecodeResult<I>>,
    r: DecodeResult<I>,
    first: int,
    len: int,
)
    ensures
        p.receive_all(rs.push(r), first, len) == p.receive_all(rs, first, len).receive(
            r,
            first,
            len,
        ),
    decreases rs.len(),
{
    if rs.len() == 0 {
        assert(rs.push(r).drop_first() =~= Seq::<DecodeResult<I>>::empty());
        assert(p.receive_all(Seq::<DecodeResult<I>>::empty(), first, len) == p);
        let q = p.receive(r, first, len);
        assert(q.receive_all(Seq::<DecodeResult<I>>::empty(), first, len) == q);
    } else {
        assert(rs.push(r).drop_first() =~= rs.drop_first().push(r));
        lemma_receive_all_push(p.receive(rs[0], first, len), rs.drop_first(), r, first, len);
    }
}

pub proof fn lemma_init_targets_bounded(first: int, center: int, num_files: int, k: nat)
    requires
        0 <= first,
        num_files <= usize::MAX,
    ensures
        forall|i: int|
            0 <= i < init_targets(first, center, num_files, k).len() ==> first <= #[trigger] init_targets(
                first,
                center,
                num_files,
                k,
            )[i] < first + k && init_targets(first, center, num_files, k)[i] < num_files
                && init_targets(first, center, num_files, k)[i] != center,
    decreases k,
{
    if k > 0 {
        lemma_init_targets_bounded(first, center, num_files, (k - 1) as nat);
        let prev = init_targets(first, center, num_files, (k - 1) as nat);
        let t = init_targets(first, center, num_files, k);
        assert forall|i: int| 0 <= i < t.len() implies first <= #[trigger] t[i] < first + k && t[i]
            < num_files && t[i] != center by {
            if i < prev.len() {
                assert(t[i] == prev[i]);
            }
        }
    }
}

pub proof fn lemma_loaded_bytes_push<T>(slots: Seq<Option<CachedTexture<T>>>, s: Option<CachedTexture<T>>)
    ensures
        loaded_bytes(slots.push(s)) == loaded_bytes(slots) + match s {
            Some(t) => (t.size[0] * t.size[1] * 4) as nat,
            None => 0,
        },
        loaded_count(slots.push(s)) == loaded_count(slots) + if s is Some {
            1nat
        } else {
            0nat
        },
{
    assert(slots.push(s).drop_last() =~= slots);
}

/// Sliding window of decoded textures around the current image.
pub struct SlidingWindowCache<T, I> {
    slots: Vec<Option<CachedTexture<T>>>,
    first_file_index: usize,
    cache_count: usize,
    in_flight: HashSet<usize>,
    pending_uploads: VecDeque<(usize, I)>,
    pending_decodes: VecDeque<usize>,
    max_decode_threads: usize,
    spawn_requests: Vec<usize>,
}

impl<T, I> SlidingWindowCache<T, I> {
    pub closed spec fn view(&self) -> WindowView<T, I> {
        WindowView {
            slots: self.slots@,
            first: self.first_file_index as int,
            cache_count: self.cache_count as int,
            pipe: Pipeline {
                in_flight: self.in_flight@,
                pending_decodes: self.pending_decodes@,
                pending_uploads: self.pending_uploads@,
                spawns: self.spawn_requests@,
                max_threads: self.max_decode_threads as int,
            },
        }
    }

    /// Well-formedness: the window size fits in `usize`, the window has at
    /// least one slot, starts at a file index and ends within the range of
    /// `usize`, and the decode
    /// queue is disjoint from the decodes in flight.
    pub open spec fn wf(&self) -> bool {
        let v = self.view();
        &&& window_size(v.cache_count) <= usize::MAX
        &&& 1 <= v.slots.len()
        &&& 0 <= v.first
        &&& v.first + v.slots.len() <= usize::MAX
        &&& v.pipe.disjoint()
    }

    /// The window has `cache_count * 2 + 1` slots. This holds after `new`
    /// and after every initialization over a non-empty file list; a change
    /// of `cache_count` over an empty file list leaves the old slots.
    pub open spec fn sized(&self) -> bool {
        self.view().slots.len() == window_size(self.view().cache_count)
    }

    /// A window of `cache_count * 2 + 1` empty slots starting at file 0.
    pub fn new(cache_count: usize, decode_threads: usize) -> (c: Self)
        requires
            cache_count * 2 + 1 <= usize::MAX,
        ensures
            c.wf(),
            c.sized(),
            c.view().slots == empty_slots::<T>(window_size(cache_count as int) as nat),
            c.view().first == 0,
            c.view().cache_count == cache_count,
            c.view().pipe.in_flight == Set::<usize>::empty(),
            c.view().pipe.pending_decodes == Seq::<usize>::empty(),
            c.view().pipe.pending_uploads == Seq::<(usize, I)>::empty(),
            c.view().pipe.spawns == Seq::<usize>::empty(),
            c.view().pipe.max_threads == decode_threads,
    {
        let size = cache_count * 2 + 1;
        let mut slots: Vec<Option<CachedTexture<T>>> = Vec::new();
        let mut i: usize = 0;
        while i < size
            invariant
                i <= size,
                slots@ == empty_slots::<T>(i as nat),
            decreases size - i,
        {
            slots.push(None);
            i = i + 1;
            assert(slots@ =~= empty_slots::<T>(i as nat));
        }
        SlidingWindowCache {
            slots,
            first_file_index: 0,
            cache_count,
            in_flight: HashSet::new(),
            pending_uploads: VecDeque::new(),
            pending_decodes: VecDeque::new(),
            max_decode_threads: decode_threads,
            spawn_requests: Vec::new(),
        }
    }

    /// Number of slots in the window.
    pub fn cache_size(&self) -> (n: usize)
        requires
            self.wf(),
        ensures
            n == window_size(self.view().cache_count),
    {
        self.cache_count * 2 + 1
    }

    /// File index that slot 0 maps to.
    pub fn first_file_index(&self) -> (n: usize)
        ensures
            n == self.view().first,
    {
        self.first_file_index
    }

    /// Half-size of the window.
    pub fn cache_count(&self) -> (n: usize)
        ensures
            n == self.view().cache_count,
    {
        self.cache_count
    }

    /// Slot that holds `file_index`, if it is inside the window.
    fn slot_index_for(&self, file_index: usize) -> (r: Option<usize>)
        ensures
            r == match slot_of(self.view().first, self.view().slots.len() as int, file_index) {
                Some(p) => Some(p as usize),
                None => None::<usize>,
            },
    {
        if file_index < self.first_file_index {
            return None;
        }
        let idx = file_index - self.first_file_index;
        if idx < self.slots.len() {
            Some(idx)
        } else {
            None
        }
    }

    /// A clone of the texture cached for `file_index`, if any.
    pub fn current_texture_for(&self, file_index: usize) -> (r: Option<T>) where T: Clone
        ensures
            match texture_at(self.view(), file_index) {
                Some(t) => r matches Some(h) && cloned(t.handle, h),
                None => r is None,
            },
    {
        if file_index < self.first_file_index {
            return None;
        }
        let slot_idx = file_index - self.first_file_index;
        if slot_idx < self.slots.len() {
            match &self.slots[slot_idx] {
                Some(t) => Some(t.handle.clone()),
                None => None,
            }
        } else {
            None
        }
    }

    /// Records a decode of `file_index` as started.
    fn spawn_thread(&mut self, file_index: usize)
        requires
            old(self).wf(),
            !old(self).view().pipe.in_flight.contains(file_index),
            !old(self).view().pipe.pending_decodes.contains(file_index),
        ensures
            final(self).wf(),
            final(self).view() == (WindowView {
                pipe: old(self).view().pipe.start(file_index),
                ..old(self).view()
            }),
    {
        self.in_flight.insert(file_index);
        self.spawn_requests.push(file_index);
        proof {
            let p = self.view().pipe;
            assert forall|i: int| 0 <= i < p.pending_decodes.len() implies !p.in_flight.contains(
                #[trigger] p.pending_decodes[i],
            ) by {
                assert(old(self).view().pipe.pending_decodes[i] != file_index);
            }
        }
    }

    /// Requests a decode of `file_index`: started at once when a decode
    /// thread is free, queued otherwise; nothing happens when it is already
    /// in flight or queued.
    fn spawn_load(&mut self, file_index: usize)
        requires
            old(self).wf(),
        ensures
            final(self).wf(),
            final(self).view() == (WindowView {
                pipe: old(self).view().pipe.load(file_index),
                ..old(self).view()
            }),
    {
        if self.in_flight.contains(&file_index) {
            return;
        }
        let mut k: usize = 0;
        while k < self.pending_decodes.len()
            invariant
                self.wf(),
                self.view() == old(self).view(),
                k <= self.pending_decodes@.len(),
                forall|j: int| 0 <= j < k ==> self.pending_decodes@[j] != file_index,
            decreases self.pending_decodes@.len() - k,
        {
            if self.pending_decodes[k] == file_index {
                assert(self.pending_decodes@.contains(file_index));
                return;
            }
            k = k + 1;
        }
        assert(!self.pending_decodes@.contains(file_index));
        if self.in_flight.len() < self.max_decode_threads {
            self.spawn_thread(file_index);
        } else {
            self.pending_decodes.push_back(file_index);
            proof {
                let p = self.view().pipe;
                let q = old(self).view().pipe;
                assert(p.pending_decodes == q.pending_decodes.push(file_index));
                assert forall|i: int| 0 <= i < p.pending_decodes.len() implies !p.in_flight.contains(
                    #[trigger] p.pending_decodes[i],
                ) by {
                    if i < q.pending_decodes.len() {
                        assert(p.pending_decodes[i] == q.pending_decodes[i]);
                    }
                }
                assert(p.pending_decodes.no_duplicates()) by {
                    assert forall|i: int, j: int|
                        0 <= i < p.pending_decodes.len() && 0 <= j < p.pending_decodes.len() && i
                            != j implies p.pending_decodes[i] != p.pending_decodes[j] by {
                        if i < q.pending_decodes.len() && j < q.pending_decodes.len() {
                        } else if i < q.pending_decodes.len() {
                            assert(q.pending_decodes[i] != file_index);
                        } else {
                            assert(q.pending_decodes[j] != file_index);
                        }
                    }
                }
            }
        }
    }

    /// Initializes the window centered on `center_index` (clamped so that
    /// the window does not run past the last file): the decode queues are
    /// cleared, the center image is decoded at once with `decode_center`,
    /// and every other file inside the window is requested for background
    /// decoding, in slot order. Nothing happens when there are no files.
    pub fn initialize<F: FnOnce(usize) -> Option<CachedTexture<T>>>(
        &mut self,
        center_index: usize,
        num_files: usize,
        decode_center: F,
    )
        requires
            old(self).wf(),
            num_files > 0 ==> center_index < num_files,
            num_files > 0 ==> call_requires(decode_center, (center_index,)),
        ensures
            final(self).wf(),
            num_files == 0 ==> final(self).view() == old(self).view(),
            num_files > 0 ==> final(self).sized(),
            num_files > 0 ==> exists|r: Option<CachedTexture<T>>|
                call_ensures(decode_center, (center_index,), r) && final(self).view() == init_view(
                    old(self).view(),
                    center_index,
                    num_files,
                    r,
                ),
    {
        if num_files == 0 {
            return;
        }
        let ghost v = self.view();
        self.in_flight.clear();
        self.pending_uploads.clear();
        self.pending_decodes.clear();
        let cache_size = self.cache_size();
        let max_first = if num_files >= cache_size {
            num_files - cache_size
        } else {
            0
        };
        let from_center = if center_index >= self.cache_count {
            center_index - self.cache_count
        } else {
            0
        };
        self.first_file_index = if from_center <= max_first {
            from_center
        } else {
            max_first
        };
        let first = self.first_file_index;
        let mut slots: Vec<Option<CachedTexture<T>>> = Vec::new();
        let mut k: usize = 0;
        while k < cache_size
            invariant
                k <= cache_size,
                slots@ == empty_slots::<T>(k as nat),
            decreases cache_size - k,
        {
            slots.push(None);
            k = k + 1;
            assert(slots@ =~= empty_slots::<T>(k as nat));
        }
        self.slots = slots;
        let center_slot = center_index - first;
        let tex = decode_center(center_index);
        self.slots.set(center_slot, tex);
        let ghost base = self.view().pipe;
        assert(base.disjoint()) by {
            assert(base.pending_decodes =~= Seq::<usize>::empty());
        }
        let mut i: usize = 0;
        while i < cache_size
            invariant
                self.wf(),
                i <= cache_size,
                cache_size == window_size(v.cache_count),
                first == self.first_file_index,
                first == centered_first(center_index as int, v.cache_count, num_files as int),
                center_slot == center_index - first,
                self.view().cache_count == v.cache_count,
                self.view().slots == empty_slots::<T>(cache_size as nat).update(center_slot as int, tex),
                self.view().pipe == base.load_all(
                    init_targets(first as int, center_index as int, num_files as int, i as nat),
                ),
            decreases cache_size - i,
        {
            let ghost before = init_targets(
                first as int,
                center_index as int,
                num_files as int,
                i as nat,
            );
            if i != center_slot {
                let file_index = first + i;
                if file_index < num_files {
                    self.spawn_load(file_index);
                    proof {
                        lemma_load_all_push(base, before, file_index);
                    }
                }
            }
            i = i + 1;
        }
        proof {
            assert(base == (Pipeline {
                in_flight: Set::<usize>::empty(),
                pending_decodes: Seq::<usize>::empty(),
                pending_uploads: Seq::<(usize, I)>::empty(),
                spawns: v.pipe.spawns,
                max_threads: v.pipe.max_threads,
            }));
            assert(self.view() == init_view(v, center_index, num_files, tex));
        }
    }

    /// Shifts the window for forward navigation to `new_index`: when the new
    /// image is right of the center slot, the window moves one file to the
    /// right and the file entering on the right is requested for decoding
    /// (if it exists). Returns the texture cached for `new_index`, if any.
    pub fn navigate_forward(&mut self, new_index: usize, num_files: usize) -> (r: Option<T>) where
        T: Clone,

        requires
            old(self).wf(),
            old(self).view().first <= new_index,
            new_index - old(self).view().first > old(self).view().cache_count ==> old(self).view().first
                + window_size(old(self).view().cache_count) < usize::MAX && old(self).view().first
                + old(self).view().slots.len() < usize::MAX,
        ensures
            final(self).wf(),
            old(self).sized() ==> final(self).sized(),
            final(self).view() == forward_view(old(self).view(), new_index, num_files),
            new_index - old(self).view().first > old(self).view().cache_count ==> {
                &&& final(self).view().first == old(self).view().first + 1
                &&& old(self).view().first + window_size(old(self).view().cache_count) < num_files
                    ==> requested(
                    final(self).view().pipe,
                    (old(self).view().first + window_size(old(self).view().cache_count)) as usize,
                )
            },
            new_index - old(self).view().first <= old(self).view().cache_count ==> final(self).view()
                == old(self).view(),
            match texture_at(final(self).view(), new_index) {
                Some(t) => r matches Some(h) && cloned(t.handle, h),
                None => r is None,
            },
    {
        proof {
            law_forward_step_shifts(self.view(), new_index, num_files);
        }
        let current_slot = new_index - self.first_file_index;
        if current_slot > self.cache_count {
            self.slots.remove(0);
            self.slots.push(None);
            self.first_file_index = self.first_file_index + 1;
            let new_file_index = self.first_file_index + self.cache_size() - 1;
            if new_file_index < num_files {
                self.spawn_load(new_file_index);
            }
        }
        self.current_texture_for(new_index)
    }

    /// Shifts the window for backward navigation to `new_index`: when the
    /// new image is left of the center slot and the window does not start
    /// at file 0, the window moves one file to the left and the file
    /// entering on the left is requested for decoding. Returns the texture
    /// cached for `new_index`, if any.
    pub fn navigate_backward(&mut self, new_index: usize, num_files: usize) -> (r: Option<T>) where
        T: Clone,

        requires
            old(self).wf(),
            old(self).view().first <= new_index,
            new_index - old(self).view().first < old(self).view().cache_count && old(self).view().first
                > 0 ==> old(self).view().first - 1 < num_files,
        ensures
            final(self).wf(),
            old(self).sized() ==> final(self).sized(),
            final(self).view() == backward_view(old(self).view(), new_index),
            new_index - old(self).view().first < old(self).view().cache_count && old(self).view().first
                > 0 ==> {
                &&& final(self).view().first == old(self).view().first - 1
                &&& requested(final(self).view().pipe, (old(self).view().first - 1) as usize)
            },
            !(new_index - old(self).view().first < old(self).view().cache_count && old(self).view().first
                > 0) ==> final(self).view() == old(self).view(),
            match texture_at(final(self).view(), new_index) {
                Some(t) => r matches Some(h) && cloned(t.handle, h),
                None => r is None,
            },
    {
        proof {
            law_backward_step_shifts(self.view(), new_index);
        }
        let current_slot = new_index - self.first_file_index;
        if current_slot < self.cache_count && self.first_file_index > 0 {
            let ghost v = self.view();
            let last = self.slots.len() - 1;
            self.slots.remove(last);
            self.slots.insert(0, None);
            assert(self.slots@ =~= seq![None].add(v.slots.drop_last()));
            self.first_file_index = self.first_file_index - 1;
            self.spawn_load(self.first_file_index);
        }
        self.current_texture_for(new_index)
    }

    /// Rebuilds the window around `new_index` (slider release, Home/End).
    pub fn jump_to<F: FnOnce(usize) -> Option<CachedTexture<T>>>(
        &mut self,
        new_index: usize,
        num_files: usize,
        decode_center: F,
    )
        requires
            old(self).wf(),
            num_files > 0 ==> new_index < num_files,
            num_files > 0 ==> call_requires(decode_center, (new_index,)),
        ensures
            final(self).wf(),
            num_files == 0 ==> final(self).view() == old(self).view(),
            num_files > 0 ==> final(self).sized(),
            num_files > 0 ==> exists|r: Option<CachedTexture<T>>|
                call_ensures(decode_center, (new_index,), r) && final(self).view() == init_view(
                    old(self).view(),
                    new_index,
                    num_files,
                    r,
                ),
    {
        self.initialize(new_index, num_files, decode_center);
    }

    /// Changes the window half-size and reinitializes the window around
    /// `current_index`. Nothing happens when the half-size is unchanged.
    pub fn set_cache_count<F: FnOnce(usize) -> Option<CachedTexture<T>>>(
        &mut self,
        cache_count: usize,
        current_index: usize,
        num_files: usize,
        decode_center: F,
    )
        requires
            old(self).wf(),
            cache_count * 2 + 1 <= usize::MAX,
            cache_count != old(self).view().cache_count && num_files > 0 ==> current_index
                < num_files && call_requires(decode_center, (current_index,)),
        ensures
            final(self).wf(),
            cache_count == old(self).view().cache_count ==> final(self).view() == old(self).view(),
            final(self).view().cache_count == cache_count,
            cache_count != old(self).view().cache_count && num_files == 0 ==> final(self).view()
                == (WindowView { cache_count: cache_count as int, ..old(self).view() }),
            cache_count != old(self).view().cache_count && num_files > 0 ==> final(self).sized(),
            cache_count != old(self).view().cache_count && num_files > 0 ==> exists|
                r: Option<CachedTexture<T>>,
            |
                call_ensures(decode_center, (current_index,), r) && final(self).view() == init_view(
                    WindowView { cache_count: cache_count as int, ..old(self).view() },
                    current_index,
                    num_files,
                    r,
                ),
            exists|r: Option<CachedTexture<T>>|
                #[trigger] resized(
                    old(self).view(),
                    cache_count as int,
                    current_index,
                    num_files,
                    r,
                    final(self).view(),
                ),
    {
        let ghost v = self.view();
        if self.cache_count == cache_count {
            assert(resized(v, cache_count as int, current_index, num_files, None, self.view()));
            return;
        }
        self.cache_count = cache_count;
        self.initialize(current_index, num_files, decode_center);
        proof {
            if num_files == 0 {
                assert(resized(v, cache_count as int, current_index, num_files, None, self.view()));
            } else {
                let r = choose|r: Option<CachedTexture<T>>|
                    call_ensures(decode_center, (current_index,), r) && self.view() == init_view(
                        WindowView { cache_count: cache_count as int, ..v },
                        current_index,
                        num_files,
                        r,
                    );
                assert(resized(v, cache_count as int, current_index, num_files, r, self.view()));
            }
        }
    }

    /// Sets the number of decode threads, at least one.
    pub fn set_decode_threads(&mut self, n: usize)
        requires
            old(self).wf(),
        ensures
            final(self).wf(),
            final(self).view() == (WindowView {
                pipe: Pipeline {
                    max_threads: if n >= 1 { n as int } else { 1 },
                    ..old(self).view().pipe
                },
                ..old(self).view()
            }),
    {
        self.max_decode_threads = if n >= 1 { n } else { 1 };
    }

    /// Starts queued decodes while a decode thread is free; queued decodes
    /// whose file left the window are dropped.
    fn refill(&mut self)
        requires
            old(self).wf(),
        ensures
            final(self).wf(),
            final(self).view() == (WindowView {
                pipe: old(self).view().pipe.refill(
                    old(self).view().first,
                    old(self).view().slots.len() as int,
                ),
                ..old(self).view()
            }),
    {
        let ghost first = self.first_file_index as int;
        let ghost len = self.slots@.len() as int;
        let ghost target = self.view().pipe.refill(first, len);
        let ghost v0 = self.view();
        while self.in_flight.len() < self.max_decode_threads
            invariant_except_break
                self.wf(),
                len == v0.slots.len(),
                self.view().pipe.refill(first, len) == target,
                self.view().slots == v0.slots,
                self.view().first == first,
                self.view().cache_count == v0.cache_count,
            ensures
                self.wf(),
                self.view().pipe == target,
                self.view().slots == v0.slots,
                self.view().first == first,
                self.view().cache_count == v0.cache_count,
            decreases self.pending_decodes@.len(),
        {
            let ghost p = self.view().pipe;
            match self.pending_decodes.pop_front() {
                Some(idx) => {
                    proof {
                        assert(p.pending_decodes[0] == idx);
                        assert(!p.in_flight.contains(idx));
                        assert(!self.pending_decodes@.contains(idx)) by {
                            if self.pending_decodes@.contains(idx) {
                                let j = choose|j: int|
                                    0 <= j < self.pending_decodes@.len()
                                        && self.pending_decodes@[j] == idx;
                                assert(p.pending_decodes[j + 1] == idx);
                            }
                        }
                        assert forall|i: int| 0 <= i < self.pending_decodes@.len() implies !self.in_flight@.contains(
                            #[trigger] self.pending_decodes@[i],
                        ) by {
                            assert(self.pending_decodes@[i] == p.pending_decodes[i + 1]);
                        }
                        assert(self.pending_decodes@.no_duplicates()) by {
                            assert forall|i: int, j: int|
                                0 <= i < self.pending_decodes@.len() && 0 <= j
                                    < self.pending_decodes@.len() && i != j implies self.pending_decodes@[i]
                                != self.pending_decodes@[j] by {
                                assert(self.pending_decodes@[i] == p.pending_decodes[i + 1]);
                                assert(self.pending_decodes@[j] == p.pending_decodes[j + 1]);
                            }
                        }
                    }
                    let ghost rest = Pipeline {
                        pending_decodes: p.pending_decodes.drop_first(),
                        ..p
                    };
                    assert(self.view().pipe.pending_decodes == p.pending_decodes.drop_first());
                    assert(p.in_flight.len() < p.max_threads);
                    assert(self.view().pipe == rest);
                    assert(p.refill(first, len) == if slot_of(first, len, idx) is Some {
                        rest.start(idx).refill(first, len)
                    } else {
                        rest.refill(first, len)
                    });
                    if self.slot_index_for(idx).is_some() {
                        self.spawn_thread(idx);
                    }
                },
                None => {
                    break;
                },
            }
        }
    }

    /// Handles one finished decode.
    fn receive(&mut self, r: DecodeResult<I>)
        requires
            old(self).wf(),
        ensures
            final(self).wf(),
            final(self).view() == (WindowView {
                pipe: old(self).view().pipe.receive(
                    r,
                    old(self).view().first,
                    old(self).view().slots.len() as int,
                ),
                ..old(self).view()
            }),
    {
        self.in_flight.remove(&r.file_index);
        match r.image {
            Some(img) => {
                self.pending_uploads.push_back((r.file_index, img));
            },
            None => {},
        }
        self.refill();
    }

    /// Takes the oldest decoded image waiting for upload, if any, and
    /// uploads it with `upload` when its file is still inside the window
    /// and its slot is empty.
    fn upload_next<F: Fn(usize, I) -> CachedTexture<T>>(&mut self, upload: &F)
        requires
            old(self).wf(),
            forall|idx: usize, img: I| call_requires(*upload, (idx, img)),
        ensures
            final(self).wf(),
            final(self).view().first == old(self).view().first,
            final(self).view().cache_count == old(self).view().cache_count,
            upload_step(
                old(self).view().slots,
                old(self).view().first,
                old(self).view().pipe.pending_uploads,
                *upload,
                final(self).view().slots,
            ),
            final(self).view().pipe == old(self).view().pipe.with_uploads(
                old(self).view().pipe.pending_uploads.skip(
                    if old(self).view().pipe.pending_uploads.len() > 0 { 1 } else { 0 },
                ),
            ),
    {
        match self.pending_uploads.pop_front() {
            Some((file_index, image)) => {
                match self.slot_index_for(file_index) {
                    Some(slot_idx) => {
                        if self.slots[slot_idx].is_none() {
                            let texture = upload(file_index, image);
                            self.slots.set(slot_idx, Some(texture));
                        }
                    },
                    None => {},
                }
            },
            None => {
                assert(self.view().pipe.pending_uploads.skip(0) =~= self.view().pipe.pending_uploads);
            },
        }
    }

    /// Handles the decodes that finished since the last call (in order),
    /// then uploads at most `UPLOADS_PER_FRAME` decoded images with
    /// `upload`. Returns whether work is still queued, in which case the
    /// caller should repaint again soon.
    pub fn poll<F: Fn(usize, I) -> CachedTexture<T>>(
        &mut self,
        results: Vec<DecodeResult<I>>,
        upload: F,
    ) -> (repaint: bool)
        requires
            old(self).wf(),
            forall|idx: usize, img: I| call_requires(upload, (idx, img)),
        ensures
            final(self).wf(),
            old(self).sized() ==> final(self).sized(),
            polled(old(self).view(), results@, upload, final(self).view(), repaint),
    {
        let ghost v = self.view();
        let ghost first = v.first;
        let ghost len = v.slots.len() as int;
        let mut results = results;
        let ghost all = results@;
        let n = results.len();
        let mut done: usize = 0;
        while results.len() > 0
            invariant
                self.wf(),
                self.view().slots == v.slots,
                self.view().first == first,
                self.view().cache_count == v.cache_count,
                done <= all.len(),
                all.len() == n,
                first == v.first,
                len == v.slots.len(),
                results@.len() + done == all.len(),
                results@ == all.skip(done as int),
                self.view().pipe == v.pipe.receive_all(all.take(done as int), first, len),
            decreases results@.len(),
        {
            let r = results.remove(0);
            proof {
                assert(all[done as int] == r);
                assert(all.take(done as int + 1) =~= all.take(done as int).push(r));
                lemma_receive_all_push(v.pipe, all.take(done as int), r, first, len);
            }
            self.receive(r);
            done = done + 1;
            assert(results@ =~= all.skip(done as int));
        }
        assert(all.take(done as int) =~= all);
        let ghost mid = self.view().pipe;
        self.upload_next(&upload);
        let ghost s1 = self.view().slots;
        self.upload_next(&upload);
        proof {
            let u = mid.pending_uploads;
            let a: int = if u.len() > 0 { 1 } else { 0 };
            let b: int = if u.skip(a).len() > 0 { 1 } else { 0 };
            let k: int = if u.len() >= 2 { 2 } else { u.len() as int };
            assert(u.skip(a).skip(b) =~= u.skip(k));
        }
        self.pending_uploads.len() > 0 || self.pending_decodes.len() > 0
    }

    /// Number of loaded slots.
    fn loaded_slots(&self) -> (n: usize)
        ensures
            n == loaded_count(self.view().slots),
    {
        let mut n: usize = 0;
        let mut i: usize = 0;
        while i < self.slots.len()
            invariant
                i <= self.slots@.len(),
                n == loaded_count(self.slots@.take(i as int)),
                n <= i,
            decreases self.slots@.len() - i,
        {
            proof {
                assert(self.slots@.take(i as int + 1) =~= self.slots@.take(i as int).push(self.slots@[i as int]));
                lemma_loaded_bytes_push(self.slots@.take(i as int), self.slots@[i as int]);
            }
            if self.slots[i].is_some() {
                n = n + 1;
            }
            i = i + 1;
        }
        assert(self.slots@.take(i as int) =~= self.slots@);
        n
    }

    /// A compact summary of the window for debug logging:
    /// `[first..last] loaded/total inflight=N`.
    pub fn summary(&self) -> (s: String)
        requires
            self.wf(),
        ensures
            s@ == summary_text(
                self.view().first as nat,
                (self.view().first + self.view().slots.len() - 1) as nat,
                loaded_count(self.view().slots),
                self.view().slots.len(),
                self.view().pipe.in_flight.len(),
            ),
    {
        let last = self.first_file_index + (self.slots.len() - 1);
        let loaded = self.loaded_slots();
        let total = self.slots.len();
        let mut s = String::new();
        proof {
            reveal_strlit("[");
            reveal_strlit("..");
            reveal_strlit("] ");
            reveal_strlit("/");
            reveal_strlit(" inflight=");
        }
        s.append("[");
        crate::text::push_decimal(&mut s, self.first_file_index as u64);
        s.append("..");
        crate::text::push_decimal(&mut s, last as u64);
        s.append("] ");
        crate::text::push_decimal(&mut s, loaded as u64);
        s.append("/");
        crate::text::push_decimal(&mut s, total as u64);
        s.append(" inflight=");
        crate::text::push_decimal(&mut s, self.in_flight.len() as u64);
        s
    }

    /// Total bytes (`width * height * 4`) of the loaded textures.
    pub fn total_bytes(&self) -> (n: usize)
        requires
            loaded_bytes(self.view().slots) <= usize::MAX,
        ensures
            n == loaded_bytes(self.view().slots),
    {
        let mut n: usize = 0;
        let mut i: usize = 0;
        while i < self.slots.len()
            invariant
                i <= self.slots@.len(),
                n == loaded_bytes(self.slots@.take(i as int)),
                loaded_bytes(self.slots@) <= usize::MAX,
            decreases self.slots@.len() - i,
        {
            proof {
                assert(self.slots@.take(i as int + 1) =~= self.slots@.take(i as int).push(self.slots@[i as int]));
                lemma_loaded_bytes_push(self.slots@.take(i as int), self.slots@[i as int]);
                lemma_loaded_bytes_prefix(self.slots@, i as int + 1);
            }
            match &self.slots[i] {
                Some(t) => {
                    let w = t.size[0];
                    let h = t.size[1];
                    assert(w * h * 4 <= usize::MAX);
                    assert(w * h <= usize::MAX) by (nonlinear_arith)
                        requires
                            w * h * 4 <= usize::MAX,
                    ;
                    n = n + w * h * 4;
                },
                None => {},
            }
            i = i + 1;
        }
        assert(self.slots@.take(i as int) =~= self.slots@);
        n
    }

    /// State of slot `slot` for the overlay: invalid when it maps past the
    /// last of `num_files` files, else loaded, loading or empty.
    pub fn slot_state(&self, slot: usize, num_files: usize) -> (st: SlotState)
        requires
            self.view().first + slot <= usize::MAX,
        ensures
            st == ({
                let f = self.view().first + slot;
                if f >= num_files {
                    SlotState::Invalid
                } else if slot < self.view().slots.len() && self.view().slots[slot as int] is Some {
                    SlotState::Loaded
                } else if self.view().pipe.in_flight.contains(f as usize) {
                    SlotState::Loading
                } else {
                    SlotState::Empty
                }
            }),
    {
        let file_index = self.first_file_index + slot;
        let is_loaded = slot < self.slots.len() && self.slots[slot].is_some();
        if file_index >= num_files {
            SlotState::Invalid
        } else if is_loaded {
            SlotState::Loaded
        } else if self.in_flight.contains(&file_index) {
            SlotState::Loading
        } else {
            SlotState::Empty
        }
    }

    /// Hands the started decodes to the caller, which spawns one decode
    /// thread per returned file index, in order.
    pub fn take_spawn_requests(&mut self) -> (r: Vec<usize>)
        requires
            old(self).wf(),
        ensures
            final(self).wf(),
            r@ == old(self).view().pipe.spawns,
            final(self).view() == (WindowView {
                pipe: Pipeline { spawns: Seq::<usize>::empty(), ..old(self).view().pipe },
                ..old(self).view()
            }),
    {
        let mut r: Vec<usize> = Vec::new();
        std::mem::swap(&mut r, &mut self.spawn_requests);
        r
    }
}

/// Initialization centers the window on the current image: the image is
/// always inside the window, and it sits at the center slot `cache_count`
/// unless the window would run past either end of the file list.
pub proof fn law_center_in_window(center: int, cache_count: int, num_files: int)
    requires
        0 <= center < num_files,
        0 <= cache_count,
    ensures
        0 <= centered_first(center, cache_count, num_files) <= center,
        center - centered_first(center, cache_count, num_files) < window_size(cache_count),
        cache_count <= center && center + cache_count < num_files ==> centered_first(
            center,
            cache_count,
            num_files,
        ) == center - cache_count,
        centered_first(center, cache_count, num_files) + window_size(cache_count) <= num_files
            || centered_first(center, cache_count, num_files) == 0,
{
}

/// A decode of `f` has been asked for: it is in flight or queued.
pub open spec fn requested<I>(p: Pipeline<I>, f: usize) -> bool {
    p.in_flight.contains(f) || p.pending_decodes.contains(f)
}

proof fn lemma_load_keeps_requested<I>(p: Pipeline<I>, x: usize, g: usize)
    ensures
        requested(p.load(x), x),
        requested(p, g) ==> requested(p.load(x), g),
{
    let q = p.load(x);
    if !(p.in_flight.contains(x) || p.pending_decodes.contains(x)) {
        if p.in_flight.len() < p.max_threads {
            assert(q.in_flight.contains(x));
        } else {
            assert(q.pending_decodes[q.pending_decodes.len() - 1] == x);
            if p.pending_decodes.contains(g) {
                let i = choose|i: int| 0 <= i < p.pending_decodes.len() && p.pending_decodes[i] == g;
                assert(q.pending_decodes[i] == g);
            }
        }
    }
}

proof fn lemma_load_all_requests<I>(p: Pipeline<I>, first: int, center: int, num_files: int, k: nat, f: usize)
    requires
        first <= f < first + k,
        f < num_files,
        f != center,
    ensures
        requested(p.load_all(init_targets(first, center, num_files, k)), f),
    decreases k,
{
    let prev = init_targets(first, center, num_files, (k - 1) as nat);
    let last = first + k - 1;
    if last != center && last < num_files {
        lemma_load_all_push(p, prev, last as usize);
        lemma_load_keeps_requested(p.load_all(prev), last as usize, f);
        if f < last {
            lemma_load_all_requests(p, first, center, num_files, (k - 1) as nat, f);
        }
    } else {
        lemma_load_all_requests(p, first, center, num_files, (k - 1) as nat, f);
    }
}

/// Initialization preloads the neighbors: around a center among
/// `num_files` files, the window shows the center's texture in its slot and
/// has asked for a decode of every other file inside it.
pub proof fn law_init_requests_neighbors<T, I>(
    v: WindowView<T, I>,
    center: usize,
    num_files: usize,
    center_texture: Option<CachedTexture<T>>,
    f: usize,
)
    requires
        center < num_files,
        0 <= v.cache_count,
    ensures
        ({
            let w = init_view(v, center, num_files, center_texture);
            &&& w.slots.len() == window_size(v.cache_count)
            &&& w.slots[center - w.first] == center_texture
            &&& w.first <= f < w.first + w.slots.len() && f < num_files && f != center ==> requested(
                w.pipe,
                f,
            )
        }),
{
    let w = init_view(v, center, num_files, center_texture);
    let first = centered_first(center as int, v.cache_count, num_files as int);
    law_center_in_window(center as int, v.cache_count, num_files as int);
    let p0 = Pipeline {
        in_flight: Set::<usize>::empty(),
        pending_decodes: Seq::<usize>::empty(),
        pending_uploads: Seq::<(usize, I)>::empty(),
        spawns: v.pipe.spawns,
        max_threads: v.pipe.max_threads,
    };
    if w.first <= f < w.first + w.slots.len() && f < num_files && f != center {
        lemma_load_all_requests(p0, first, center as int, num_files as int, window_size(v.cache_count) as nat, f);
    }
}

/// Navigation keeps preloading: when a step shifts the window, a decode of
/// the file entering it has been asked for (on the right after a step
/// forward, when that file exists; on the left after a step back), and
/// every earlier request stands.
pub proof fn law_shift_requests_entering<T, I>(v: WindowView<T, I>, new_index: usize, num_files: usize, g: usize)
    ensures
        ({
            let w = forward_view(v, new_index, num_files);
            let entering = v.first + window_size(v.cache_count);
            &&& w.first != v.first && entering < num_files ==> requested(w.pipe, entering as usize)
            &&& requested(v.pipe, g) ==> requested(w.pipe, g)
        }),
        ({
            let w = backward_view(v, new_index);
            &&& w.first != v.first ==> requested(w.pipe, (v.first - 1) as usize)
            &&& requested(v.pipe, g) ==> requested(w.pipe, g)
        }),
{
    let entering = v.first + window_size(v.cache_count);
    lemma_load_keeps_requested(v.pipe, entering as usize, g);
    lemma_load_keeps_requested(v.pipe, (v.first - 1) as usize, g);
}

/// A forward step shifts the window exactly when the new image is right of
/// the center slot, however many files there are: the window then starts
/// one file later with as many slots, and the file entering on the right is
/// requested when it exists. Otherwise nothing changes.
pub proof fn law_forward_step_shifts<T, I>(v: WindowView<T, I>, new_index: usize, num_files: usize)
    requires
        v.slots.len() >= 1,
    ensures
        ({
            let w = forward_view(v, new_index, num_files);
            let entering = v.first + window_size(v.cache_count);
            &&& new_index - v.first > v.cache_count ==> {
                &&& w.first == v.first + 1
                &&& w.cache_count == v.cache_count
                &&& w.slots.len() == v.slots.len()
                &&& w.slots[w.slots.len() - 1] is None
                &&& entering < num_files ==> requested(w.pipe, entering as usize)
            }
            &&& new_index - v.first <= v.cache_count ==> w == v
        }),
{
    let entering = v.first + window_size(v.cache_count);
    lemma_load_keeps_requested(v.pipe, entering as usize, entering as usize);
    if new_index - v.first > v.cache_count && entering < num_files {
        let p = v.pipe;
        if !(p.in_flight.contains(entering as usize) || p.pending_decodes.contains(entering as usize)) {
            if p.in_flight.len() >= p.max_threads {
                let q = p.load(entering as usize);
                assert(q.pending_decodes[q.pending_decodes.len() - 1] == entering as usize);
            }
        }
    }
}

/// A backward step shifts the window exactly when the new image is left of
/// the center slot and the window does not start at file 0: the window then
/// starts one file earlier with as many slots, and the file entering on the
/// left is requested. Otherwise nothing changes.
pub proof fn law_backward_step_shifts<T, I>(v: WindowView<T, I>, new_index: usize)
    requires
        v.slots.len() >= 1,
    ensures
        ({
            let w = backward_view(v, new_index);
            &&& new_index - v.first < v.cache_count && v.first > 0 ==> {
                &&& w.first == v.first - 1
                &&& w.cache_count == v.cache_count
                &&& w.slots.len() == v.slots.len()
                &&& w.slots[0] is None
                &&& requested(w.pipe, (v.first - 1) as usize)
            }
            &&& !(new_index - v.first < v.cache_count && v.first > 0) ==> w == v
        }),
{
    if new_index - v.first < v.cache_count && v.first > 0 {
        let x = (v.first - 1) as usize;
        let p = v.pipe;
        if !(p.in_flight.contains(x) || p.pending_decodes.contains(x)) {
            if p.in_flight.len() >= p.max_threads {
                let q = p.load(x);
                assert(q.pending_decodes[q.pending_decodes.len() - 1] == x);
            }
        }
    }
}

/// Stepping forward walks through the whole list: when a full window holds
/// the previous image (`new_index - 1`) and the new one, the image after
/// the new one is inside the window after the step, and the new image
/// stays inside it. So repeated forward steps reach the last file.
pub proof fn law_forward_walk_reaches_next<T, I>(v: WindowView<T, I>, new_index: usize, num_files: usize)
    requires
        v.slots.len() == window_size(v.cache_count),
        v.cache_count >= 0,
        v.first < new_index < v.first + v.slots.len(),
    ensures
        ({
            let w = forward_view(v, new_index, num_files);
            &&& slot_of(w.first, w.slots.len() as int, new_index) is Some
            &&& new_index + 1 <= usize::MAX ==> slot_of(
                w.first,
                w.slots.len() as int,
                (new_index + 1) as usize,
            ) is Some
        }),
{
}

/// Stepping backward walks through the whole list: when a full window
/// holds the new image and the previous one (`new_index + 1`), the image
/// before the new one is inside the window after the step, and the new
/// image stays inside it. So repeated backward steps reach file 0.
pub proof fn law_backward_walk_reaches_previous<T, I>(v: WindowView<T, I>, new_index: usize)
    requires
        v.slots.len() == window_size(v.cache_count),
        v.cache_count >= 0,
        v.first <= new_index,
        new_index + 1 < v.first + v.slots.len(),
    ensures
        ({
            let w = backward_view(v, new_index);
            &&& slot_of(w.first, w.slots.len() as int, new_index) is Some
            &&& new_index >= 1 ==> slot_of(w.first, w.slots.len() as int, (new_index - 1) as usize) is Some
        }),
{
}

proof fn lemma_refill_keeps_out<I>(p: Pipeline<I>, first: int, len: int, x: usize)
    requires
        !p.in_flight.contains(x),
        !p.pending_decodes.contains(x),
    ensures
        !p.refill(first, len).in_flight.contains(x),
    decreases p.pending_decodes.len(),
{
    if p.in_flight.len() < p.max_threads && p.pending_decodes.len() > 0 {
        let idx = p.pending_decodes[0];
        let rest = Pipeline { pending_decodes: p.pending_decodes.drop_first(), ..p };
        assert(idx != x);
        assert(!rest.pending_decodes.contains(x)) by {
            if rest.pending_decodes.contains(x) {
                let i = choose|i: int| 0 <= i < rest.pending_decodes.len() && rest.pending_decodes[i] == x;
                assert(p.pending_decodes[i + 1] == x);
            }
        }
        if slot_of(first, len, idx) is Some {
            lemma_refill_keeps_out(rest.start(idx), first, len, x);
        } else {
            lemma_refill_keeps_out(rest, first, len, x);
        }
    }
}

proof fn lemma_receive_limit<I>(p: Pipeline<I>, r: DecodeResult<I>, first: int, len: int)
    requires
        p.in_flight.finite(),
        p.in_flight.len() <= p.max_threads,
    ensures
        p.receive(r, first, len).in_flight.finite(),
        p.receive(r, first, len).in_flight.len() <= p.receive(r, first, len).max_threads,
        p.receive(r, first, len).max_threads == p.max_threads,
{
    let uploads = match r.image {
        Some(img) => p.pending_uploads.push((r.file_index, img)),
        None => p.pending_uploads,
    };
    let q = Pipeline {
        in_flight: p.in_flight.remove(r.file_index),
        pending_decodes: p.pending_decodes,
        pending_uploads: uploads,
        spawns: p.spawns,
        max_threads: p.max_threads,
    };
    lemma_refill_limit(q, first, len);
    lemma_refill_keeps_max(q, first, len);
}

proof fn lemma_refill_keeps_max<I>(p: Pipeline<I>, first: int, len: int)
    ensures
        p.refill(first, len).max_threads == p.max_threads,
    decreases p.pending_decodes.len(),
{
    if p.in_flight.len() < p.max_threads && p.pending_decodes.len() > 0 {
        let idx = p.pending_decodes[0];
        let rest = Pipeline { pending_decodes: p.pending_decodes.drop_first(), ..p };
        if slot_of(first, len, idx) is Some {
            lemma_refill_keeps_max(rest.start(idx), first, len);
        } else {
            lemma_refill_keeps_max(rest, first, len);
        }
    }
}

proof fn lemma_receive_all_limit<I>(p: Pipeline<I>, rs: Seq<DecodeResult<I>>, first: int, len: int)
    requires
        p.in_flight.finite(),
        p.in_flight.len() <= p.max_threads,
    ensures
        p.receive_all(rs, first, len).in_flight.finite(),
        p.receive_all(rs, first, len).in_flight.len() <= p.max_threads,
        p.receive_all(rs, first, len).max_threads == p.max_threads,
    decreases rs.len(),
{
    if rs.len() > 0 {
        lemma_receive_limit(p, rs[0], first, len);
        lemma_receive_all_limit(p.receive(rs[0], first, len), rs.drop_first(), first, len);
    }
}

/// A finished decode frees its thread: once a result for a file that was
/// in flight is handled, that file is no longer in flight (its queued
/// work is not restarted), and the thread limit still holds.
pub proof fn law_receive_frees_thread<I>(p: Pipeline<I>, r: DecodeResult<I>, first: int, len: int)
    requires
        p.disjoint(),
        p.in_flight.contains(r.file_index),
        p.in_flight.len() <= p.max_threads,
    ensures
        !p.receive(r, first, len).in_flight.contains(r.file_index),
        p.receive(r, first, len).in_flight.len() <= p.max_threads,
{
    let uploads = match r.image {
        Some(img) => p.pending_uploads.push((r.file_index, img)),
        None => p.pending_uploads,
    };
    let q = Pipeline {
        in_flight: p.in_flight.remove(r.file_index),
        pending_decodes: p.pending_decodes,
        pending_uploads: uploads,
        spawns: p.spawns,
        max_threads: p.max_threads,
    };
    assert(!p.pending_decodes.contains(r.file_index));
    lemma_refill_keeps_out(q, first, len, r.file_index);
    lemma_receive_limit(p, r, first, len);
}

proof fn lemma_refill_queue_shrinks<I>(p: Pipeline<I>, first: int, len: int, x: usize)
    requires
        !p.pending_decodes.contains(x),
    ensures
        !p.refill(first, len).pending_decodes.contains(x),
    decreases p.pending_decodes.len(),
{
    if p.in_flight.len() < p.max_threads && p.pending_decodes.len() > 0 {
        let idx = p.pending_decodes[0];
        let rest = Pipeline { pending_decodes: p.pending_decodes.drop_first(), ..p };
        assert(!rest.pending_decodes.contains(x)) by {
            if rest.pending_decodes.contains(x) {
                let i = choose|i: int| 0 <= i < rest.pending_decodes.len() && rest.pending_decodes[i] == x;
                assert(p.pending_decodes[i + 1] == x);
            }
        }
        if slot_of(first, len, idx) is Some {
            lemma_refill_queue_shrinks(rest.start(idx), first, len, x);
        } else {
            lemma_refill_queue_shrinks(rest, first, len, x);
        }
    }
}

proof fn lemma_receive_keeps_out<I>(p: Pipeline<I>, r: DecodeResult<I>, first: int, len: int, x: usize)
    requires
        !p.pending_decodes.contains(x),
        !p.in_flight.contains(x) || x == r.file_index,
    ensures
        !p.receive(r, first, len).in_flight.contains(x),
        !p.receive(r, first, len).pending_decodes.contains(x),
{
    let uploads = match r.image {
        Some(img) => p.pending_uploads.push((r.file_index, img)),
        None => p.pending_uploads,
    };
    let q = Pipeline {
        in_flight: p.in_flight.remove(r.file_index),
        pending_decodes: p.pending_decodes,
        pending_uploads: uploads,
        spawns: p.spawns,
        max_threads: p.max_threads,
    };
    lemma_refill_keeps_out(q, first, len, x);
    lemma_refill_queue_shrinks(q, first, len, x);
}

proof fn lemma_receive_all_frees<I>(p: Pipeline<I>, rs: Seq<DecodeResult<I>>, first: int, len: int, x: usize)
    requires
        !p.pending_decodes.contains(x),
        !p.in_flight.contains(x) || exists|j: int| 0 <= j < rs.len() && rs[j].file_index == x,
    ensures
        !p.receive_all(rs, first, len).in_flight.contains(x),
        !p.receive_all(rs, first, len).pending_decodes.contains(x),
    decreases rs.len(),
{
    if rs.len() > 0 {
        let q = p.receive(rs[0], first, len);
        let rest = rs.drop_first();
        if p.in_flight.contains(x) && rs[0].file_index != x {
            let j = choose|j: int| 0 <= j < rs.len() && rs[j].file_index == x;
            assert(rest[j - 1].file_index == x);
            lemma_refill_queue_shrinks(
                Pipeline {
                    in_flight: p.in_flight.remove(rs[0].file_index),
                    pending_decodes: p.pending_decodes,
                    pending_uploads: match rs[0].image {
                        Some(img) => p.pending_uploads.push((rs[0].file_index, img)),
                        None => p.pending_uploads,
                    },
                    spawns: p.spawns,
                    max_threads: p.max_threads,
                },
                first,
                len,
                x,
            );
        } else {
            lemma_receive_keeps_out(p, rs[0], first, len, x);
        }
        lemma_receive_all_frees(q, rest, first, len, x);
    }
}

/// Setting the window half-size twice to the same value changes nothing
/// the second time; after a change over a non-empty file list the window
/// has `cache_count * 2 + 1` slots and holds the new half-size.
pub proof fn law_resize_settles<T, I>(
    v: WindowView<T, I>,
    cache_count: int,
    current_index: usize,
    num_files: usize,
    r1: Option<CachedTexture<T>>,
    w1: WindowView<T, I>,
    r2: Option<CachedTexture<T>>,
    w2: WindowView<T, I>,
)
    requires
        0 <= cache_count,
        num_files > 0 ==> current_index < num_files,
        resized(v, cache_count, current_index, num_files, r1, w1),
        resized(w1, cache_count, current_index, num_files, r2, w2),
    ensures
        w1.cache_count == cache_count,
        w2 == w1,
        cache_count != v.cache_count && num_files > 0 ==> w1.slots.len() == window_size(
            cache_count,
        ),
{
    if cache_count != v.cache_count && num_files > 0 {
        let first = centered_first(current_index as int, cache_count, num_files as int);
        assert(0 <= current_index - first < window_size(cache_count));
    }
}

/// The decodes started by `p2` after those of `p1` are all of files inside
/// the window (`first`, `len`), and those of `p1` were kept.
pub open spec fn starts_in_window<I>(p1: Pipeline<I>, p2: Pipeline<I>, first: int, len: int) -> bool {
    &&& p1.spawns.len() <= p2.spawns.len()
    &&& p2.spawns.subrange(0, p1.spawns.len() as int) == p1.spawns
    &&& forall|k: int|
        p1.spawns.len() <= k < p2.spawns.len() ==> slot_of(first, len, #[trigger] p2.spawns[k]) is Some
}

proof fn lemma_starts_trans<I>(p1: Pipeline<I>, p2: Pipeline<I>, p3: Pipeline<I>, first: int, len: int)
    requires
        starts_in_window(p1, p2, first, len),
        starts_in_window(p2, p3, first, len),
    ensures
        starts_in_window(p1, p3, first, len),
{
    assert(p3.spawns.subrange(0, p1.spawns.len() as int) =~= p2.spawns.subrange(0, p1.spawns.len() as int));
    assert forall|k: int| p1.spawns.len() <= k < p3.spawns.len() implies slot_of(
        first,
        len,
        #[trigger] p3.spawns[k],
    ) is Some by {
        if k < p2.spawns.len() {
            assert(p3.spawns[k] == p3.spawns.subrange(0, p2.spawns.len() as int)[k]);
        }
    }
}

proof fn lemma_refill_starts_in_window<I>(p: Pipeline<I>, first: int, len: int)
    ensures
        starts_in_window(p, p.refill(first, len), first, len),
    decreases p.pending_decodes.len(),
{
    if p.in_flight.len() < p.max_threads && p.pending_decodes.len() > 0 {
        let idx = p.pending_decodes[0];
        let rest = Pipeline { pending_decodes: p.pending_decodes.drop_first(), ..p };
        if slot_of(first, len, idx) is Some {
            let q = rest.start(idx);
            assert(starts_in_window(p, q, first, len)) by {
                assert(q.spawns.subrange(0, p.spawns.len() as int) =~= p.spawns);
            }
            lemma_refill_starts_in_window(q, first, len);
            lemma_starts_trans(p, q, q.refill(first, len), first, len);
        } else {
            assert(rest.spawns.subrange(0, p.spawns.len() as int) =~= p.spawns);
            lemma_refill_starts_in_window(rest, first, len);
            lemma_starts_trans(p, rest, rest.refill(first, len), first, len);
        }
    } else {
        assert(p.spawns.subrange(0, p.spawns.len() as int) =~= p.spawns);
    }
}

proof fn lemma_receive_all_starts_in_window<I>(p: Pipeline<I>, rs: Seq<DecodeResult<I>>, first: int, len: int)
    ensures
        starts_in_window(p, p.receive_all(rs, first, len), first, len),
    decreases rs.len(),
{
    if rs.len() == 0 {
        assert(p.spawns.subrange(0, p.spawns.len() as int) =~= p.spawns);
    } else {
        let r = rs[0];
        let uploads = match r.image {
            Some(img) => p.pending_uploads.push((r.file_index, img)),
            None => p.pending_uploads,
        };
        let q0 = Pipeline {
            in_flight: p.in_flight.remove(r.file_index),
            pending_decodes: p.pending_decodes,
            pending_uploads: uploads,
            spawns: p.spawns,
            max_threads: p.max_threads,
        };
        lemma_refill_starts_in_window(q0, first, len);
        let q = p.receive(r, first, len);
        assert(starts_in_window(p, q, first, len));
        lemma_receive_all_starts_in_window(q, rs.drop_first(), first, len);
        lemma_starts_trans(p, q, q.receive_all(rs.drop_first(), first, len), first, len);
    }
}

/// A poll starts queued decodes only for files still inside the window:
/// every decode it hands out to be spawned is of a file in the window, and
/// the decodes handed out before are kept in order. Queued files that left
/// the window are dropped without being started.
pub proof fn law_poll_starts_only_in_window<T, I, F: Fn(usize, I) -> CachedTexture<T>>(
    v: WindowView<T, I>,
    rs: Seq<DecodeResult<I>>,
    f: F,
    w: WindowView<T, I>,
    repaint: bool,
)
    requires
        polled(v, rs, f, w, repaint),
    ensures
        starts_in_window(v.pipe, w.pipe, v.first, v.slots.len() as int),
{
    lemma_receive_all_starts_in_window(v.pipe, rs, v.first, v.slots.len() as int);
}

/// Every finished decode that a poll handles frees its thread: when no
/// decode is both queued and in flight, each result of a file that was in
/// flight before the poll leaves that file out of flight after it, however
/// many results the poll handled and whatever queued work it started.
pub proof fn law_poll_frees_threads<T, I, F: Fn(usize, I) -> CachedTexture<T>>(
    v: WindowView<T, I>,
    rs: Seq<DecodeResult<I>>,
    f: F,
    w: WindowView<T, I>,
    repaint: bool,
)
    requires
        v.pipe.disjoint(),
        forall|j: int| 0 <= j < rs.len() ==> v.pipe.in_flight.contains(#[trigger] rs[j].file_index),
        polled(v, rs, f, w, repaint),
    ensures
        forall|j: int| 0 <= j < rs.len() ==> !w.pipe.in_flight.contains(#[trigger] rs[j].file_index),
{
    assert forall|j: int| 0 <= j < rs.len() implies !w.pipe.in_flight.contains(
        #[trigger] rs[j].file_index,
    ) by {
        let x = rs[j].file_index;
        assert(!v.pipe.pending_decodes.contains(x)) by {
            if v.pipe.pending_decodes.contains(x) {
                let i = choose|i: int| 0 <= i < v.pipe.pending_decodes.len() && v.pipe.pending_decodes[i] == x;
                assert(!v.pipe.in_flight.contains(v.pipe.pending_decodes[i]));
            }
        }
        lemma_receive_all_frees(v.pipe, rs, v.first, v.slots.len() as int, x);
    }
}

/// The decode thread limit holds over a whole poll: when at most
/// `max_threads` decodes are in flight before a poll, at most that many
/// are in flight after it, whatever results it handled.
pub proof fn law_poll_thread_limit<T, I, F: Fn(usize, I) -> CachedTexture<T>>(
    v: WindowView<T, I>,
    rs: Seq<DecodeResult<I>>,
    f: F,
    w: WindowView<T, I>,
    repaint: bool,
)
    requires
        v.pipe.in_flight.finite(),
        v.pipe.in_flight.len() <= v.pipe.max_threads,
        polled(v, rs, f, w, repaint),
    ensures
        w.pipe.in_flight.len() <= w.pipe.max_threads,
        w.pipe.max_threads == v.pipe.max_threads,
{
    lemma_receive_all_limit(v.pipe, rs, v.first, v.slots.len() as int);
}

/// Shifting the window forward keeps every cached texture in place: a file
/// inside both the old and the new window has the same texture after the
/// shift.
pub proof fn law_forward_keeps_textures<T, I>(
    v: WindowView<T, I>,
    new_index: usize,
    num_files: usize,
    f: usize,
)
    requires
        v.first <= new_index,
        slot_of(v.first, v.slots.len() as int, f) is Some,
        slot_of(
            forward_view(v, new_index, num_files).first,
            forward_view(v, new_index, num_files).slots.len() as int,
            f,
        ) is Some,
    ensures
        texture_at(forward_view(v, new_index, num_files), f) == texture_at(v, f),
{
}

/// Shifting the window backward keeps every cached texture in place: a
/// file inside both the old and the new window has the same texture after
/// the shift.
pub proof fn law_backward_keeps_textures<T, I>(v: WindowView<T, I>, new_index: usize, f: usize)
    requires
        v.slots.len() >= 1,
        v.first <= new_index,
        slot_of(v.first, v.slots.len() as int, f) is Some,
        slot_of(
            backward_view(v, new_index).first,
            backward_view(v, new_index).slots.len() as int,
            f,
        ) is Some,
    ensures
        texture_at(backward_view(v, new_index), f) == texture_at(v, f),
{
    let w = backward_view(v, new_index);
    if new_index - v.first < v.cache_count && v.first > 0 {
        let p = f - w.first;
        assert(w.slots[p] == v.slots[p - 1]);
    }
}

/// A decode is never requested twice: requesting the same file again while
/// it is in flight or queued changes nothing.
pub proof fn law_load_idempotent<I>(p: Pipeline<I>, idx: usize)
    ensures
        p.load(idx).load(idx) == p.load(idx),
{
    let q = p.load(idx);
    if !(p.in_flight.contains(idx) || p.pending_decodes.contains(idx)) {
        if p.in_flight.len() < p.max_threads {
            assert(q.in_flight.contains(idx));
        } else {
            assert(q.pending_decodes[q.pending_decodes.len() - 1] == idx);
            assert(q.pending_decodes.contains(idx));
        }
    }
}

/// The decode thread limit holds: when at most `max_threads` decodes are
/// in flight, requesting one more file or refilling from the queue keeps it
/// that way.
pub proof fn law_thread_limit<I>(p: Pipeline<I>, idx: usize, first: int, len: int)
    requires
        p.in_flight.finite(),
        p.in_flight.len() <= p.max_threads,
    ensures
        p.load(idx).in_flight.len() <= p.load(idx).max_threads,
        p.load(idx).in_flight.finite(),
        p.refill(first, len).in_flight.len() <= p.refill(first, len).max_threads,
{
    lemma_refill_limit(p, first, len);
}

pub proof fn lemma_refill_limit<I>(p: Pipeline<I>, first: int, len: int)
    requires
        p.in_flight.finite(),
        p.in_flight.len() <= p.max_threads,
    ensures
        p.refill(first, len).in_flight.len() <= p.refill(first, len).max_threads,
        p.refill(first, len).in_flight.finite(),
    decreases p.pending_decodes.len(),
{
    if p.in_flight.len() < p.max_threads && p.pending_decodes.len() > 0 {
        let idx = p.pending_decodes[0];
        let rest = Pipeline { pending_decodes: p.pending_decodes.drop_first(), ..p };
        if slot_of(first, len, idx) is Some {
            lemma_refill_limit(rest.start(idx), first, len);
        } else {
            lemma_refill_limit(rest, first, len);
        }
    }
}

} // verus!
