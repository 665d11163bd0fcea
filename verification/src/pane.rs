//! Navigation state of one image pane.
//!
//! A pane shows one image of a list of `num_files` files. It owns the
//! sliding window cache used for keyboard navigation, the LRU cache of
//! synchronously decoded textures used by slider drags and jumps, and the
//! slider throttle. Decoding, uploading and drawing are done by the caller
//! through the closures it passes in; the zoom and pan of the view live
//! with the caller too, which resets them when the pane asks for it.
use vstd::prelude::*;
use crate::lru::{
    evict_for, has_key, image_bytes, lemma_without_key_sum, lru_hit, lru_inserted, sum_bytes, DecodeLruCache,
    LruEntry, BYTES_PER_MB,
};
use crate::files::{is_start_index, start_index};
use crate::slider::SliderLoader;
use crate::window::{
    law_forward_keeps_textures, slot_of, polled, backward_view, empty_slots, forward_view, init_view, texture_at, window_size, CachedTexture,
    DecodeResult, Pipeline, SlidingWindowCache, WindowView,
};

verus! {

/// What happened to a pane since the caller last asked: whether the view
/// (zoom and pan) must be reset, and whether a new current texture was set
/// (so that an animation may have to start).
#[derive(PartialEq, Eq, Structural, Clone, Copy, Debug)]
pub struct PaneEvents {
    pub reset_view: bool,
    pub texture_set: bool,
}

/// Index reached by moving `delta` images from `cur` among `n` files,
/// clamped to the file list.
pub open spec fn nav_target(cur: int, delta: int, n: int) -> int {
    let t = cur + delta;
    if t < 0 {
        0
    } else if t > n - 1 {
        n - 1
    } else {
        t
    }
}

/// `index` clamped to the last of `n` files (0 when there are none).
pub open spec fn clamp_index(index: int, n: int) -> int {
    let last = if n >= 1 { n - 1 } else { 0 };
    if index <= last { index } else { last }
}

/// A fresh window of half-size `cache_count` with `threads` decode threads.
pub open spec fn fresh_window<T, I>(cache_count: int, threads: int) -> WindowView<T, I> {
    WindowView {
        slots: empty_slots::<T>(window_size(cache_count) as nat),
        first: 0,
        cache_count: cache_count,
        pipe: Pipeline {
            in_flight: Set::<usize>::empty(),
            pending_decodes: Seq::<usize>::empty(),
            pending_uploads: Seq::<(usize, I)>::empty(),
            spawns: Seq::<usize>::empty(),
            max_threads: threads,
        },
    }
}

/// The effect of a synchronous load of file `k` among `n` files on the LRU
/// entries and the current texture. Nothing changes when `k` is past the
/// list. On an LRU hit, the cached texture becomes current. On a miss the
/// file is decoded with `decode`; a decoded image is uploaded with `upload`
/// and inserted into the LRU cache (whose budget is `budget`) and becomes
/// current; a failed decode leaves no current texture.
pub open spec fn sync_load_effect<T: Clone, I, D: FnOnce(usize) -> Option<(I, [usize; 2])>, U: FnOnce(usize, I) -> T>(
    lru0: Seq<LruEntry<T>>,
    budget: nat,
    k: usize,
    n: usize,
    tex0: Option<T>,
    decode: D,
    upload: U,
    lru1: Seq<LruEntry<T>>,
    tex1: Option<T>,
) -> bool {
    if k >= n {
        lru1 == lru0 && tex1 == tex0
    } else if has_key(lru0, k) {
        tex1 matches Some(h) && lru_hit(lru0, k, lru1, h)
    } else {
        exists|r: Option<(I, [usize; 2])>|
            call_ensures(decode, (k,), r) && match r {
                Some((img, size)) => tex1 matches Some(h) && call_ensures(upload, (k, img), h)
                    && lru_inserted(lru0, k, size, budget, lru1, h),
                None => lru1 == lru0 && tex1 is None,
            }
    }
}

/// Every image that `decode` can return fits, together with the LRU cache
/// contents `lru`, in the range of `usize` bytes.
pub open spec fn decodes_fit<I, D: FnOnce(usize) -> Option<(I, [usize; 2])>>(
    decode: D,
    lru: nat,
) -> bool {
    forall|k: usize, r: Option<(I, [usize; 2])>|
        call_ensures(decode, (k,), r) ==> (r matches Some((img, size)) ==> lru + image_bytes(size)
            <= usize::MAX)
}

/// Per-pane settings.
#[derive(PartialEq, Eq, Structural, Clone, Copy, Debug)]
pub struct PaneSettings {
    pub cache_count: usize,
    pub lru_budget_mb: usize,
    pub decode_threads: usize,
    pub mouse_wheel_zoom: bool,
    pub reset_zoom_pan_on_navigation: bool,
    pub preview_budget_mb: usize,
}

/// Navigation state of an image pane.
pub struct Pane<T, I> {
    num_files: usize,
    current_index: usize,
    current_texture: Option<T>,
    cache: Option<SlidingWindowCache<T, I>>,
    slider_loader: Option<SliderLoader>,
    decode_cache: DecodeLruCache<T>,
    settings: PaneSettings,
    selected: bool,
    reset_view: bool,
    texture_set: bool,
}

impl<T, I> Pane<T, I> {
    pub closed spec fn files(&self) -> nat {
        self.num_files as nat
    }

    pub closed spec fn current(&self) -> nat {
        self.current_index as nat
    }

    pub closed spec fn texture(&self) -> Option<T> {
        self.current_texture
    }

    pub closed spec fn window(&self) -> Option<WindowView<T, I>> {
        match self.cache {
            Some(c) => Some(c.view()),
            None => None,
        }
    }

    pub closed spec fn lru(&self) -> Seq<LruEntry<T>> {
        self.decode_cache.entries()
    }

    pub closed spec fn lru_budget(&self) -> nat {
        self.decode_cache.budget()
    }

    pub closed spec fn has_loader(&self) -> bool {
        self.slider_loader is Some
    }

    pub closed spec fn config(&self) -> PaneSettings {
        self.settings
    }

    pub closed spec fn is_selected(&self) -> bool {
        self.selected
    }

    pub closed spec fn events(&self) -> PaneEvents {
        PaneEvents { reset_view: self.reset_view, texture_set: self.texture_set }
    }

    /// Well-formedness of the caches and of the current index.
    pub closed spec fn wf(&self) -> bool {
        &&& self.decode_cache.wf()
        &&& self.num_files <= isize::MAX
        &&& self.current_index < isize::MAX
        &&& (self.num_files > 0 ==> self.current_index < self.num_files)
        &&& match self.cache {
            Some(c) => c.wf() && (self.num_files > 0 ==> c.sized() && c.view().first
                <= self.num_files && self.num_files + window_size(c.view().cache_count)
                < usize::MAX),
            None => true,
        }
    }

    /// The caches of `a` and `b` and their view flags agree, apart from the
    /// current texture and the LRU cache.
    pub open spec fn same_but_texture(a: &Self, b: &Self) -> bool {
        &&& a.files() == b.files()
        &&& a.current() == b.current()
        &&& a.window() == b.window()
        &&& a.lru_budget() == b.lru_budget()
        &&& a.has_loader() == b.has_loader()
        &&& a.events().reset_view == b.events().reset_view
        &&& a.config() == b.config()
        &&& a.is_selected() == b.is_selected()
    }

    /// An empty pane: no files, no caches but an empty LRU cache of
    /// `lru_budget_mb` megabytes, selected.
    pub fn new(
        cache_count: usize,
        lru_budget_mb: usize,
        decode_threads: usize,
        mouse_wheel_zoom: bool,
        reset_zoom_pan_on_navigation: bool,
        preview_budget_mb: usize,
    ) -> (p: Self)
        requires
            lru_budget_mb * BYTES_PER_MB <= usize::MAX,
        ensures
            p.wf(),
            p.files() == 0,
            p.current() == 0,
            p.texture() is None,
            p.window() is None,
            !p.has_loader(),
            p.lru() == Seq::<LruEntry<T>>::empty(),
            p.lru_budget() == lru_budget_mb * BYTES_PER_MB,
            p.events() == (PaneEvents { reset_view: false, texture_set: false }),
            p.config() == (PaneSettings {
                cache_count,
                lru_budget_mb,
                decode_threads,
                mouse_wheel_zoom,
                reset_zoom_pan_on_navigation,
                preview_budget_mb,
            }),
            p.is_selected(),
    {
        Pane {
            num_files: 0,
            current_index: 0,
            current_texture: None,
            cache: None,
            slider_loader: None,
            decode_cache: DecodeLruCache::new(lru_budget_mb),
            settings: PaneSettings {
                cache_count,
                lru_budget_mb,
                decode_threads,
                mouse_wheel_zoom,
                reset_zoom_pan_on_navigation,
                preview_budget_mb,
            },
            selected: true,
            reset_view: false,
            texture_set: false,
        }
    }

    /// The pane's settings.
    pub fn settings(&self) -> (s: PaneSettings)
        ensures
            s == self.config(),
    {
        self.settings
    }

    /// Whether the pane is selected for navigation in independent mode.
    pub fn selected(&self) -> (b: bool)
        ensures
            b == self.is_selected(),
    {
        self.selected
    }

    /// Flips the selection of the pane.
    pub fn toggle_selected(&mut self)
        requires
            old(self).wf(),
        ensures
            final(self).wf(),
            final(self).is_selected() == !old(self).is_selected(),
            final(self).files() == old(self).files(),
            final(self).current() == old(self).current(),
            final(self).texture() == old(self).texture(),
            final(self).window() == old(self).window(),
            final(self).lru() == old(self).lru(),
            final(self).config() == old(self).config(),
            final(self).events() == old(self).events(),
    {
        self.selected = !self.selected;
    }

    /// Number of files in the pane.
    pub fn num_files(&self) -> (n: usize)
        ensures
            n == self.files(),
    {
        self.num_files
    }

    /// Index of the current image.
    pub fn current_index(&self) -> (n: usize)
        ensures
            n == self.current(),
    {
        self.current_index
    }

    /// The current texture.
    pub fn current_texture(&self) -> (t: &Option<T>)
        ensures
            *t == self.texture(),
    {
        &self.current_texture
    }

    /// The sliding window cache, if the pane has files open.
    pub fn cache(&self) -> (c: Option<&SlidingWindowCache<T, I>>)
        ensures
            match c {
                Some(c) => self.window() == Some(c.view()),
                None => self.window() is None,
            },
    {
        match &self.cache {
            Some(c) => Some(c),
            None => None,
        }
    }

    /// The LRU cache of synchronously decoded textures.
    pub fn decode_cache(&self) -> (c: &DecodeLruCache<T>)
        ensures
            c.entries() == self.lru(),
            c.budget() == self.lru_budget(),
            self.wf() ==> c.wf(),
    {
        &self.decode_cache
    }

    /// Returns and clears the pending events.
    pub fn take_events(&mut self) -> (e: PaneEvents)
        requires
            old(self).wf(),
        ensures
            final(self).wf(),
            e == old(self).events(),
            final(self).events() == (PaneEvents { reset_view: false, texture_set: false }),
            final(self).files() == old(self).files(),
            final(self).current() == old(self).current(),
            final(self).texture() == old(self).texture(),
            final(self).window() == old(self).window(),
            final(self).lru() == old(self).lru(),
    {
        let e = PaneEvents { reset_view: self.reset_view, texture_set: self.texture_set };
        self.reset_view = false;
        self.texture_set = false;
        e
    }

    /// Hands the decodes started by the sliding window to the caller.
    pub fn take_spawn_requests(&mut self) -> (r: Vec<usize>)
        requires
            old(self).wf(),
        ensures
            final(self).wf(),
            match old(self).window() {
                Some(v) => r@ == v.pipe.spawns && final(self).window() == Some(
                    WindowView { pipe: Pipeline { spawns: Seq::<usize>::empty(), ..v.pipe }, ..v },
                ),
                None => r@ == Seq::<usize>::empty() && final(self).window() is None,
            },
            final(self).files() == old(self).files(),
            final(self).current() == old(self).current(),
            final(self).texture() == old(self).texture(),
            final(self).lru() == old(self).lru(),
            final(self).events() == old(self).events(),
    {
        match &mut self.cache {
            Some(c) => c.take_spawn_requests(),
            None => Vec::new(),
        }
    }

    fn set_current_texture(&mut self, texture: Option<T>)
        ensures
            final(self).current_texture == texture,
            final(self).texture_set,
            final(self).num_files == old(self).num_files,
            final(self).current_index == old(self).current_index,
            final(self).cache == old(self).cache,
            final(self).slider_loader == old(self).slider_loader,
            final(self).decode_cache == old(self).decode_cache,
            final(self).reset_view == old(self).reset_view,
            final(self).settings == old(self).settings,
            final(self).selected == old(self).selected,
    {
        self.current_texture = texture;
        self.texture_set = true;
    }

    /// Can move to a later image.
    pub fn can_navigate_forward(&self) -> (b: bool)
        ensures
            b == (self.files() > 0 && self.current() < self.files() - 1),
    {
        self.num_files > 0 && self.current_index < self.num_files - 1
    }

    /// Can move to an earlier image.
    pub fn can_navigate_backward(&self) -> (b: bool)
        ensures
            b == (self.files() > 0 && self.current() > 0),
    {
        self.num_files > 0 && self.current_index > 0
    }

    /// Index reached by moving `delta` images, clamped to the list.
    fn target_index(&self, delta: isize) -> (t: usize)
        requires
            self.wf(),
            self.files() > 0,
            isize::MIN <= self.current() + delta <= isize::MAX,
        ensures
            t == nav_target(self.current() as int, delta as int, self.files() as int),
            t < self.files(),
    {
        let sum: isize = self.current_index as isize + delta;
        let last: isize = self.num_files as isize - 1;
        if sum < 0 {
            0
        } else if sum > last {
            last as usize
        } else {
            sum as usize
        }
    }

    /// Whether the image `delta` away is cached and ready, or the move
    /// would not change the image (at either end of the list).
    pub fn is_next_cached(&self, delta: isize) -> (b: bool) where T: Clone
        requires
            self.wf(),
            isize::MIN <= self.current() + delta <= isize::MAX,
        ensures
            b == (self.files() > 0 && ({
                let t = nav_target(self.current() as int, delta as int, self.files() as int);
                t == self.current() || (self.window() matches Some(v) && texture_at(
                    v,
                    t as usize,
                ) is Some)
            })),
    {
        if self.num_files == 0 {
            return false;
        }
        let new_index = self.target_index(delta);
        if new_index == self.current_index {
            return true;
        }
        match &self.cache {
            Some(c) => c.current_texture_for(new_index).is_some(),
            None => false,
        }
    }

    /// A well-formed pane's index and file count stay below `isize::MAX`,
    /// so moving by one image is in range.
    pub proof fn lemma_wf_bounds(&self)
        requires
            self.wf(),
        ensures
            self.current() < isize::MAX,
            self.files() <= isize::MAX,
    {
    }

    /// In a well-formed pane with files, the window has `cache_count * 2 + 1`
    /// slots.
    pub proof fn lemma_window_sized(&self)
        requires
            self.wf(),
            self.files() > 0,
            self.window() is Some,
        ensures
            self.window().unwrap().slots.len() == window_size(self.window().unwrap().cache_count),
            self.window().unwrap().first >= 0,
    {
    }

    /// Moving `delta` images from the current one reaches another image that
    /// the sliding window caches.
    pub open spec fn nav_hit(a: &Self, delta: int) -> bool {
        let n = a.files();
        let cur = a.current();
        let t = nav_target(cur as int, delta, n as int);
        n > 0 && t != cur && (a.window() matches Some(v) && texture_at(v, t as usize) is Some)
    }

    /// `b` is `a` after trying to move `delta` images, which returned
    /// `advanced`: on a cache hit the pane moved to the target, shifted its
    /// window in the direction of the move and shows the cached texture;
    /// otherwise nothing changed.
    pub open spec fn navigated(a: &Self, b: &Self, delta: int, advanced: bool) -> bool where T: Clone {
        let n = a.files();
        let t = nav_target(a.current() as int, delta, n as int);
        let hit = Self::nav_hit(a, delta);
        &&& advanced == hit
        &&& !hit ==> *b == *a
        &&& hit ==> {
            let v = a.window().unwrap();
            let tex = texture_at(v, t as usize).unwrap();
            &&& b.current() == t
            &&& b.files() == n
            &&& b.window() == Some(
                if delta > 0 {
                    forward_view(v, t as usize, n as usize)
                } else {
                    backward_view(v, t as usize)
                },
            )
            &&& b.texture() matches Some(h) && cloned(tex.handle, h)
            &&& b.lru() == a.lru()
            &&& b.lru_budget() == a.lru_budget()
            &&& b.config() == a.config()
            &&& b.is_selected() == a.is_selected()
            &&& b.has_loader() == a.has_loader()
            &&& b.events() == (PaneEvents {
                reset_view: a.events().reset_view || a.config().reset_zoom_pan_on_navigation,
                texture_set: true,
            })
        }
    }

    /// Tries to move `delta` images (clamped to the list). The move happens
    /// only when the target image is already cached in the sliding window:
    /// the window is shifted in the direction of the move, the view is reset
    /// if the pane resets it on navigation, and the cached texture becomes
    /// current. Returns whether the displayed image advanced.
    pub fn navigate(&mut self, delta: isize) -> (advanced: bool) where T: Clone
        requires
            old(self).wf(),
            isize::MIN <= old(self).current() + delta <= isize::MAX,
        ensures
            final(self).wf(),
            Self::navigated(&*old(self), &*final(self), delta as int, advanced),
    {
        if self.num_files == 0 {
            return false;
        }
        let new_index = self.target_index(delta);
        if new_index == self.current_index {
            return false;
        }
        let found = match &self.cache {
            Some(c) => c.current_texture_for(new_index),
            None => None,
        };
        match found {
            Some(t) => {
                self.current_index = new_index;
                let n = self.num_files;
                match &mut self.cache {
                    Some(c) => {
                        if delta > 0 {
                            c.navigate_forward(new_index, n);
                        } else {
                            c.navigate_backward(new_index, n);
                        }
                    },
                    None => {},
                }
                if self.settings.reset_zoom_pan_on_navigation {
                    self.reset_view = true;
                }
                self.set_current_texture(Some(t));
                true
            },
            None => false,
        }
    }

    /// `b` settled on image `idx` after its window became `w`: when `w`
    /// caches the image, its texture became current; otherwise the image was
    /// loaded synchronously with `decode` and `upload`.
    pub open spec fn settled_at<D: FnOnce(usize) -> Option<(I, [usize; 2])>, U: FnOnce(usize, I) -> T>(
        a: &Self,
        b: &Self,
        w: Option<WindowView<T, I>>,
        idx: usize,
        decode: D,
        upload: U,
    ) -> bool where T: Clone {
        let hit = w matches Some(v) && texture_at(v, idx) is Some;
        &&& b.window() == w
        &&& b.files() == a.files()
        &&& b.lru_budget() == a.lru_budget()
        &&& b.config() == a.config()
        &&& b.is_selected() == a.is_selected()
        &&& b.has_loader() == a.has_loader()
        &&& if hit {
            &&& b.texture() matches Some(h) && cloned(texture_at(w.unwrap(), idx).unwrap().handle, h)
            &&& b.lru() == a.lru()
        } else {
            sync_load_effect(
                a.lru(),
                a.lru_budget(),
                idx,
                a.files() as usize,
                a.texture(),
                decode,
                upload,
                b.lru(),
                b.texture(),
            )
        }
        &&& b.events().texture_set == (a.events().texture_set || hit || idx < a.files())
    }

    /// Loads the current image synchronously: from the LRU cache on a hit,
    /// otherwise by decoding it with `decode`, uploading it with `upload`
    /// and inserting it into the LRU cache. Nothing happens when the current
    /// index is past the file list.
    fn load_sync<D: FnOnce(usize) -> Option<(I, [usize; 2])>, U: FnOnce(usize, I) -> T>(
        &mut self,
        decode: D,
        upload: U,
    ) where T: Clone
        requires
            old(self).wf(),
            call_requires(decode, (old(self).current() as usize,)),
            forall|img: I| #[trigger] call_requires(upload, (old(self).current() as usize, img)),
            decodes_fit(decode, sum_bytes(old(self).lru())),
        ensures
            final(self).wf(),
            sync_load_effect(
                old(self).lru(),
                old(self).lru_budget(),
                old(self).current() as usize,
                old(self).files() as usize,
                old(self).texture(),
                decode,
                upload,
                final(self).lru(),
                final(self).texture(),
            ),
            final(self).window() == old(self).window(),
            final(self).files() == old(self).files(),
            final(self).current() == old(self).current(),
            final(self).lru_budget() == old(self).lru_budget(),
            final(self).config() == old(self).config(),
            final(self).is_selected() == old(self).is_selected(),
            final(self).has_loader() == old(self).has_loader(),
            final(self).events().reset_view == old(self).events().reset_view,
            final(self).events().texture_set == (old(self).events().texture_set || old(self).current()
                < old(self).files()),
    {
        if self.current_index >= self.num_files {
            return;
        }
        let idx = self.current_index;
        let ghost lru0 = self.decode_cache.entries();
        match self.decode_cache.get(idx) {
            Some(h) => {
                self.set_current_texture(Some(h));
                return;
            },
            None => {},
        }
        match decode(idx) {
            Some((img, size)) => {
                proof {
                    lemma_without_key_sum(lru0, idx);
                }
                let up = move || -> (r: T)
                    requires
                        call_requires(upload, (idx, img)),
                    ensures
                        call_ensures(upload, (idx, img), r),
                    { upload(idx, img) };
                let h = self.decode_cache.insert(idx, size, up);
                self.set_current_texture(Some(h));
            },
            None => {
                self.set_current_texture(None);
            },
        }
    }

    /// Jumps to `index` (clamped to the list): the view is reset if the pane
    /// resets it on navigation, the sliding window is rebuilt around the new
    /// image (its center decoded with `decode_center`), and the image is
    /// shown from the window or else loaded synchronously. Nothing happens
    /// when the clamped index is the current one.
    pub fn jump_to<C, D, U>(&mut self, index: usize, decode_center: C, decode: D, upload: U) where
        T: Clone,
        C: FnOnce(usize) -> Option<CachedTexture<T>>,
        D: FnOnce(usize) -> Option<(I, [usize; 2])>,
        U: FnOnce(usize, I) -> T,

        requires
            old(self).wf(),
            forall|k: usize| #[trigger] call_requires(decode_center, (k,)),
            forall|k: usize| #[trigger] call_requires(decode, (k,)),
            forall|k: usize, img: I| #[trigger] call_requires(upload, (k, img)),
            decodes_fit(decode, sum_bytes(old(self).lru())),
        ensures
            final(self).wf(),
            ({
                let n = old(self).files();
                let idx = clamp_index(index as int, n as int) as usize;
                &&& idx == old(self).current() ==> *final(self) == *old(self)
                &&& idx != old(self).current() ==> {
                    &&& final(self).current() == idx
                    &&& final(self).events().reset_view == (old(self).events().reset_view
                        || old(self).config().reset_zoom_pan_on_navigation)
                    &&& match old(self).window() {
                        Some(v) => if n > 0 {
                            exists|r: Option<CachedTexture<T>>|
                                call_ensures(decode_center, (idx,), r) && Self::settled_at(
                                    &*old(self),
                                    &*final(self),
                                    Some(init_view(v, idx, n as usize, r)),
                                    idx,
                                    decode,
                                    upload,
                                )
                        } else {
                            Self::settled_at(&*old(self), &*final(self), Some(v), idx, decode, upload)
                        },
                        None => Self::settled_at(&*old(self), &*final(self), None, idx, decode, upload),
                    }
                }
            }),
    {
        let last = if self.num_files >= 1 {
            self.num_files - 1
        } else {
            0
        };
        let index = if index <= last {
            index
        } else {
            last
        };
        if index == self.current_index {
            return;
        }
        let ghost a = *self;
        self.current_index = index;
        if self.settings.reset_zoom_pan_on_navigation {
            self.reset_view = true;
        }
        let n = self.num_files;
        let texture = match &mut self.cache {
            Some(c) => {
                c.jump_to(index, n, decode_center);
                Some(c.current_texture_for(index))
            },
            None => None,
        };
        match texture {
            Some(Some(t)) => {
                self.set_current_texture(Some(t));
            },
            _ => {
                self.load_sync(decode, upload);
            },
        }
    }

    /// Drags the slider to `idx` (clamped to the list). The view is reset if
    /// the pane resets it on navigation. A texture cached in the sliding
    /// window is shown at once; otherwise, when the slider throttle allows
    /// it, the image is loaded synchronously. Returns whether an image was
    /// loaded. Nothing happens when the clamped index is the current one.
    pub fn apply_slider_target<D, U>(&mut self, idx: usize, decode: D, upload: U) -> (loaded: bool) where
        T: Clone,
        D: FnOnce(usize) -> Option<(I, [usize; 2])>,
        U: FnOnce(usize, I) -> T,

        requires
            old(self).wf(),
            forall|k: usize| #[trigger] call_requires(decode, (k,)),
            forall|k: usize, img: I| #[trigger] call_requires(upload, (k, img)),
            decodes_fit(decode, sum_bytes(old(self).lru())),
        ensures
            final(self).wf(),
            ({
                let n = old(self).files();
                let c = clamp_index(idx as int, n as int) as usize;
                let hit = old(self).window() matches Some(v) && texture_at(v, c) is Some;
                &&& c == old(self).current() ==> *final(self) == *old(self) && !loaded
                &&& c != old(self).current() ==> {
                    &&& final(self).current() == c
                    &&& final(self).files() == n
                    &&& final(self).window() == old(self).window()
                    &&& final(self).events().reset_view == (old(self).events().reset_view
                        || old(self).config().reset_zoom_pan_on_navigation)
                    &&& final(self).has_loader() == old(self).has_loader()
                    &&& if hit {
                        &&& loaded
                        &&& final(self).texture() matches Some(h) && cloned(
                            texture_at(old(self).window().unwrap(), c).unwrap().handle,
                            h,
                        )
                        &&& final(self).lru() == old(self).lru()
                        &&& final(self).events().texture_set
                    } else if !old(self).has_loader() {
                        &&& !loaded
                        &&& final(self).texture() == old(self).texture()
                        &&& final(self).lru() == old(self).lru()
                        &&& final(self).events().texture_set == old(self).events().texture_set
                    } else if loaded {
                        &&& sync_load_effect(
                            old(self).lru(),
                            old(self).lru_budget(),
                            c,
                            n as usize,
                            old(self).texture(),
                            decode,
                            upload,
                            final(self).lru(),
                            final(self).texture(),
                        )
                        &&& final(self).events().texture_set == (old(self).events().texture_set || c < n)
                    } else {
                        &&& final(self).texture() == old(self).texture()
                        &&& final(self).lru() == old(self).lru()
                        &&& final(self).events().texture_set == old(self).events().texture_set
                    }
                }
            }),
    {
        let last = if self.num_files >= 1 {
            self.num_files - 1
        } else {
            0
        };
        let clamped = if idx <= last {
            idx
        } else {
            last
        };
        if clamped == self.current_index {
            return false;
        }
        self.current_index = clamped;
        if self.settings.reset_zoom_pan_on_navigation {
            self.reset_view = true;
        }
        let found = match &self.cache {
            Some(c) => c.current_texture_for(clamped),
            None => None,
        };
        match found {
            Some(tex) => {
                self.set_current_texture(Some(tex));
                true
            },
            None => {
                let due = match &mut self.slider_loader {
                    Some(l) => Some(l.should_load()),
                    None => None,
                };
                match due {
                    Some(true) => {
                        self.load_sync(decode, upload);
                        true
                    },
                    _ => false,
                }
            },
        }
    }

    /// `b` shows what window `w` caches for the current image of `a`, if
    /// anything, after its window became `w`.
    pub open spec fn released_at(a: &Self, b: &Self, w: WindowView<T, I>) -> bool where T: Clone {
        let cur = a.current() as usize;
        &&& b.window() == Some(w)
        &&& match texture_at(w, cur) {
            Some(t) => b.texture() matches Some(h) && cloned(t.handle, h) && b.events().texture_set,
            None => b.texture() == a.texture() && b.events().texture_set == a.events().texture_set,
        }
    }

    /// Finishes a slider drag: the sliding window is rebuilt around the
    /// current image (its center decoded with `decode_center`), and the
    /// window's texture for it, if any, becomes current.
    pub fn apply_slider_release<C>(&mut self, decode_center: C) where
        T: Clone,
        C: FnOnce(usize) -> Option<CachedTexture<T>>,

        requires
            old(self).wf(),
            call_requires(decode_center, (old(self).current() as usize,)),
        ensures
            final(self).wf(),
            final(self).files() == old(self).files(),
            final(self).current() == old(self).current(),
            final(self).lru() == old(self).lru(),
            final(self).events().reset_view == old(self).events().reset_view,
            match old(self).window() {
                Some(v) => {
                    let cur = old(self).current() as usize;
                    let n = old(self).files() as usize;
                    if n > 0 {
                        exists|r: Option<CachedTexture<T>>|
                            #[trigger] call_ensures(decode_center, (cur,), r) && Self::released_at(
                                &*old(self),
                                &*final(self),
                                init_view(v, cur, n, r),
                            )
                    } else {
                        Self::released_at(&*old(self), &*final(self), v)
                    }
                },
                None => *final(self) == *old(self),
            },
    {
        let cur = self.current_index;
        let n = self.num_files;
        let texture = match &mut self.cache {
            Some(c) => {
                c.jump_to(cur, n, decode_center);
                c.current_texture_for(cur)
            },
            None => None,
        };
        match texture {
            Some(t) => {
                self.set_current_texture(Some(t));
            },
            None => {},
        }
    }

    /// `b` is `a` after opening a list of `num_files` files at
    /// `start_index`: the view is reset, the LRU cache is emptied, a new
    /// sliding window is initialized around the start image (its center
    /// decoded with `decode_center`), its texture for the start image
    /// becomes current, and a new slider throttle is created.
    pub open spec fn opened_files<C: FnOnce(usize) -> Option<CachedTexture<T>>>(
        a: &Self,
        b: &Self,
        num_files: usize,
        start_index: usize,
        decode_center: C,
    ) -> bool where T: Clone {
        &&& b.files() == num_files
        &&& b.current() == start_index
        &&& b.lru() == Seq::<LruEntry<T>>::empty()
        &&& b.lru_budget() == a.lru_budget()
        &&& b.has_loader()
        &&& b.config() == a.config()
        &&& b.is_selected() == a.is_selected()
        &&& b.events() == (PaneEvents { reset_view: true, texture_set: true })
        &&& exists|r: Option<CachedTexture<T>>|
            call_ensures(decode_center, (start_index,), r) && ({
                let w = init_view(
                    fresh_window::<T, I>(a.config().cache_count as int, a.config().decode_threads as int),
                    start_index,
                    num_files,
                    r,
                );
                &&& b.window() == Some(w)
                &&& match r {
                    Some(t) => b.texture() matches Some(h) && cloned(t.handle, h),
                    None => b.texture() is None,
                }
            })
    }

    /// Opens a list of `num_files` files (more than zero) at `start_index`
    /// (see `opened_files`).
    pub fn open_files<C>(&mut self, num_files: usize, start_index: usize, decode_center: C) where
        T: Clone,
        C: FnOnce(usize) -> Option<CachedTexture<T>>,

        requires
            old(self).wf(),
            0 < num_files <= isize::MAX,
            start_index < num_files,
            old(self).config().cache_count * 2 + 1 <= usize::MAX,
            num_files + window_size(old(self).config().cache_count as int) < usize::MAX,
            call_requires(decode_center, (start_index,)),
        ensures
            final(self).wf(),
            Self::opened_files(&*old(self), &*final(self), num_files, start_index, decode_center),
    {
        self.num_files = num_files;
        self.current_index = start_index;
        self.reset_view = true;
        self.decode_cache.clear();
        let mut c: SlidingWindowCache<T, I> = SlidingWindowCache::new(
            self.settings.cache_count,
            self.settings.decode_threads,
        );
        proof {
            assert(c.view() == fresh_window::<T, I>(
                self.settings.cache_count as int,
                self.settings.decode_threads as int,
            ));
        }
        c.initialize(start_index, num_files, decode_center);
        let t = c.current_texture_for(start_index);
        self.set_current_texture(t);
        self.cache = Some(c);
        self.slider_loader = Some(SliderLoader::new());
    }

    /// Opens the images listed in a directory, whose file names are `names`
    /// in display order, at the one named `target` (the first image when
    /// there is no target or it is not listed). When the directory holds
    /// no images the file list is emptied and the rest of the state kept.
    pub fn open_list<C>(&mut self, names: &Vec<String>, target: &Option<String>, decode_center: C) where
        T: Clone,
        C: FnOnce(usize) -> Option<CachedTexture<T>>,

        requires
            old(self).wf(),
            names@.len() <= isize::MAX,
            old(self).config().cache_count * 2 + 1 <= usize::MAX,
            names@.len() + window_size(old(self).config().cache_count as int) < usize::MAX,
            forall|k: usize| #[trigger] call_requires(decode_center, (k,)),
        ensures
            final(self).wf(),
            names@.len() == 0 ==> Self::cleared(&*old(self), &*final(self)),
            names@.len() > 0 ==> exists|k: usize|
                is_start_index(names@, *target, k as int) && #[trigger] Self::opened_files(
                    &*old(self),
                    &*final(self),
                    names@.len() as usize,
                    k,
                    decode_center,
                ),
    {
        if names.len() == 0 {
            self.clear_file_list();
            return;
        }
        let start = start_index(names, target);
        let ghost a = *self;
        self.open_files(names.len(), start, decode_center);
        assert(Self::opened_files(&a, &*self, names@.len() as usize, start, decode_center));
    }

    /// Closes the pane: no files, no current texture, no caches, an empty
    /// LRU cache, and a reset view.
    pub fn close(&mut self)
        requires
            old(self).wf(),
        ensures
            final(self).wf(),
            final(self).files() == 0,
            final(self).current() == 0,
            final(self).texture() is None,
            final(self).window() is None,
            !final(self).has_loader(),
            final(self).lru() == Seq::<LruEntry<T>>::empty(),
            final(self).lru_budget() == old(self).lru_budget(),
            final(self).config() == old(self).config(),
            final(self).is_selected() == old(self).is_selected(),
            final(self).events() == (PaneEvents { reset_view: true, ..old(self).events() }),
    {
        self.num_files = 0;
        self.current_index = 0;
        self.current_texture = None;
        self.reset_view = true;
        self.cache = None;
        self.slider_loader = None;
        self.decode_cache.clear();
    }

    /// `b` is `a` with an empty file list and the rest of the state kept.
    pub open spec fn cleared(a: &Self, b: &Self) -> bool {
        &&& b.files() == 0
        &&& b.current() == a.current()
        &&& b.texture() == a.texture()
        &&& b.window() == a.window()
        &&& b.has_loader() == a.has_loader()
        &&& b.lru() == a.lru()
        &&& b.lru_budget() == a.lru_budget()
        &&& b.config() == a.config()
        &&& b.is_selected() == a.is_selected()
        &&& b.events() == a.events()
    }

    /// Empties the file list (an opened directory held no images), keeping
    /// the rest of the state.
    pub fn clear_file_list(&mut self)
        requires
            old(self).wf(),
        ensures
            final(self).wf(),
            Self::cleared(&*old(self), &*final(self)),
    {
        self.num_files = 0;
    }

    /// Polls the sliding window (see `SlidingWindowCache::poll`). Returns
    /// whether work is still queued; false without a window.
    pub fn poll_cache<F: Fn(usize, I) -> CachedTexture<T>>(
        &mut self,
        results: Vec<DecodeResult<I>>,
        upload: F,
    ) -> (repaint: bool)
        requires
            old(self).wf(),
            forall|idx: usize, img: I| #[trigger] call_requires(upload, (idx, img)),
        ensures
            final(self).wf(),
            match old(self).window() {
                Some(v) => final(self).window() matches Some(w) && polled(v, results@, upload, w, repaint),
                None => final(self).window() is None && !repaint,
            },
            final(self).files() == old(self).files(),
            final(self).current() == old(self).current(),
            final(self).texture() == old(self).texture(),
            final(self).lru() == old(self).lru(),
            final(self).events() == old(self).events(),
    {
        match &mut self.cache {
            Some(c) => c.poll(results, upload),
            None => false,
        }
    }

    /// Applies new cache settings: the sliding window is resized (and
    /// reinitialized around the current image, its center decoded with
    /// `decode_center`) when its half-size changes, the LRU budget is set
    /// (evicting entries over it), and the pane records the new values.
    pub fn apply_cache_settings<C>(&mut self, cache_count: usize, lru_budget_mb: usize, decode_center: C) where
        C: FnOnce(usize) -> Option<CachedTexture<T>>,

        requires
            old(self).wf(),
            cache_count * 2 + 1 <= usize::MAX,
            lru_budget_mb * BYTES_PER_MB <= usize::MAX,
            old(self).files() > 0 ==> old(self).files() + window_size(cache_count as int) < usize::MAX,
            call_requires(decode_center, (old(self).current() as usize,)),
        ensures
            final(self).wf(),
            final(self).files() == old(self).files(),
            final(self).current() == old(self).current(),
            final(self).texture() == old(self).texture(),
            final(self).events() == old(self).events(),
            final(self).lru_budget() == lru_budget_mb * BYTES_PER_MB,
            final(self).lru() == evict_for(old(self).lru(), 0, final(self).lru_budget()),
            final(self).config() == (PaneSettings {
                cache_count,
                lru_budget_mb,
                ..old(self).config()
            }),
            match old(self).window() {
                Some(v) => if v.cache_count == cache_count {
                    final(self).window() == old(self).window()
                } else if old(self).files() == 0 {
                    final(self).window() == Some(WindowView { cache_count: cache_count as int, ..v })
                } else {
                    exists|r: Option<CachedTexture<T>>|
                        #[trigger] call_ensures(decode_center, (old(self).current() as usize,), r)
                            && final(self).window() == Some(
                            init_view(
                                WindowView { cache_count: cache_count as int, ..v },
                                old(self).current() as usize,
                                old(self).files() as usize,
                                r,
                            ),
                        )
                },
                None => final(self).window() is None,
            },
    {
        let cur = self.current_index;
        let n = self.num_files;
        match &mut self.cache {
            Some(c) => {
                c.set_cache_count(cache_count, cur, n, decode_center);
            },
            None => {},
        }
        self.decode_cache.set_budget_mb(lru_budget_mb);
        self.settings.cache_count = cache_count;
        self.settings.lru_budget_mb = lru_budget_mb;
    }
}

/// Navigation never leaves the file list and never moves further than
/// asked: after an attempt to move `delta` images the pane has the same
/// files, its index is inside the list, and it moved at most `|delta|`
/// images, in the direction of `delta`.
pub proof fn law_navigation_stays_in_list<T: Clone, I>(a: &Pane<T, I>, b: &Pane<T, I>, delta: int, advanced: bool)
    requires
        a.wf(),
        Pane::navigated(a, b, delta, advanced),
    ensures
        b.files() == a.files(),
        b.files() > 0 ==> b.current() < b.files(),
        delta >= 0 ==> a.current() <= b.current() <= a.current() + delta,
        delta < 0 ==> a.current() + delta <= b.current() <= a.current(),
        advanced ==> b.current() != a.current(),
{
}

/// The image left behind by a step forward stays cached: when the window
/// holds the current image and keeps at least one neighbor on each side,
/// a step forward that advanced can be undone by a step back, which lands
/// on the previous image and finds the same cached texture for it.
pub proof fn law_step_back_after_forward<T: Clone, I>(a: &Pane<T, I>, b: &Pane<T, I>)
    requires
        a.wf(),
        Pane::navigated(a, b, 1, true),
        a.window() matches Some(v) && v.cache_count >= 1 && texture_at(v, a.current() as usize) is Some,
    ensures
        nav_target(b.current() as int, -1, b.files() as int) == a.current(),
        Pane::nav_hit(b, -1),
        texture_at(b.window().unwrap(), a.current() as usize) == texture_at(
            a.window().unwrap(),
            a.current() as usize,
        ),
{
    let v = a.window().unwrap();
    let cur = a.current() as usize;
    let n = a.files() as usize;
    let t = (cur + 1) as usize;
    a.lemma_window_sized();
    let w = forward_view(v, t, n);
    assert(b.window() == Some(w));
    assert(slot_of(w.first, w.slots.len() as int, cur) is Some);
    law_forward_keeps_textures(v, t, n, cur);
}

} // verus!
