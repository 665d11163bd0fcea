//! Byte-budgeted LRU cache of uploaded textures, keyed by file index.
//!
//! Entries are kept in access order: the front of the sequence is the least
//! recently used entry and the back is the most recently used one. The byte
//! size of every entry is recorded when it is inserted (`width * height * 4`,
//! RGBA), and the cache keeps the running total of those sizes.
use vstd::prelude::*;

verus! {

/// Number of bytes in one megabyte of budget.
pub const BYTES_PER_MB: usize = 1048576;

/// One cached texture: the file it was decoded from, the handle of the
/// uploaded texture and its size in bytes.
pub struct LruEntry<T> {
    pub file_index: usize,
    pub handle: T,
    pub bytes: usize,
}

/// Sum of the byte sizes of a sequence of entries.
pub open spec fn sum_bytes<T>(s: Seq<LruEntry<T>>) -> nat
    decreases s.len(),
{
    if s.len() == 0 {
        0
    } else {
        sum_bytes(s.drop_last()) + s.last().bytes as nat
    }
}

/// No two entries share a file index.
pub open spec fn distinct_keys<T>(s: Seq<LruEntry<T>>) -> bool {
    forall|i: int, j: int|
        0 <= i < s.len() && 0 <= j < s.len() && i != j ==> #[trigger] s[i].file_index
            != #[trigger] s[j].file_index
}

/// Some entry is keyed by `k`.
pub open spec fn has_key<T>(s: Seq<LruEntry<T>>, k: usize) -> bool {
    exists|i: int| 0 <= i < s.len() && #[trigger] s[i].file_index == k
}

/// The position of the entry keyed by `k` (meaningful when `has_key(s, k)`).
pub open spec fn key_index<T>(s: Seq<LruEntry<T>>, k: usize) -> int {
    choose|i: int| 0 <= i < s.len() && #[trigger] s[i].file_index == k
}

/// The entries with the one keyed by `k` taken out, if there is one.
pub open spec fn without_key<T>(s: Seq<LruEntry<T>>, k: usize) -> Seq<LruEntry<T>> {
    if has_key(s, k) {
        s.remove(key_index(s, k))
    } else {
        s
    }
}

/// Least-recently-used eviction: drop entries from the front while the
/// remaining ones plus `incoming` bytes exceed `budget`.
pub open spec fn evict_for<T>(s: Seq<LruEntry<T>>, incoming: nat, budget: nat) -> Seq<LruEntry<T>>
    decreases s.len(),
{
    if s.len() > 0 && sum_bytes(s) + incoming > budget {
        evict_for(s.drop_first(), incoming, budget)
    } else {
        s
    }
}

/// Byte size of an image of the given pixel dimensions (four bytes per pixel).
pub open spec fn image_bytes(size: [usize; 2]) -> nat {
    (size[0] * size[1] * 4) as nat
}

/// `after` is `before` after a hit on `k` that handed out `h`: the entry
/// moved to the most recently used position and `h` is a clone of its
/// handle.
pub open spec fn lru_hit<T: Clone>(before: Seq<LruEntry<T>>, k: usize, after: Seq<LruEntry<T>>, h: T) -> bool {
    let i = key_index(before, k);
    &&& has_key(before, k)
    &&& after == before.remove(i).push(before[i])
    &&& cloned(before[i].handle, h)
}

/// `after` is `before` after inserting the texture `h` for `k` with pixel
/// size `size` under `budget`: any entry for `k` is replaced, least recently
/// used entries are evicted until the new one fits, and the new entry (a
/// clone of `h`) is the most recently used.
pub open spec fn lru_inserted<T: Clone>(
    before: Seq<LruEntry<T>>,
    k: usize,
    size: [usize; 2],
    budget: nat,
    after: Seq<LruEntry<T>>,
    h: T,
) -> bool {
    let kept = evict_for(without_key(before, k), image_bytes(size), budget);
    let last = after.last();
    &&& after.len() == kept.len() + 1
    &&& after.drop_last() == kept
    &&& last.file_index == k
    &&& last.bytes == image_bytes(size)
    &&& cloned(h, last.handle)
}

pub proof fn lemma_sum_push<T>(s: Seq<LruEntry<T>>, e: LruEntry<T>)
    ensures
        sum_bytes(s.push(e)) == sum_bytes(s) + e.bytes,
{
    assert(s.push(e).drop_last() =~= s);
}

pub proof fn lemma_sum_remove<T>(s: Seq<LruEntry<T>>, i: int)
    requires
        0 <= i < s.len(),
    ensures
        sum_bytes(s.remove(i)) + s[i].bytes == sum_bytes(s),
    decreases s.len(),
{
    if i == s.len() - 1 {
        assert(s.remove(i) =~= s.drop_last());
    } else {
        lemma_sum_remove(s.drop_last(), i);
        assert(s.remove(i).drop_last() =~= s.drop_last().remove(i));
        assert(s.remove(i).last() == s.last());
    }
}

pub proof fn lemma_without_key_sum<T>(s: Seq<LruEntry<T>>, k: usize)
    ensures
        sum_bytes(without_key(s, k)) <= sum_bytes(s),
{
    if has_key(s, k) {
        lemma_sum_remove(s, key_index(s, k));
    }
}

pub proof fn lemma_sum_drop_first<T>(s: Seq<LruEntry<T>>)
    requires
        s.len() > 0,
    ensures
        sum_bytes(s.drop_first()) + s[0].bytes == sum_bytes(s),
{
    lemma_sum_remove(s, 0);
    assert(s.remove(0) =~= s.drop_first());
}

/// Eviction keeps a suffix of the entries (only the least recently used
/// ones leave), and the suffix is the longest one that fits with `incoming`
/// bytes, or is empty.
pub proof fn lemma_evict_suffix<T>(s: Seq<LruEntry<T>>, incoming: nat, budget: nat)
    ensures
        exists|j: int|
            0 <= j <= s.len() && #[trigger] evict_for(s, incoming, budget) == s.subrange(j, s.len() as int),
        sum_bytes(evict_for(s, incoming, budget)) + incoming <= budget || evict_for(
            s,
            incoming,
            budget,
        ).len() == 0,
    decreases s.len(),
{
    if s.len() > 0 && sum_bytes(s) + incoming > budget {
        lemma_evict_suffix(s.drop_first(), incoming, budget);
        let j = choose|j: int|
            0 <= j <= s.drop_first().len() && #[trigger] evict_for(s.drop_first(), incoming, budget)
                == s.drop_first().subrange(j, s.drop_first().len() as int);
        assert(s.drop_first().subrange(j, s.drop_first().len() as int) =~= s.subrange(
            j + 1,
            s.len() as int,
        ));
        assert(evict_for(s, incoming, budget) == s.subrange(j + 1, s.len() as int));
    } else {
        assert(s.subrange(0, s.len() as int) =~= s);
        assert(evict_for(s, incoming, budget) == s.subrange(0, s.len() as int));
    }
}

pub proof fn lemma_distinct_subrange<T>(s: Seq<LruEntry<T>>, a: int, b: int)
    requires
        distinct_keys(s),
        0 <= a <= b <= s.len(),
    ensures
        distinct_keys(s.subrange(a, b)),
{
    assert forall|i: int, j: int|
        0 <= i < s.subrange(a, b).len() && 0 <= j < s.subrange(a, b).len() && i != j implies #[trigger] s.subrange(
        a,
        b,
    )[i].file_index != #[trigger] s.subrange(a, b)[j].file_index by {
        assert(s.subrange(a, b)[i] == s[a + i]);
        assert(s.subrange(a, b)[j] == s[a + j]);
    }
}

pub proof fn lemma_distinct_remove<T>(s: Seq<LruEntry<T>>, r: int)
    requires
        distinct_keys(s),
        0 <= r < s.len(),
    ensures
        distinct_keys(s.remove(r)),
        !has_key(s.remove(r), s[r].file_index),
{
    let t = s.remove(r);
    assert forall|i: int, j: int|
        0 <= i < t.len() && 0 <= j < t.len() && i != j implies #[trigger] t[i].file_index
        != #[trigger] t[j].file_index by {
        let si = if i < r { i } else { i + 1 };
        let sj = if j < r { j } else { j + 1 };
        assert(t[i] == s[si]);
        assert(t[j] == s[sj]);
    }
    if has_key(t, s[r].file_index) {
        let i = choose|i: int| 0 <= i < t.len() && #[trigger] t[i].file_index == s[r].file_index;
        let si = if i < r { i } else { i + 1 };
        assert(t[i] == s[si]);
    }
}

pub proof fn lemma_distinct_push<T>(s: Seq<LruEntry<T>>, e: LruEntry<T>)
    requires
        distinct_keys(s),
        !has_key(s, e.file_index),
    ensures
        distinct_keys(s.push(e)),
        has_key(s.push(e), e.file_index),
{
    let t = s.push(e);
    assert(t[s.len() as int] == e);
    assert forall|i: int, j: int|
        0 <= i < t.len() && 0 <= j < t.len() && i != j implies #[trigger] t[i].file_index
        != #[trigger] t[j].file_index by {
        if i < s.len() && j < s.len() {
            assert(t[i] == s[i]);
            assert(t[j] == s[j]);
        } else if i < s.len() {
            assert(t[i] == s[i]);
        } else {
            assert(t[j] == s[j]);
        }
    }
}

pub proof fn lemma_no_key_subrange<T>(s: Seq<LruEntry<T>>, k: usize, a: int, b: int)
    requires
        !has_key(s, k),
        0 <= a <= b <= s.len(),
    ensures
        !has_key(s.subrange(a, b), k),
{
    if has_key(s.subrange(a, b), k) {
        let i = choose|i: int|
            0 <= i < s.subrange(a, b).len() && #[trigger] s.subrange(a, b)[i].file_index == k;
        assert(s.subrange(a, b)[i] == s[a + i]);
    }
}

/// LRU cache of uploaded textures with a byte budget.
///
/// On a hit, `get` hands out a clone of the stored handle and marks the
/// entry most recently used. `insert` evicts least recently used entries
/// until the new texture fits, then uploads it and stores it as most
/// recently used.
pub struct DecodeLruCache<T> {
    entries: Vec<LruEntry<T>>,
    budget_bytes: usize,
    total_bytes: usize,
}

impl<T> DecodeLruCache<T> {
    /// The entries in access order, least recently used first.
    pub closed spec fn entries(&self) -> Seq<LruEntry<T>> {
        self.entries@
    }

    pub closed spec fn budget(&self) -> nat {
        self.budget_bytes as nat
    }

    pub closed spec fn spec_total_bytes(&self) -> nat {
        self.total_bytes as nat
    }

    /// Well-formedness: keys are distinct and the running total is the sum
    /// of the entry sizes.
    pub closed spec fn wf(&self) -> bool {
        &&& distinct_keys(self.entries@)
        &&& self.total_bytes as nat == sum_bytes(self.entries@)
    }

    /// A well-formed cache has distinct keys, and its running total is the
    /// sum of the sizes of its entries.
    pub proof fn lemma_wf(&self)
        requires
            self.wf(),
        ensures
            distinct_keys(self.entries()),
            self.spec_total_bytes() == sum_bytes(self.entries()),
    {
    }

    /// An empty cache whose budget is `budget_mb` megabytes.
    pub fn new(budget_mb: usize) -> (cache: Self)
        requires
            budget_mb * BYTES_PER_MB <= usize::MAX,
        ensures
            cache.wf(),
            cache.entries() == Seq::<LruEntry<T>>::empty(),
            cache.budget() == budget_mb * BYTES_PER_MB,
            cache.spec_total_bytes() == 0,
    {
        DecodeLruCache { entries: Vec::new(), budget_bytes: budget_mb * BYTES_PER_MB, total_bytes: 0 }
    }

    /// Finds the position of the entry keyed by `file_index`.
    fn position_of(&self, file_index: usize) -> (pos: Option<usize>)
        requires
            self.wf(),
        ensures
            match pos {
                Some(i) => i < self.entries().len() && i == key_index(self.entries(), file_index)
                    && has_key(self.entries(), file_index),
                None => !has_key(self.entries(), file_index),
            },
    {
        let mut i: usize = 0;
        while i < self.entries.len()
            invariant
                self.wf(),
                i <= self.entries@.len(),
                forall|j: int| 0 <= j < i ==> #[trigger] self.entries@[j].file_index != file_index,
            decreases self.entries@.len() - i,
        {
            if self.entries[i].file_index == file_index {
                proof {
                    let s = self.entries@;
                    assert(s[i as int].file_index == file_index);
                    assert(has_key(s, file_index));
                    let c = key_index(s, file_index);
                    if c != i {
                        assert(s[c].file_index != s[i as int].file_index);
                    }
                }
                return Some(i);
            }
            i = i + 1;
        }
        None
    }

    /// The cached texture for `file_index`, if any. A hit moves the entry to
    /// the most recently used position.
    pub fn get(&mut self, file_index: usize) -> (ret: Option<T>) where T: Clone
        requires
            old(self).wf(),
        ensures
            final(self).wf(),
            final(self).budget() == old(self).budget(),
            match ret {
                Some(h) => lru_hit(old(self).entries(), file_index, final(self).entries(), h),
                None => !has_key(old(self).entries(), file_index) && final(self).entries() == old(
                    self,
                ).entries(),
            },
    {
        match self.position_of(file_index) {
            Some(i) => {
                let ghost s = self.entries@;
                let e = self.entries.remove(i);
                proof {
                    lemma_sum_remove(s, i as int);
                    lemma_distinct_remove(s, i as int);
                    lemma_sum_push(s.remove(i as int), e);
                    lemma_distinct_push(s.remove(i as int), e);
                }
                let h = e.handle.clone();
                self.entries.push(e);
                Some(h)
            },
            None => None,
        }
    }

    /// Evicts least recently used entries until `incoming` more bytes fit in
    /// `budget_bytes`, or the cache is empty.
    fn evict_until_fits(&mut self, incoming: usize)
        requires
            old(self).wf(),
            old(self).spec_total_bytes() + incoming <= usize::MAX,
        ensures
            final(self).wf(),
            final(self).budget() == old(self).budget(),
            final(self).entries() == evict_for(
                old(self).entries(),
                incoming as nat,
                old(self).budget(),
            ),
    {
        let ghost target = evict_for(self.entries@, incoming as nat, self.budget_bytes as nat);
        while self.total_bytes + incoming > self.budget_bytes
            invariant_except_break
                self.wf(),
                self.budget_bytes == old(self).budget_bytes,
                self.total_bytes + incoming <= usize::MAX,
                evict_for(self.entries@, incoming as nat, self.budget_bytes as nat) == target,
            ensures
                self.wf(),
                self.budget_bytes == old(self).budget_bytes,
                self.entries@ == target,
            decreases self.entries@.len(),
        {
            if self.entries.len() > 0 {
                let ghost s = self.entries@;
                let e = self.entries.remove(0);
                proof {
                    lemma_sum_drop_first(s);
                    assert(s.remove(0) =~= s.drop_first());
                    lemma_distinct_remove(s, 0);
                }
                self.total_bytes = self.total_bytes - e.bytes;
            } else {
                break;
            }
        }
    }

    /// Uploads a decoded image with `upload`, stores the new handle as most
    /// recently used and evicts least recently used entries until the cache
    /// is within budget. An entry already stored for `file_index` is replaced.
    /// Returns the new handle.
    pub fn insert<F: FnOnce() -> T>(&mut self, file_index: usize, image_size: [usize; 2], upload: F) -> (ret: T) where
        T: Clone,

        requires
            old(self).wf(),
            call_requires(upload, ()),
            image_bytes(image_size) <= usize::MAX,
            sum_bytes(without_key(old(self).entries(), file_index)) + image_bytes(image_size)
                <= usize::MAX,
        ensures
            final(self).wf(),
            distinct_keys(final(self).entries()),
            final(self).spec_total_bytes() == sum_bytes(final(self).entries()),
            final(self).budget() == old(self).budget(),
            call_ensures(upload, (), ret),
            lru_inserted(
                old(self).entries(),
                file_index,
                image_size,
                old(self).budget(),
                final(self).entries(),
                ret,
            ),
    {
        let new_bytes = image_size[0] * image_size[1] * 4;
        let ghost s0 = self.entries@;
        match self.position_of(file_index) {
            Some(i) => {
                let old_entry = self.entries.remove(i);
                proof {
                    lemma_sum_remove(s0, i as int);
                    lemma_distinct_remove(s0, i as int);
                }
                self.total_bytes = self.total_bytes - old_entry.bytes;
            },
            None => {},
        }
        assert(self.entries@ == without_key(s0, file_index));
        self.evict_until_fits(new_bytes);
        let ghost kept = self.entries@;
        proof {
            lemma_evict_suffix(without_key(s0, file_index), new_bytes as nat, self.budget_bytes as nat);
            let w = without_key(s0, file_index);
            if has_key(s0, file_index) {
                lemma_distinct_remove(s0, key_index(s0, file_index));
            }
            assert(!has_key(w, file_index));
            let j = choose|j: int|
                0 <= j <= w.len() && #[trigger] evict_for(w, new_bytes as nat, self.budget_bytes as nat)
                    == w.subrange(j, w.len() as int);
            lemma_no_key_subrange(w, file_index, j, w.len() as int);
            assert(sum_bytes(kept) <= sum_bytes(w)) by {
                lemma_suffix_sum(w, j);
            }
        }
        let handle = upload();
        let stored = handle.clone();
        let e = LruEntry { file_index, handle: stored, bytes: new_bytes };
        proof {
            lemma_sum_push(kept, e);
            lemma_distinct_push(kept, e);
        }
        self.total_bytes = self.total_bytes + new_bytes;
        self.entries.push(e);
        assert(self.entries@.drop_last() =~= kept);
        handle
    }

    /// Number of cached textures.
    pub fn len(&self) -> (n: usize)
        ensures
            n == self.entries().len(),
    {
        self.entries.len()
    }

    /// Total bytes of the cached textures.
    pub fn total_bytes(&self) -> (n: usize)
        requires
            self.wf(),
        ensures
            n == self.spec_total_bytes(),
            n == sum_bytes(self.entries()),
    {
        self.total_bytes
    }

    /// Drops every cached texture.
    pub fn clear(&mut self)
        ensures
            final(self).wf(),
            final(self).budget() == old(self).budget(),
            final(self).entries() == Seq::<LruEntry<T>>::empty(),
            final(self).spec_total_bytes() == 0,
    {
        self.entries.clear();
        self.total_bytes = 0;
    }

    /// Changes the budget to `budget_mb` megabytes, evicting least recently
    /// used entries while the total is over the new budget.
    pub fn set_budget_mb(&mut self, budget_mb: usize)
        requires
            old(self).wf(),
            budget_mb * BYTES_PER_MB <= usize::MAX,
        ensures
            final(self).wf(),
            final(self).budget() == budget_mb * BYTES_PER_MB,
            final(self).entries() == evict_for(old(self).entries(), 0, final(self).budget()),
    {
        self.budget_bytes = budget_mb * BYTES_PER_MB;
        self.evict_until_fits(0);
    }
}

pub proof fn lemma_suffix_sum<T>(s: Seq<LruEntry<T>>, j: int)
    requires
        0 <= j <= s.len(),
    ensures
        sum_bytes(s.subrange(j, s.len() as int)) <= sum_bytes(s),
    decreases j,
{
    if j > 0 {
        lemma_suffix_sum(s.drop_first(), j - 1);
        assert(s.drop_first().subrange(j - 1, s.drop_first().len() as int) =~= s.subrange(
            j,
            s.len() as int,
        ));
        lemma_sum_drop_first(s);
    } else {
        assert(s.subrange(0, s.len() as int) =~= s);
    }
}

/// Read after write: after inserting a texture for `k`, the cache holds an
/// entry for `k`, as most recently used, with the image's byte size and a
/// clone of the returned handle; a following `get(k)` hits and hands out a
/// clone of that stored handle.
pub proof fn law_get_after_insert<T: Clone>(
    before: Seq<LruEntry<T>>,
    k: usize,
    size: [usize; 2],
    budget: nat,
    after: Seq<LruEntry<T>>,
    h: T,
)
    requires
        distinct_keys(before),
        lru_inserted(before, k, size, budget, after, h),
    ensures
        has_key(after, k),
        key_index(after, k) == after.len() - 1,
        after[after.len() - 1].bytes == image_bytes(size),
        cloned(h, after[after.len() - 1].handle),
        distinct_keys(after),
        forall|after2: Seq<LruEntry<T>>, h2: T|
            #[trigger] lru_hit(after, k, after2, h2) ==> cloned(after[after.len() - 1].handle, h2)
                && after2 == after,
{
    let w = without_key(before, k);
    if has_key(before, k) {
        lemma_distinct_remove(before, key_index(before, k));
    }
    lemma_evict_suffix(w, image_bytes(size), budget);
    let kept = evict_for(w, image_bytes(size), budget);
    let j = choose|j: int|
        0 <= j <= w.len() && #[trigger] evict_for(w, image_bytes(size), budget) == w.subrange(j, w.len() as int);
    lemma_no_key_subrange(w, k, j, w.len() as int);
    lemma_distinct_subrange(w, j, w.len() as int);
    let last = after.last();
    assert(after =~= kept.push(last));
    lemma_distinct_push(kept, last);
    let n = after.len() - 1;
    assert(after[n].file_index == k);
    let c = key_index(after, k);
    if c != n {
        assert(after[c].file_index != after[n].file_index);
    }
    assert(after.remove(n).push(after[n]) =~= after);
}

/// Budget: after an insert, the cached bytes are within the budget, unless
/// the new image alone exceeds it (then it is the only entry left).
pub proof fn law_insert_within_budget<T: Clone>(
    before: Seq<LruEntry<T>>,
    k: usize,
    size: [usize; 2],
    budget: nat,
    after: Seq<LruEntry<T>>,
    h: T,
)
    requires
        lru_inserted(before, k, size, budget, after, h),
    ensures
        sum_bytes(after) <= budget || after.len() == 1,
{
    let w = without_key(before, k);
    lemma_evict_suffix(w, image_bytes(size), budget);
    let kept = evict_for(w, image_bytes(size), budget);
    assert(after =~= kept.push(after.last()));
    lemma_sum_push(kept, after.last());
}

/// Least recently used first: the entries kept by an insert are a suffix of
/// the previous entries (with any old entry for `k` taken out), so every
/// evicted entry was used less recently than every kept one.
pub proof fn law_evicts_least_recent<T: Clone>(
    before: Seq<LruEntry<T>>,
    k: usize,
    size: [usize; 2],
    budget: nat,
    after: Seq<LruEntry<T>>,
    h: T,
)
    requires
        lru_inserted(before, k, size, budget, after, h),
    ensures
        exists|j: int|
            0 <= j <= without_key(before, k).len() && after.drop_last() == #[trigger] without_key(
                before,
                k,
            ).subrange(j, without_key(before, k).len() as int),
{
    lemma_evict_suffix(without_key(before, k), image_bytes(size), budget);
}

/// What one insert guarantees, all together: keys stay distinct; the new
/// entry for `k` is the most recently used one, with the image's byte size
/// and a clone of the returned handle, and a following `get(k)` hits and
/// hands out a clone of it; the cached bytes are within the budget unless
/// the new entry is alone; and the entries kept are the most recently used
/// suffix of the previous ones (any old entry for `k` taken out), so every
/// evicted entry was used less recently than every kept one.
pub proof fn law_insert_contract<T: Clone>(
    before: Seq<LruEntry<T>>,
    k: usize,
    size: [usize; 2],
    budget: nat,
    after: Seq<LruEntry<T>>,
    h: T,
)
    requires
        distinct_keys(before),
        lru_inserted(before, k, size, budget, after, h),
    ensures
        distinct_keys(after),
        has_key(after, k),
        key_index(after, k) == after.len() - 1,
        after.last().file_index == k,
        after.last().bytes == image_bytes(size),
        cloned(h, after.last().handle),
        forall|after2: Seq<LruEntry<T>>, h2: T|
            #[trigger] lru_hit(after, k, after2, h2) ==> cloned(after.last().handle, h2)
                && after2 == after,
        sum_bytes(after) <= budget || after.len() == 1,
        exists|j: int|
            0 <= j <= without_key(before, k).len() && after.drop_last() == #[trigger] without_key(
                before,
                k,
            ).subrange(j, without_key(before, k).len() as int),
{
    law_get_after_insert(before, k, size, budget, after, h);
    law_insert_within_budget(before, k, size, budget, after, h);
    law_evicts_least_recent(before, k, size, budget, after, h);
}

/// A lowered budget is respected: after `set_budget_mb` the cached bytes
/// are within the new budget.
pub proof fn law_budget_respected<T>(entries: Seq<LruEntry<T>>, budget: nat)
    ensures
        sum_bytes(evict_for(entries, 0, budget)) <= budget,
{
    lemma_evict_suffix(entries, 0, budget);
    if evict_for(entries, 0, budget).len() == 0 {
        assert(sum_bytes(evict_for(entries, 0, budget)) == 0);
    }
}

/// A hit only reorders: the entries after a `get` are the same ones (same
/// keys, handles and sizes, the same total) with the hit one moved last.
pub proof fn law_hit_keeps_contents<T: Clone>(before: Seq<LruEntry<T>>, k: usize, after: Seq<LruEntry<T>>, h: T)
    requires
        lru_hit(before, k, after, h),
    ensures
        after.len() == before.len(),
        sum_bytes(after) == sum_bytes(before),
        after.to_multiset() == before.to_multiset(),
{
    let i = key_index(before, k);
    lemma_sum_remove(before, i);
    lemma_sum_push(before.remove(i), before[i]);
    vstd::seq_lib::to_multiset_remove(before, i);
    vstd::seq_lib::to_multiset_build(before.remove(i), before[i]);
    assert(before.contains(before[i]));
    vstd::seq_lib::to_multiset_contains(before, before[i]);
    assert(before.to_multiset().count(before[i]) > 0);
    assert(before.to_multiset().remove(before[i]).insert(before[i]) =~= before.to_multiset());
}

} // verus!
