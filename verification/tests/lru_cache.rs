use viewskater::lru::{DecodeLruCache, BYTES_PER_MB};

const QUARTER_MB: [usize; 2] = [256, 256];

#[test]
fn lru_insert_then_get_returns_handle() {
    let mut c: DecodeLruCache<u32> = DecodeLruCache::new(1);
    assert_eq!(c.len(), 0);
    let h = c.insert(7, QUARTER_MB, || 70);
    assert_eq!(h, 70);
    assert_eq!(c.get(7), Some(70));
    assert_eq!(c.get(8), None);
    assert_eq!(c.len(), 1);
    assert_eq!(c.total_bytes(), 256 * 256 * 4);
}

#[test]
fn lru_evicts_least_recently_used() {
    let mut c: DecodeLruCache<u32> = DecodeLruCache::new(1);
    for i in 0..4u32 {
        c.insert(i as usize, QUARTER_MB, || i + 100);
    }
    assert_eq!(c.len(), 4);
    assert_eq!(c.total_bytes(), BYTES_PER_MB);
    // Touch 0 so that 1 becomes the least recently used.
    assert_eq!(c.get(0), Some(100));
    c.insert(4, QUARTER_MB, || 104);
    assert_eq!(c.len(), 4);
    assert_eq!(c.get(1), None);
    assert_eq!(c.get(0), Some(100));
    assert_eq!(c.get(2), Some(102));
    assert_eq!(c.get(4), Some(104));
    assert!(c.total_bytes() <= BYTES_PER_MB);
}

#[test]
fn lru_replaces_entry_for_same_file() {
    let mut c: DecodeLruCache<u32> = DecodeLruCache::new(1);
    c.insert(3, QUARTER_MB, || 1);
    c.insert(3, [128, 128], || 2);
    assert_eq!(c.len(), 1);
    assert_eq!(c.total_bytes(), 128 * 128 * 4);
    assert_eq!(c.get(3), Some(2));
}

#[test]
fn lru_oversized_image_still_stored() {
    let mut c: DecodeLruCache<u32> = DecodeLruCache::new(1);
    c.insert(0, QUARTER_MB, || 1);
    // A 4K RGBA image is about 32 MB, far over the 1 MB budget: everything
    // else is evicted and the image alone is kept.
    c.insert(1, [3840, 2160], || 2);
    assert_eq!(c.len(), 1);
    assert_eq!(c.total_bytes(), 3840 * 2160 * 4);
    assert_eq!(c.get(1), Some(2));
}

#[test]
fn lru_clear_and_budget_change() {
    let mut c: DecodeLruCache<u32> = DecodeLruCache::new(2);
    for i in 0..6u32 {
        c.insert(i as usize, QUARTER_MB, || i);
    }
    assert_eq!(c.len(), 6);
    c.set_budget_mb(1);
    assert_eq!(c.len(), 4);
    assert_eq!(c.get(0), None);
    assert_eq!(c.get(1), None);
    assert_eq!(c.get(5), Some(5));
    c.set_budget_mb(0);
    assert_eq!(c.len(), 0);
    assert_eq!(c.total_bytes(), 0);
    let mut d: DecodeLruCache<u32> = DecodeLruCache::new(1);
    d.insert(1, QUARTER_MB, || 1);
    d.clear();
    assert_eq!(d.len(), 0);
    assert_eq!(d.total_bytes(), 0);
    assert_eq!(d.get(1), None);
}

#[test]
fn lru_insert_keeps_the_most_recent_suffix() {
    let mut c: DecodeLruCache<u32> = DecodeLruCache::new(1);
    for i in 0..4u32 {
        c.insert(i as usize, QUARTER_MB, || i + 100);
    }
    // A half-megabyte image evicts the two least recently used entries.
    let h = c.insert(9, [512, 256], || 109);
    assert_eq!(h, 109);
    assert_eq!(c.len(), 3);
    assert_eq!(c.total_bytes(), BYTES_PER_MB);
    assert_eq!(c.get(0), None);
    assert_eq!(c.get(1), None);
    assert_eq!(c.get(2), Some(102));
    assert_eq!(c.get(3), Some(103));
    assert_eq!(c.get(9), Some(109));
}
