use viewskater::window::{CachedTexture, DecodeResult, SlidingWindowCache, SlotState};

fn tex(i: usize) -> Option<CachedTexture<u32>> {
    Some(CachedTexture { handle: i as u32 * 10, size: [2, 3] })
}

fn upload(i: usize, img: u8) -> CachedTexture<u32> {
    CachedTexture { handle: i as u32 * 10 + img as u32, size: [4, 4] }
}

fn done(i: usize) -> DecodeResult<u8> {
    DecodeResult { file_index: i, image: Some(1) }
}

#[test]
fn window_new_is_empty() {
    let c: SlidingWindowCache<u32, u8> = SlidingWindowCache::new(5, 4);
    assert_eq!(c.cache_size(), 11);
    assert_eq!(c.cache_count(), 5);
    assert_eq!(c.first_file_index(), 0);
    assert_eq!(c.total_bytes(), 0);
    assert_eq!(c.current_texture_for(0), None);
    assert_eq!(c.summary(), "[0..10] 0/11 inflight=0");
}

#[test]
fn window_initialize_centers_and_requests_neighbors() {
    let mut c: SlidingWindowCache<u32, u8> = SlidingWindowCache::new(2, 2);
    c.initialize(5, 20, tex);
    assert_eq!(c.first_file_index(), 3);
    assert_eq!(c.current_texture_for(5), Some(50));
    assert_eq!(c.current_texture_for(4), None);
    // Two decode threads: files 3 and 4 start, 6 and 7 wait.
    assert_eq!(c.take_spawn_requests(), vec![3, 4]);
    assert_eq!(c.take_spawn_requests(), Vec::<usize>::new());
    assert_eq!(c.slot_state(0, 20), SlotState::Loading);
    assert_eq!(c.slot_state(2, 20), SlotState::Loaded);
    assert_eq!(c.slot_state(3, 20), SlotState::Empty);
    assert_eq!(c.summary(), "[3..7] 1/5 inflight=2");
    assert_eq!(c.total_bytes(), 2 * 3 * 4);
}

#[test]
fn window_clamps_near_the_ends() {
    let mut c: SlidingWindowCache<u32, u8> = SlidingWindowCache::new(2, 8);
    c.initialize(0, 20, tex);
    assert_eq!(c.first_file_index(), 0);
    assert_eq!(c.take_spawn_requests(), vec![1, 2, 3, 4]);
    let mut d: SlidingWindowCache<u32, u8> = SlidingWindowCache::new(2, 8);
    d.initialize(19, 20, tex);
    assert_eq!(d.first_file_index(), 15);
    assert_eq!(d.take_spawn_requests(), vec![15, 16, 17, 18]);
    let mut e: SlidingWindowCache<u32, u8> = SlidingWindowCache::new(2, 8);
    e.initialize(1, 3, tex);
    assert_eq!(e.first_file_index(), 0);
    assert_eq!(e.take_spawn_requests(), vec![0, 2]);
    assert_eq!(e.slot_state(3, 3), SlotState::Invalid);
    assert_eq!(e.slot_state(4, 3), SlotState::Invalid);
}

#[test]
fn window_poll_uploads_at_most_two() {
    let mut c: SlidingWindowCache<u32, u8> = SlidingWindowCache::new(2, 4);
    c.initialize(5, 20, tex);
    assert_eq!(c.take_spawn_requests(), vec![3, 4, 6, 7]);
    let repaint = c.poll(vec![done(3), done(4), done(6)], upload);
    assert!(repaint);
    assert_eq!(c.current_texture_for(3), Some(31));
    assert_eq!(c.current_texture_for(4), Some(41));
    assert_eq!(c.current_texture_for(6), None);
    let repaint = c.poll(Vec::new(), upload);
    assert!(!repaint);
    assert_eq!(c.current_texture_for(6), Some(61));
    assert_eq!(c.slot_state(4, 20), SlotState::Loading);
    // A failed decode frees its thread and uploads nothing.
    let repaint = c.poll(vec![DecodeResult { file_index: 7, image: None }], upload);
    assert!(!repaint);
    assert_eq!(c.current_texture_for(7), None);
    assert_eq!(c.slot_state(4, 20), SlotState::Empty);
}

#[test]
fn window_queued_decodes_wait_for_threads() {
    let mut c: SlidingWindowCache<u32, u8> = SlidingWindowCache::new(2, 1);
    c.initialize(5, 20, tex);
    assert_eq!(c.take_spawn_requests(), vec![3]);
    assert!(c.poll(vec![done(3)], upload));
    assert_eq!(c.take_spawn_requests(), vec![4]);
    assert_eq!(c.current_texture_for(3), Some(31));
}

#[test]
fn window_navigation_shifts() {
    let mut c: SlidingWindowCache<u32, u8> = SlidingWindowCache::new(2, 8);
    c.initialize(5, 20, tex);
    c.take_spawn_requests();
    c.poll(vec![done(6)], upload);
    // Moving to 6 puts it right of the center slot: the window shifts and
    // file 8 enters on the right.
    assert_eq!(c.navigate_forward(6, 20), Some(61));
    assert_eq!(c.first_file_index(), 4);
    assert_eq!(c.take_spawn_requests(), vec![8]);
    assert_eq!(c.current_texture_for(5), Some(50));
    assert_eq!(c.current_texture_for(3), None);
    // Back to 5: left of the center slot, the window shifts back. File 3
    // entering on the left is still being decoded, so it is not requested
    // a second time.
    assert_eq!(c.navigate_backward(5, 20), Some(50));
    assert_eq!(c.first_file_index(), 3);
    assert_eq!(c.take_spawn_requests(), Vec::<usize>::new());
    c.poll(vec![done(3)], upload);
    assert_eq!(c.current_texture_for(3), Some(31));
    assert_eq!(c.current_texture_for(6), Some(61));
}

#[test]
fn window_does_not_shift_past_the_ends() {
    let mut c: SlidingWindowCache<u32, u8> = SlidingWindowCache::new(2, 8);
    c.initialize(1, 20, tex);
    c.take_spawn_requests();
    assert_eq!(c.navigate_backward(0, 20), None);
    assert_eq!(c.first_file_index(), 0);
    assert_eq!(c.take_spawn_requests(), Vec::<usize>::new());
    let mut d: SlidingWindowCache<u32, u8> = SlidingWindowCache::new(1, 8);
    d.initialize(2, 4, tex);
    d.take_spawn_requests();
    assert_eq!(d.first_file_index(), 1);
    d.navigate_forward(3, 4);
    assert_eq!(d.first_file_index(), 2);
    // The file entering on the right (4) does not exist: nothing requested.
    assert_eq!(d.take_spawn_requests(), Vec::<usize>::new());
}

#[test]
fn window_jump_and_resize() {
    let mut c: SlidingWindowCache<u32, u8> = SlidingWindowCache::new(2, 8);
    c.initialize(5, 100, tex);
    c.take_spawn_requests();
    c.jump_to(50, 100, tex);
    assert_eq!(c.first_file_index(), 48);
    assert_eq!(c.current_texture_for(50), Some(500));
    assert_eq!(c.current_texture_for(5), None);
    assert_eq!(c.take_spawn_requests(), vec![48, 49, 51, 52]);
    c.set_cache_count(1, 50, 100, tex);
    assert_eq!(c.cache_size(), 3);
    assert_eq!(c.first_file_index(), 49);
    assert_eq!(c.take_spawn_requests(), vec![49, 51]);
    c.set_cache_count(1, 70, 100, tex);
    assert_eq!(c.first_file_index(), 49);
    c.set_decode_threads(0);
    c.jump_to(10, 100, tex);
    assert_eq!(c.take_spawn_requests(), vec![9]);
}

#[test]
fn window_poll_frees_every_handled_thread() {
    let mut c: SlidingWindowCache<u32, u8> = SlidingWindowCache::new(2, 2);
    c.initialize(5, 20, tex);
    assert_eq!(c.take_spawn_requests(), vec![3, 4]);
    // Both results are handled in one poll; the freed threads take the
    // queued files 6 and 7, and neither 3 nor 4 is in flight any more.
    c.poll(vec![done(3), done(4)], upload);
    assert_eq!(c.take_spawn_requests(), vec![6, 7]);
    assert_eq!(c.slot_state(0, 20), SlotState::Loaded);
    assert_eq!(c.slot_state(1, 20), SlotState::Loaded);
    assert_eq!(c.slot_state(3, 20), SlotState::Loading);
    assert_eq!(c.summary(), "[3..7] 3/5 inflight=2");
}

#[test]
fn window_resize_twice_changes_nothing_the_second_time() {
    let mut c: SlidingWindowCache<u32, u8> = SlidingWindowCache::new(2, 8);
    c.initialize(5, 20, tex);
    c.take_spawn_requests();
    c.set_cache_count(3, 5, 20, tex);
    assert_eq!(c.cache_size(), 7);
    assert_eq!(c.first_file_index(), 2);
    assert_eq!(c.take_spawn_requests(), vec![2, 3, 4, 6, 7, 8]);
    let summary = c.summary();
    c.set_cache_count(3, 9, 20, tex);
    assert_eq!(c.cache_size(), 7);
    assert_eq!(c.first_file_index(), 2);
    assert_eq!(c.take_spawn_requests(), Vec::<usize>::new());
    assert_eq!(c.summary(), summary);
}
