use viewskater::pane::{Pane, PaneEvents, PaneSettings};
use viewskater::panes::{jump_panes, navigate_panes};
use viewskater::window::{CachedTexture, DecodeResult};

fn tex(i: usize) -> Option<CachedTexture<u32>> {
    Some(CachedTexture { handle: i as u32 * 10, size: [2, 2] })
}

fn upload(i: usize, img: u8) -> CachedTexture<u32> {
    CachedTexture { handle: i as u32 * 10 + img as u32, size: [2, 2] }
}

fn decode(i: usize) -> Option<(u8, [usize; 2])> {
    Some((7, [16, 16 + i]))
}

fn upload_sync(i: usize, img: u8) -> u32 {
    1000 + i as u32 * 10 + img as u32
}

fn new_pane() -> Pane<u32, u8> {
    Pane::new(2, 64, 4, false, true, 200)
}

fn opened(n: usize, start: usize) -> Pane<u32, u8> {
    let mut p = new_pane();
    p.open_files(n, start, tex);
    p.take_events();
    p
}

fn fill(p: &mut Pane<u32, u8>) {
    let started = p.take_spawn_requests();
    let results: Vec<DecodeResult<u8>> = started.iter().map(|&i| DecodeResult { file_index: i, image: Some(1) }).collect();
    while p.poll_cache(Vec::new(), upload) {}
    p.poll_cache(results, upload);
    while p.poll_cache(Vec::new(), upload) {}
}

#[test]
fn pane_new_is_empty() {
    let p = new_pane();
    assert_eq!(p.num_files(), 0);
    assert_eq!(p.current_index(), 0);
    assert_eq!(*p.current_texture(), None);
    assert!(p.cache().is_none());
    assert!(p.selected());
    assert_eq!(p.decode_cache().len(), 0);
    assert_eq!(
        p.settings(),
        PaneSettings {
            cache_count: 2,
            lru_budget_mb: 64,
            decode_threads: 4,
            mouse_wheel_zoom: false,
            reset_zoom_pan_on_navigation: true,
            preview_budget_mb: 200,
        }
    );
    assert!(!p.can_navigate_forward());
    assert!(!p.can_navigate_backward());
}

#[test]
fn pane_open_shows_start_image() {
    let mut p = new_pane();
    p.open_files(10, 3, tex);
    assert_eq!(p.num_files(), 10);
    assert_eq!(p.current_index(), 3);
    assert_eq!(*p.current_texture(), Some(30));
    assert_eq!(p.take_events(), PaneEvents { reset_view: true, texture_set: true });
    assert_eq!(p.take_events(), PaneEvents { reset_view: false, texture_set: false });
    assert_eq!(p.take_spawn_requests(), vec![1, 2, 4, 5]);
    assert!(p.can_navigate_forward());
    assert!(p.can_navigate_backward());
}

#[test]
fn pane_navigates_only_to_cached_images() {
    let mut p = opened(10, 3);
    // Nothing decoded yet: the move waits for the cache.
    assert!(!p.is_next_cached(1));
    assert!(!p.navigate(1));
    assert_eq!(p.current_index(), 3);
    fill(&mut p);
    assert!(p.is_next_cached(1));
    assert!(p.navigate(1));
    assert_eq!(p.current_index(), 4);
    assert_eq!(*p.current_texture(), Some(41));
    assert_eq!(p.take_events(), PaneEvents { reset_view: true, texture_set: true });
    // And back again: the image left behind is still cached.
    assert!(p.navigate(-1));
    assert_eq!(p.current_index(), 3);
    assert_eq!(*p.current_texture(), Some(30));
}

#[test]
fn pane_stops_at_the_ends() {
    let mut p = opened(3, 0);
    fill(&mut p);
    assert!(p.is_next_cached(-1));
    assert!(!p.navigate(-1));
    assert!(p.navigate(5));
    assert_eq!(p.current_index(), 2);
    assert!(!p.can_navigate_forward());
    assert!(!p.navigate(1));
    assert_eq!(p.current_index(), 2);
}

#[test]
fn pane_jump_rebuilds_window() {
    let mut p = opened(100, 3);
    p.jump_to(60, tex, decode, upload_sync);
    assert_eq!(p.current_index(), 60);
    assert_eq!(*p.current_texture(), Some(600));
    assert_eq!(p.cache().unwrap().first_file_index(), 58);
    assert_eq!(p.decode_cache().len(), 0);
    p.jump_to(1000, tex, decode, upload_sync);
    assert_eq!(p.current_index(), 99);
    // A jump whose center fails to decode falls back to a synchronous load.
    p.jump_to(10, |_| None, decode, upload_sync);
    assert_eq!(p.current_index(), 10);
    assert_eq!(*p.current_texture(), Some(1107));
    assert_eq!(p.decode_cache().len(), 1);
    p.take_events();
    p.jump_to(10, tex, decode, upload_sync);
    assert_eq!(p.take_events(), PaneEvents { reset_view: false, texture_set: false });
}

#[test]
fn pane_slider_drag_uses_window_then_lru() {
    let mut p = opened(100, 3);
    // Inside the window: shown at once.
    assert!(p.apply_slider_target(3, decode, upload_sync) == false);
    // Outside the window, right after opening: the throttle holds.
    let loaded = p.apply_slider_target(50, decode, upload_sync);
    assert_eq!(p.current_index(), 50);
    if loaded {
        assert_eq!(*p.current_texture(), Some(1507));
    } else {
        assert_eq!(*p.current_texture(), Some(30));
    }
    p.apply_slider_release(tex);
    assert_eq!(*p.current_texture(), Some(500));
    assert_eq!(p.cache().unwrap().first_file_index(), 48);
}

#[test]
fn pane_close_and_clear() {
    let mut p = opened(10, 3);
    p.close();
    assert_eq!(p.num_files(), 0);
    assert_eq!(p.current_index(), 0);
    assert_eq!(*p.current_texture(), None);
    assert!(p.cache().is_none());
    assert_eq!(p.take_events(), PaneEvents { reset_view: true, texture_set: false });
    let mut q = opened(10, 3);
    q.clear_file_list();
    assert_eq!(q.num_files(), 0);
    assert_eq!(q.current_index(), 3);
    assert!(!q.navigate(1));
}

#[test]
fn pane_selection_and_settings() {
    let mut p = opened(10, 3);
    p.toggle_selected();
    assert!(!p.selected());
    p.toggle_selected();
    assert!(p.selected());
    p.apply_cache_settings(1, 32, tex);
    assert_eq!(p.settings().cache_count, 1);
    assert_eq!(p.settings().lru_budget_mb, 32);
    assert_eq!(p.cache().unwrap().cache_size(), 3);
    assert_eq!(p.cache().unwrap().first_file_index(), 2);
    assert_eq!(p.decode_cache().len(), 0);
}

#[test]
fn synced_panes_move_together() {
    let mut a = opened(10, 3);
    let mut b = opened(10, 3);
    fill(&mut a);
    let mut panes = vec![a, b];
    // The second pane has nothing cached yet: neither pane moves.
    assert_eq!(navigate_panes(&mut panes, 1, false), (false, true));
    assert_eq!(panes[0].current_index(), 3);
    assert_eq!(panes[1].current_index(), 3);
    b = panes.pop().unwrap();
    fill(&mut b);
    panes.push(b);
    assert_eq!(navigate_panes(&mut panes, 1, false), (true, true));
    assert_eq!(panes[0].current_index(), 4);
    assert_eq!(panes[1].current_index(), 4);
}

#[test]
fn independent_panes_move_when_selected() {
    let mut a = opened(10, 3);
    let mut b = opened(10, 3);
    fill(&mut a);
    b.toggle_selected();
    let mut panes = vec![a, b];
    assert_eq!(navigate_panes(&mut panes, 1, true), (true, true));
    assert_eq!(panes[0].current_index(), 4);
    assert_eq!(panes[1].current_index(), 3);
    let mut end = vec![opened(1, 0)];
    assert_eq!(navigate_panes(&mut end, -1, false), (false, false));
}

#[test]
fn pane_open_list_starts_at_target() {
    let names: Vec<String> = ["a.png", "b.png", "c.png"].iter().map(|s| s.to_string()).collect();
    let mut p = new_pane();
    p.open_list(&names, &Some("c.png".to_string()), tex);
    assert_eq!(p.num_files(), 3);
    assert_eq!(p.current_index(), 2);
    assert_eq!(*p.current_texture(), Some(20));
    let mut q = new_pane();
    q.open_list(&names, &Some("zzz.png".to_string()), tex);
    assert_eq!(q.current_index(), 0);
    assert_eq!(*q.current_texture(), Some(0));
    // An empty directory keeps what was shown but empties the list.
    q.take_events();
    q.open_list(&Vec::new(), &None, tex);
    assert_eq!(q.num_files(), 0);
    assert_eq!(*q.current_texture(), Some(0));
    assert_eq!(q.take_events(), PaneEvents { reset_view: false, texture_set: false });
}

#[test]
fn panes_jump_to_first_and_last() {
    let centered = |_p: usize, k: usize| tex(k);
    let sync = |_p: usize, k: usize| decode(k);
    let up = |_p: usize, k: usize, img: u8| upload_sync(k, img);
    let mut panes = vec![opened(10, 3), opened(5, 2)];
    jump_panes(&mut panes, true, false, centered, sync, up);
    assert_eq!(panes[0].current_index(), 9);
    assert_eq!(panes[1].current_index(), 4);
    assert_eq!(*panes[0].current_texture(), Some(90));
    panes[1].toggle_selected();
    jump_panes(&mut panes, false, true, centered, sync, up);
    assert_eq!(panes[0].current_index(), 0);
    assert_eq!(panes[1].current_index(), 4);
    let mut empty = vec![new_pane()];
    jump_panes(&mut empty, true, false, centered, sync, up);
    assert_eq!(empty[0].current_index(), 0);
}
