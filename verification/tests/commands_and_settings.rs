use viewskater::animation::{frame_delay, frame_delay_ratio, FramePacer, MIN_FRAME_DELAY_NS};
use viewskater::keys::{key_command, key_step, DualPaneMode, KeyAction, KeyCommand, KeyInput, ViewState};
use viewskater::settings::{
    AppSettings, GpuMemoryMode, ImageDiscoveryOptions, ImageSortKey, ImageSortOrder, SettingsChanges, SettingsTab,
    SortDirection,
};
use viewskater::slider::{throttle_due, SliderLoader, SLIDER_THROTTLE_MS};
use viewskater::ui::{slider_position, window_title};

fn no_keys() -> KeyInput {
    KeyInput {
        home: false,
        end: false,
        shift: false,
        nav_right_pressed: false,
        nav_left_pressed: false,
        nav_right_held: false,
        nav_left_held: false,
        set_single: false,
        set_dual: false,
        set_independent: false,
        select_pane1: false,
        select_pane2: false,
        toggle_footer: false,
        open_folder: false,
        open_file: false,
        close: false,
        quit: false,
        toggle_fullscreen: false,
        escape: false,
    }
}

#[test]
fn keys_map_to_commands() {
    let m = DualPaneMode::Synced;
    assert_eq!(key_command(&no_keys(), false, 1, m), KeyCommand::Nothing);
    assert_eq!(key_command(&KeyInput { quit: true, ..no_keys() }, false, 1, m), KeyCommand::Quit);
    assert_eq!(key_command(&KeyInput { open_file: true, ..no_keys() }, false, 1, m), KeyCommand::OpenFile);
    assert_eq!(key_command(&KeyInput { open_folder: true, ..no_keys() }, false, 1, m), KeyCommand::OpenFolder);
    assert_eq!(key_command(&KeyInput { close: true, ..no_keys() }, false, 1, m), KeyCommand::Close);
    assert_eq!(key_command(&KeyInput { toggle_footer: true, ..no_keys() }, false, 1, m), KeyCommand::ToggleFooter);
    assert_eq!(key_command(&KeyInput { home: true, ..no_keys() }, false, 1, m), KeyCommand::JumpFirst);
    assert_eq!(key_command(&KeyInput { end: true, ..no_keys() }, false, 1, m), KeyCommand::JumpLast);
    assert_eq!(
        key_command(&KeyInput { set_dual: true, ..no_keys() }, false, 1, m),
        KeyCommand::SetDualPane(DualPaneMode::Synced)
    );
    assert_eq!(
        key_command(&KeyInput { set_independent: true, ..no_keys() }, false, 1, m),
        KeyCommand::SetDualPane(DualPaneMode::Independent)
    );
}

#[test]
fn keys_fullscreen_and_escape() {
    let m = DualPaneMode::Synced;
    let f11 = KeyInput { toggle_fullscreen: true, ..no_keys() };
    let esc = KeyInput { escape: true, ..no_keys() };
    assert_eq!(key_command(&f11, false, 1, m), KeyCommand::ToggleFullscreen);
    assert_eq!(key_command(&f11, true, 1, m), KeyCommand::ToggleFullscreen);
    assert_eq!(key_command(&esc, true, 1, m), KeyCommand::ToggleFullscreen);
    assert_eq!(key_command(&esc, false, 1, m), KeyCommand::Nothing);
}

#[test]
fn keys_priority_order() {
    let m = DualPaneMode::Synced;
    let all = KeyInput {
        home: true,
        end: true,
        nav_right_pressed: true,
        nav_left_pressed: true,
        open_file: true,
        quit: true,
        ..no_keys()
    };
    assert_eq!(key_command(&all, false, 1, m), KeyCommand::Quit);
    assert_eq!(key_command(&KeyInput { quit: false, ..all }, false, 1, m), KeyCommand::OpenFile);
    assert_eq!(key_command(&KeyInput { quit: false, open_file: false, ..all }, false, 1, m), KeyCommand::JumpFirst);
    let nav = KeyInput { nav_right_pressed: true, nav_left_pressed: true, ..no_keys() };
    assert_eq!(key_command(&nav, false, 1, m), KeyCommand::NavigateForward);
    assert_eq!(
        key_command(&KeyInput { nav_right_pressed: false, ..nav }, false, 1, m),
        KeyCommand::NavigateBackward
    );
}

#[test]
fn keys_skate_mode_uses_held_keys() {
    let m = DualPaneMode::Synced;
    let held = KeyInput { shift: true, nav_right_held: true, ..no_keys() };
    assert_eq!(key_command(&held, false, 1, m), KeyCommand::NavigateForward);
    let pressed_only = KeyInput { shift: true, nav_left_pressed: true, ..no_keys() };
    assert_eq!(key_command(&pressed_only, false, 1, m), KeyCommand::Nothing);
    let held_no_shift = KeyInput { nav_left_held: true, ..no_keys() };
    assert_eq!(key_command(&held_no_shift, false, 1, m), KeyCommand::Nothing);
}

#[test]
fn keys_pane_selection_needs_independent_pair() {
    let one = KeyInput { select_pane1: true, ..no_keys() };
    let two = KeyInput { select_pane2: true, ..no_keys() };
    assert_eq!(key_command(&one, false, 2, DualPaneMode::Independent), KeyCommand::TogglePaneSelection(0));
    assert_eq!(key_command(&two, false, 2, DualPaneMode::Independent), KeyCommand::TogglePaneSelection(1));
    assert_eq!(key_command(&one, false, 2, DualPaneMode::Synced), KeyCommand::Nothing);
    assert_eq!(key_command(&one, false, 1, DualPaneMode::Independent), KeyCommand::Nothing);
    let single = KeyInput { set_single: true, ..no_keys() };
    assert_eq!(key_command(&single, false, 2, DualPaneMode::Synced), KeyCommand::SetSinglePane);
    assert_eq!(key_command(&single, false, 1, DualPaneMode::Synced), KeyCommand::Nothing);
}

#[test]
fn settings_defaults() {
    let s = AppSettings::default();
    assert!(s.show_footer);
    assert!(s.show_fps);
    assert!(!s.show_cache_overlay);
    assert!(s.sync_zoom_pan);
    assert_eq!(s.cache_count, 5);
    assert_eq!(s.lru_budget_mb, 1024);
    assert_eq!(s.decode_threads, 10);
    assert_eq!(s.gpu_memory_mode, GpuMemoryMode::Balanced);
    assert!(!s.mouse_wheel_zoom);
    assert!(s.reset_zoom_pan_on_navigation);
    assert!(s.slider_preview);
    assert_eq!(s.preview_budget_mb, 200);
    assert_eq!(
        s.image_discovery_options,
        ImageDiscoveryOptions {
            sort_order: ImageSortOrder { key: ImageSortKey::Name, direction: SortDirection::Ascending },
            include_hidden: false,
            recursive: false,
        }
    );
    assert_eq!(SettingsTab::default(), SettingsTab::General);
    assert!(!SettingsChanges::default().pane_settings);
}

#[test]
fn settings_labels() {
    assert_eq!(ImageSortKey::Name.label(), "Name");
    assert_eq!(ImageSortKey::Modified.label(), "Modified Date");
    assert_eq!(ImageSortKey::Created.label(), "Created Date");
    assert_eq!(ImageSortKey::Size.label(), "File Size");
    assert_eq!(ImageSortKey::Extension.label(), "Extension");
    assert_eq!(SortDirection::Ascending.label(), "Ascending");
    assert_eq!(SortDirection::Descending.label(), "Descending");
    assert_eq!(SettingsTab::General.label(), "General");
    assert_eq!(SettingsTab::Performance.label(), "Performance");
}

#[test]
fn settings_changes_between() {
    let a = AppSettings::default();
    assert!(!SettingsChanges::between(&a, &a).pane_settings);
    let ui_only = AppSettings { show_fps: false, show_footer: false, gpu_memory_mode: GpuMemoryMode::LowMemory, ..a };
    assert!(!SettingsChanges::between(&a, &ui_only).pane_settings);
    assert!(SettingsChanges::between(&a, &AppSettings { cache_count: 3, ..a }).pane_settings);
    assert!(SettingsChanges::between(&a, &AppSettings { lru_budget_mb: 10, ..a }).pane_settings);
    assert!(SettingsChanges::between(&a, &AppSettings { decode_threads: 2, ..a }).pane_settings);
    assert!(SettingsChanges::between(&a, &AppSettings { mouse_wheel_zoom: true, ..a }).pane_settings);
    assert!(SettingsChanges::between(&a, &AppSettings { preview_budget_mb: 1, ..a }).pane_settings);
    assert!(
        SettingsChanges::between(&a, &AppSettings { reset_zoom_pan_on_navigation: false, ..a }).pane_settings
    );
    let hidden = ImageDiscoveryOptions { include_hidden: true, ..a.image_discovery_options };
    assert!(SettingsChanges::between(&a, &AppSettings { image_discovery_options: hidden, ..a }).pane_settings);
}

#[test]
fn slider_throttle() {
    assert_eq!(SLIDER_THROTTLE_MS, 10);
    assert!(!throttle_due(Some(0)));
    assert!(!throttle_due(Some(9)));
    assert!(throttle_due(Some(10)));
    assert!(throttle_due(Some(1000)));
    assert!(throttle_due(None));
    let mut l = SliderLoader::new();
    let first = l.should_load();
    let second = l.should_load();
    // Two calls within the same few microseconds: at most one is due.
    assert!(!(first && second));
}

#[test]
fn title_from_pane_names() {
    assert_eq!(window_title(&Vec::new()), "ViewSkater");
    assert_eq!(window_title(&vec![None]), "ViewSkater");
    assert_eq!(window_title(&vec![Some("a.png".to_string())]), "a.png");
    assert_eq!(
        window_title(&vec![Some("a.png".to_string()), Some("b.png".to_string())]),
        "Left: a.png | Right: b.png"
    );
    assert_eq!(window_title(&vec![None, Some("b.png".to_string())]), "Left:  | Right: b.png");
    assert_eq!(window_title(&vec![None, None]), "ViewSkater");
}

#[test]
fn slider_follows_panes() {
    assert_eq!(slider_position(&Vec::new()), (0, 0));
    assert_eq!(slider_position(&vec![(10, 3)]), (10, 3));
    assert_eq!(slider_position(&vec![(10, 3), (20, 7)]), (20, 7));
    assert_eq!(slider_position(&vec![(10, 8), (0, 9)]), (10, 8));
    assert_eq!(slider_position(&vec![(0, 0), (0, 0)]), (0, 0));
}

#[test]
fn animation_frame_delays() {
    assert_eq!(MIN_FRAME_DELAY_NS, 10_000_000);
    assert_eq!(frame_delay_ratio(100, 1), 100_000_000);
    assert_eq!(frame_delay_ratio(0, 1), 10_000_000);
    assert_eq!(frame_delay_ratio(5, 1), 10_000_000);
    assert_eq!(frame_delay_ratio(100, 3), 33_333_333);
    assert_eq!(frame_delay_ratio(7, 0), 10_000_000);
    assert_eq!(frame_delay_ratio(u32::MAX, 1), u32::MAX as u64 * 1_000_000);
    for (n, d) in [(40u32, 1u32), (1, 3), (250, 7), (10, 1), (33, 2)] {
        let delay = image::Delay::from_numer_denom_ms(n, d);
        let expected = std::time::Duration::from(delay).max(std::time::Duration::from_millis(10));
        assert_eq!(frame_delay(delay) as u128, expected.as_nanos());
    }
}

#[test]
fn animation_pacing_keeps_timeline() {
    let mut p = FramePacer::new();
    assert_eq!(p.next_frame_at(), None);
    assert!(p.frame_due(0));
    assert_eq!(p.wait(0), None);
    p.frame_shown(5, 100);
    assert_eq!(p.next_frame_at(), Some(105));
    assert!(!p.frame_due(104));
    assert!(p.frame_due(105));
    assert_eq!(p.wait(60), Some(45));
    // Shown late, at 130: the next deadline still follows the timeline.
    p.frame_shown(130, 100);
    assert_eq!(p.next_frame_at(), Some(205));
    assert_eq!(p.wait(300), Some(0));
}

#[test]
fn key_steps_change_the_view_state() {
    let s = ViewState { is_fullscreen: false, num_panes: 1, mode: DualPaneMode::Synced, show_footer: true };
    let f11 = KeyInput { toggle_fullscreen: true, ..no_keys() };
    let (on, a) = key_step(s, &f11);
    assert!(on.is_fullscreen);
    assert_eq!(a, KeyAction::SetFullscreen(true));
    let esc = KeyInput { escape: true, ..no_keys() };
    let (off, a) = key_step(on, &esc);
    assert!(!off.is_fullscreen);
    assert_eq!(a, KeyAction::SetFullscreen(false));
    assert_eq!(key_step(s, &esc), (s, KeyAction::Nothing));
    assert_eq!(key_step(on, &KeyInput { quit: true, ..f11 }), (on, KeyAction::Quit));
    let (two, a) = key_step(s, &KeyInput { set_independent: true, ..no_keys() });
    assert_eq!(two.num_panes, 2);
    assert_eq!(two.mode, DualPaneMode::Independent);
    assert_eq!(a, KeyAction::EnsureTwoPanes);
    let (one, a) = key_step(two, &KeyInput { set_single: true, ..no_keys() });
    assert_eq!(one.num_panes, 1);
    assert_eq!(a, KeyAction::KeepFirstPane);
    let (nf, a) = key_step(s, &KeyInput { toggle_footer: true, ..no_keys() });
    assert!(!nf.show_footer);
    assert_eq!(a, KeyAction::SaveSettings);
    assert_eq!(key_step(s, &KeyInput { end: true, ..no_keys() }).1, KeyAction::JumpLast);
    assert_eq!(key_step(s, &KeyInput { home: true, ..no_keys() }).1, KeyAction::JumpFirst);
}

#[test]
fn slider_records_due_readings() {
    let t0 = std::time::Instant::now();
    let mut l = SliderLoader::starting_at(t0);
    let later = t0 + std::time::Duration::from_millis(25);
    assert!(!l.record_reading(later, Some(5)));
    assert!(l.record_reading(later, Some(10)));
    assert!(l.record_reading(later, None));
    // A last decode later than the clock reading counts as a full interval.
    let mut m = SliderLoader::starting_at(std::time::Instant::now() + std::time::Duration::from_secs(60));
    assert!(m.should_load());
    assert!(!m.should_load());
}
