use viewskater::perf::{memory_text, ImageLoads, LOAD_WINDOW_NS};

fn expected_memory_text(bytes: u64) -> String {
    let mb = bytes as f64 / (1024.0 * 1024.0);
    if mb >= 1024.0 {
        format!("{:.1} GB", mb / 1024.0)
    } else {
        format!("{:.0} MB", mb)
    }
}

#[test]
fn memory_text_values() {
    assert_eq!(memory_text(0), "0 MB");
    assert_eq!(memory_text(300 * 1024 * 1024), "300 MB");
    assert_eq!(memory_text(1024 * 1024 * 1024), "1.0 GB");
    assert_eq!(memory_text(3 * 512 * 1024 * 1024), "1.5 GB");
    assert_eq!(memory_text(1024 * 1024 * 1024 - 1), "1024 MB");
}

#[test]
fn memory_text_matches_float_formatting() {
    let mut b: u64 = 0;
    while b < (1u64 << 42) {
        for d in [0u64, 1, 524_287, 524_288, 524_289, 53_687_091, 107_374_182] {
            let v = b + d;
            assert_eq!(memory_text(v), expected_memory_text(v), "bytes = {}", v);
        }
        b = b * 5 / 4 + 999_983;
    }
    for v in [u64::MAX, 1u64 << 63, (1u64 << 53) + 1] {
        assert_eq!(memory_text(v), expected_memory_text(v), "bytes = {}", v);
    }
}

#[test]
fn image_loads_rolling_window() {
    assert_eq!(LOAD_WINDOW_NS, 2_000_000_000);
    let mut l = ImageLoads::new();
    assert_eq!(l.prune(0), (0, None));
    l.record(100);
    l.record(1_000_000_000);
    l.record(2_500_000_000);
    // Window [0.6 s, 2.6 s]: the load at 100 ns is forgotten.
    assert_eq!(l.prune(2_600_000_000), (2, Some(1_000_000_000)));
    assert_eq!(l.prune(2_600_000_000), (2, Some(1_000_000_000)));
    assert_eq!(l.prune(10_000_000_000), (0, None));
    l.record(10_000_000_001);
    assert_eq!(l.prune(10_000_000_002), (1, Some(10_000_000_001)));
    let mut early = ImageLoads::new();
    early.record(5);
    assert_eq!(early.prune(1_000), (1, Some(5)));
}
