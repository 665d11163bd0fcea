use viewskater::text::{footer_index_text, footer_short_index_text, format_file_size, push_decimal, resolution_text};

fn expected_size_text(bytes: u64) -> String {
    if bytes < 1024 {
        format!("{} B", bytes)
    } else if bytes < 1024 * 1024 {
        format!("{:.1} KB", bytes as f64 / 1024.0)
    } else {
        format!("{:.1} MB", bytes as f64 / (1024.0 * 1024.0))
    }
}

#[test]
fn file_size_in_bytes() {
    assert_eq!(format_file_size(0), "0 B");
    assert_eq!(format_file_size(1), "1 B");
    assert_eq!(format_file_size(512), "512 B");
    assert_eq!(format_file_size(1023), "1023 B");
}

#[test]
fn file_size_in_kilobytes() {
    assert_eq!(format_file_size(1024), "1.0 KB");
    assert_eq!(format_file_size(1536), "1.5 KB");
    assert_eq!(format_file_size(10 * 1024), "10.0 KB");
    assert_eq!(format_file_size(1024 * 1024 - 1), "1024.0 KB");
}

#[test]
fn file_size_in_megabytes() {
    assert_eq!(format_file_size(1024 * 1024), "1.0 MB");
    assert_eq!(format_file_size(33_177_600), "31.6 MB");
    assert_eq!(format_file_size(5 * 1024 * 1024 + 512 * 1024), "5.5 MB");
}

#[test]
fn file_size_ties_round_to_even() {
    // 1280 / 1024 = 1.25 and 2304 / 1024 = 2.25 are exact ties.
    assert_eq!(format_file_size(1280), expected_size_text(1280));
    assert_eq!(format_file_size(2304), expected_size_text(2304));
    assert_eq!(format_file_size(1024 * 3 + 384), "3.4 KB");
    assert_eq!(format_file_size(1024 * 1024 * 5 / 4), expected_size_text(1024 * 1024 * 5 / 4));
}

#[test]
fn file_size_matches_float_formatting() {
    let mut b: u64 = 0;
    while b < 300_000 {
        assert_eq!(format_file_size(b), expected_size_text(b), "bytes = {}", b);
        b += 7;
    }
    let mut m: u64 = 1024 * 1024;
    while m < 1u64 << 40 {
        for d in [0u64, 1, 52_428, 52_429, 104_857, 524_288, 943_718] {
            let v = m + d;
            assert_eq!(format_file_size(v), expected_size_text(v), "bytes = {}", v);
        }
        m = m * 3 / 2 + 12_345;
    }
}

#[test]
fn file_size_of_huge_values() {
    for v in [u64::MAX, u64::MAX - 1, 1u64 << 63, (1u64 << 53) + 1, (1u64 << 60) + 12_345] {
        assert_eq!(format_file_size(v), expected_size_text(v), "bytes = {}", v);
    }
}

#[test]
fn decimal_rendering() {
    let mut s = String::from("n=");
    push_decimal(&mut s, 0);
    assert_eq!(s, "n=0");
    let mut t = String::new();
    push_decimal(&mut t, 18_446_744_073_709_551_615);
    assert_eq!(t, "18446744073709551615");
    let mut u = String::new();
    push_decimal(&mut u, 1200);
    assert_eq!(u, "1200");
}

#[test]
fn footer_texts() {
    assert_eq!(footer_index_text(0, 1), "1 / 1");
    assert_eq!(footer_index_text(4, 120), "5 / 120");
    assert_eq!(footer_short_index_text(41), "42");
    assert_eq!(resolution_text(3840, 2160), "3840x2160");
    assert_eq!(resolution_text(0, 0), "0x0");
}
