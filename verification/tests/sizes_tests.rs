use filox::entry::{Entry, EntryKind};
use filox::state::fmt_size;
use filox::view::scan_status_text;

fn file(size: Option<u64>) -> Entry {
    Entry {
        name: "a.bin".to_string(),
        path: "/tmp/a.bin".to_string(),
        kind: EntryKind::File,
        size,
        modified: None,
        is_hidden: false,
        is_cloud_only: false,
    }
}

fn float_fmt_size(bytes: u64) -> String {
    if bytes < 1024 {
        format!("{bytes} B")
    } else if bytes < 1024 * 1024 {
        format!("{:.1} KB", bytes as f64 / 1024.0)
    } else {
        format!("{:.1} MB", bytes as f64 / (1024.0 * 1024.0))
    }
}

fn float_size_display(size: Option<u64>) -> String {
    match size {
        None => String::new(),
        Some(0) => "0 B".to_owned(),
        Some(b) if b < 1024 => format!("{} B", b),
        Some(b) if b < 1024 * 1024 => format!("{:.1} KB", b as f64 / 1024.0),
        Some(b) if b < 1024 * 1024 * 1024 => format!("{:.1} MB", b as f64 / (1024.0 * 1024.0)),
        Some(b) => format!("{:.1} GB", b as f64 / (1024.0 * 1024.0 * 1024.0)),
    }
}

fn samples() -> Vec<u64> {
    let mut v = vec![
        0, 1, 9, 10, 99, 100, 999, 1000, 1023, 1024, 1025, 1075, 1126, 1177, 1280, 1331, 1536,
        2047, 2048, 2304, 10_240, 10_291, 1_048_575, 1_048_576, 1_101_004, 1_310_720, 1_363_148,
        1_073_741_823, 1_073_741_824, 1_181_116_006, 1_342_177_280, 5_000_000_000,
        (1u64 << 53) - 1, 1u64 << 53, (1u64 << 53) + 1, (1u64 << 53) + 3, (1u64 << 54) + 2,
        (1u64 << 54) + 6, (1u64 << 60) + 12345, u64::MAX - 1, u64::MAX,
    ];
    // ties at the first decimal: x.x5 exactly
    for k in 0..64u64 {
        v.push(1024 * k + 256);
        v.push(1024 * k + 768);
        v.push((1u64 << 20) * k + (1u64 << 18));
        v.push((1u64 << 30) * k + (1u64 << 28));
        v.push((1u64 << 30) * k + (1u64 << 29));
    }
    // a spread of values
    let mut x: u64 = 0x9E37_79B9_7F4A_7C15;
    for _ in 0..2000 {
        x ^= x << 13;
        x ^= x >> 7;
        x ^= x << 17;
        v.push(x >> (x % 64));
    }
    v
}

#[test]
fn fmt_size_matches_float_formatting() {
    for b in samples() {
        assert_eq!(fmt_size(b), float_fmt_size(b), "bytes = {b}");
    }
}

#[test]
fn size_display_matches_float_formatting() {
    for b in samples() {
        assert_eq!(file(Some(b)).size_display(), float_size_display(Some(b)), "bytes = {b}");
    }
    assert_eq!(file(None).size_display(), "");
}

#[test]
fn size_display_units() {
    assert_eq!(file(Some(0)).size_display(), "0 B");
    assert_eq!(file(Some(512)).size_display(), "512 B");
    assert_eq!(file(Some(1536)).size_display(), "1.5 KB");
    assert_eq!(file(Some(3 * 1024 * 1024)).size_display(), "3.0 MB");
    assert_eq!(file(Some(5 * 1024 * 1024 * 1024)).size_display(), "5.0 GB");
    // 1.25 KB is a tie; the even neighbour wins
    assert_eq!(file(Some(1280)).size_display(), "1.2 KB");
    assert_eq!(file(Some(1024 + 768)).size_display(), "1.8 KB");
}

#[test]
fn fmt_size_exact_values() {
    assert_eq!(fmt_size(0), "0 B");
    assert_eq!(fmt_size(1023), "1023 B");
    assert_eq!(fmt_size(1024), "1.0 KB");
    assert_eq!(fmt_size(1_048_575), "1024.0 KB");
    assert_eq!(fmt_size(1_048_576), "1.0 MB");
    assert_eq!(fmt_size(10 * 1024 * 1024 * 1024), "10240.0 MB");
}

#[test]
fn scan_status_matches_float_formatting() {
    for b in samples() {
        let expected = format!(
            "{} {}indexed in {} ms",
            format!("{:.0} GB free", b as f64 / 1024.0_f64.powi(3)),
            filox::icons::BOLT,
            42
        );
        assert_eq!(scan_status_text(Some(42), Some(b)), expected, "bytes = {b}");
    }
}

#[test]
fn scan_status_text_cases() {
    assert_eq!(scan_status_text(None, Some(1)), "Scanning…");
    assert_eq!(
        scan_status_text(Some(7), None),
        format!(" {}indexed in 7 ms", filox::icons::BOLT)
    );
    assert_eq!(
        scan_status_text(Some(15), Some(3 * 1024 * 1024 * 1024 + 1)),
        format!("3 GB free {}indexed in 15 ms", filox::icons::BOLT)
    );
    // 2.5 GB rounds to the even 2, 3.5 GB to 4
    assert_eq!(
        scan_status_text(Some(1), Some(5 * 512 * 1024 * 1024)),
        format!("2 GB free {}indexed in 1 ms", filox::icons::BOLT)
    );
    assert_eq!(
        scan_status_text(Some(1), Some(7 * 512 * 1024 * 1024)),
        format!("4 GB free {}indexed in 1 ms", filox::icons::BOLT)
    );
}
