use pasteharbor::format::format_bytes;
use pasteharbor::preview::preview_text;

fn reference_bytes(bytes: i64) -> String {
    if bytes < 1024 {
        format!("{bytes} B")
    } else {
        format!("{:.1} KB", bytes as f64 / 1024.0)
    }
}

#[test]
fn formats_small_sizes_in_bytes() {
    assert_eq!(format_bytes(0), "0 B");
    assert_eq!(format_bytes(22), "22 B");
    assert_eq!(format_bytes(1023), "1023 B");
    assert_eq!(format_bytes(-5), "-5 B");
    assert_eq!(format_bytes(i64::MIN), format!("{} B", i64::MIN));
}

#[test]
fn formats_large_sizes_in_kb() {
    assert_eq!(format_bytes(1024), "1.0 KB");
    assert_eq!(format_bytes(1536), "1.5 KB");
    assert_eq!(format_bytes(10 * 1024 * 1024), "10240.0 KB");
}

#[test]
fn kb_labels_agree_with_float_formatting() {
    let mut b: i64 = 1024;
    while b < 200_000 {
        assert_eq!(format_bytes(b), reference_bytes(b), "{b}");
        b += 1;
    }
    for b in [
        i64::MAX,
        i64::MAX - 1,
        (1i64 << 53) - 1,
        1i64 << 53,
        (1i64 << 53) + 1,
        (1i64 << 53) + 3,
        (1i64 << 54) + 2,
        (1i64 << 54) + 6,
        (1i64 << 62) + 12345,
        999_999_999_999,
        123_456_789_012_345_678,
    ] {
        assert_eq!(format_bytes(b), reference_bytes(b), "{b}");
    }
    let mut x: u64 = 0x9E37_79B9_7F4A_7C15;
    for _ in 0..20_000 {
        x ^= x << 13;
        x ^= x >> 7;
        x ^= x << 17;
        let b = (x >> 1) as i64;
        let b = if b < 1024 { b + 1024 } else { b };
        assert_eq!(format_bytes(b), reference_bytes(b), "{b}");
    }
}

fn reference_preview(text: &str) -> String {
    let mut preview = text.split_whitespace().collect::<Vec<_>>().join(" ");
    if preview.chars().count() > 180 {
        preview = preview.chars().take(180).collect();
        preview.push_str("...");
    }
    preview
}

#[test]
fn preview_collapses_white_space() {
    assert_eq!(preview_text("  hello \n\t world  "), "hello world");
    assert_eq!(preview_text(""), "");
    assert_eq!(preview_text(" \u{2003} "), "");
    assert_eq!(preview_text("one"), "one");
}

#[test]
fn preview_cuts_long_text() {
    let long = "word ".repeat(100);
    let preview = preview_text(&long);
    assert_eq!(preview.chars().count(), 183);
    assert!(preview.ends_with("..."));
    assert_eq!(preview, reference_preview(&long));
}

#[test]
fn preview_agrees_with_split_and_join() {
    for text in [
        "a  b   c",
        "\u{85}x\u{a0}y\u{2028}z\u{3000}",
        "tabs\tand\nnew\r\nlines",
        "ééé  ààà",
        &"x".repeat(180),
        &"x".repeat(181),
        &format!("{} {}", "y".repeat(179), "z"),
    ] {
        assert_eq!(preview_text(text), reference_preview(text), "{text:?}");
    }
}

#[test]
fn preview_of_short_preview_is_unchanged() {
    let first = preview_text("  some   copied\ttext ");
    assert_eq!(preview_text(&first), first);
    let cut = preview_text(&"word  ".repeat(100));
    assert_eq!(cut.chars().count(), 183);
    assert_eq!(preview_text(&cut), cut);
    let cut_at_space = preview_text(&format!("{} tail {}", "y".repeat(179), "z".repeat(50)));
    assert!(cut_at_space.ends_with(" ..."));
    assert_eq!(preview_text(&cut_at_space), cut_at_space);
}
