use pasteharbor::privacy::{looks_like_secret, should_skip_text};

#[test]
fn skips_marked_sensitive_text() {
    assert!(should_skip_text("regular text", true));
}

#[test]
fn keeps_normal_text() {
    assert!(!should_skip_text("a regular copied sentence", false));
}

#[test]
fn skips_token_shaped_text() {
    assert!(should_skip_text("ghp_abc1234567890.def-xyz", false));
}

#[test]
fn skips_blank_text() {
    assert!(should_skip_text("", false));
    assert!(should_skip_text(" \t\n\u{3000}\u{a0}", false));
}

#[test]
fn token_is_recognised_after_trimming() {
    assert!(should_skip_text("  ghp_abc1234567890.def-xyz\n", false));
}

#[test]
fn short_token_is_kept() {
    // 19 bytes: one byte short of the secret length.
    assert!(!looks_like_secret("ab12-cd34_ef56.gh78"));
    assert!(looks_like_secret("ab12-cd34_ef56.gh789"));
}

#[test]
fn secret_needs_letter_digit_and_two_symbols() {
    assert!(!looks_like_secret("abcdefghij-klmnopqrst_uv"));
    assert!(!looks_like_secret("0123456789-0123456789_01"));
    assert!(!looks_like_secret("abc123def456ghi789-jkl"));
    assert!(looks_like_secret("abc123def456ghi789-jk~l"));
}

#[test]
fn secret_length_counts_bytes() {
    // Thirteen characters, but twenty-two bytes in UTF-8.
    assert!(looks_like_secret("éééééééééa1-_"));
    assert!(!looks_like_secret("ééééééa1-_"));
}

#[test]
fn inner_white_space_is_no_secret() {
    assert!(!should_skip_text("ghp_abc1234567890 def-xyz", false));
}
