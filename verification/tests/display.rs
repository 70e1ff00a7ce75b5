use pasteharbor::format::{
    format_timestamp, format_timestamp_from, subtitle, type_icon, IMAGE_ICON, TEXT_ICON,
};

#[test]
fn formats_rfc3339_timestamps() {
    assert_eq!(format_timestamp("2026-06-05T10:01:00Z"), "Jun 05, 10:01");
    assert_eq!(format_timestamp("2024-12-31T23:59:59+02:00"), "Dec 31, 23:59");
    assert_eq!(format_timestamp("2024-01-02T03:04:05.678-05:00"), "Jan 02, 03:04");
}

#[test]
fn keeps_unparsable_timestamps() {
    assert_eq!(format_timestamp("yesterday"), "yesterday");
    assert_eq!(format_timestamp(""), "");
}

#[test]
fn formats_given_fields() {
    assert_eq!(format_timestamp_from("x", Some((9, 7, 0, 5))), "Sep 07, 00:05");
    assert_eq!(format_timestamp_from("x", None), "x");
}

#[test]
fn subtitle_joins_known_parts() {
    assert_eq!(
        subtitle(Some("Firefox"), "text", None, None, 22, "2026-06-05T10:01:00Z"),
        "Firefox  \u{b7}  22 B  \u{b7}  Jun 05, 10:01"
    );
    assert_eq!(
        subtitle(None, "image", Some(640), Some(480), 2048, "bad"),
        "640\u{d7}480  \u{b7}  2.0 KB  \u{b7}  bad"
    );
    assert_eq!(
        subtitle(None, "image", Some(640), None, 10, "bad"),
        "10 B  \u{b7}  bad"
    );
    assert_eq!(
        subtitle(None, "text", Some(640), Some(480), 10, "bad"),
        "10 B  \u{b7}  bad"
    );
}

#[test]
fn icons_follow_kind() {
    assert_eq!(type_icon("image"), IMAGE_ICON);
    assert_eq!(type_icon("text"), TEXT_ICON);
    assert_eq!(type_icon("images"), TEXT_ICON);
    assert_eq!(IMAGE_ICON, "image-x-generic-symbolic");
}
