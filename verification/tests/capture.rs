use pasteharbor::capture::{store_step, StoreStep};
use pasteharbor::capture::{
    content_hash, image_capture, image_capture_from, image_capture_key, incoming_text_capture,
    text_capture, to_hex_lower, CaptureError, DecodedImage, MAX_IMAGE_BYTES, MAX_TEXT_BYTES,
    TEXT_MIME_TYPES,
};

fn blake3_hex(bytes: &[u8]) -> String {
    blake3::hash(bytes).to_hex().to_string()
}

#[test]
fn hex_encoding_is_lowercase_pairs() {
    assert_eq!(to_hex_lower(&[0x00, 0x0f, 0xa5, 0xff]), "000fa5ff");
    assert_eq!(to_hex_lower(&[]), "");
}

#[test]
fn content_hash_is_blake3_hex() {
    assert_eq!(content_hash(b"hello"), blake3_hex(b"hello"));
    assert_eq!(
        content_hash(b""),
        "af1349b9f5f9a1a6a0404dea36dcc9499bcb25c9adc112b7cc9a93cae41f3262"
    );
    assert_ne!(content_hash(b"hello"), content_hash(b"hellO"));
}

#[test]
fn text_capture_builds_the_entry() {
    let capture = text_capture("  hello \n world ", Some("gnome-shell"), false).unwrap();
    assert_eq!(capture.content_hash, blake3_hex("  hello \n world ".as_bytes()));
    assert_eq!(capture.preview_text, "hello world");
    assert_eq!(capture.mime_types, TEXT_MIME_TYPES);
    assert_eq!(capture.mime_types, r#"["text/plain;charset=utf-8","text/plain"]"#);
    assert_eq!(capture.content_text, "  hello \n world ");
    assert_eq!(capture.source_app.as_deref(), Some("gnome-shell"));
    assert!(!capture.sensitive);
    assert_eq!(capture.size_bytes, 16);
}

#[test]
fn text_capture_rejects_empty_and_oversized_text() {
    assert!(text_capture("", None, false).is_none());
    let big = "a".repeat(MAX_TEXT_BYTES + 1);
    assert!(text_capture(&big, None, false).is_none());
    let limit = "a".repeat(MAX_TEXT_BYTES);
    assert!(text_capture(&limit, None, false).is_some());
    // Size counts UTF-8 bytes.
    assert_eq!(text_capture("é", None, true).unwrap().size_bytes, 2);
}

#[test]
fn identical_texts_share_their_key() {
    let a = text_capture("same text", None, false).unwrap();
    let b = text_capture("same text", Some("other"), false).unwrap();
    assert_eq!(a.content_hash, b.content_hash);
}

#[test]
fn incoming_capture_applies_privacy_rules() {
    assert!(incoming_text_capture("regular text", "app", true).is_none());
    assert!(incoming_text_capture("   ", "app", false).is_none());
    assert!(incoming_text_capture("ghp_abc1234567890.def-xyz", "app", false).is_none());
    let kept = incoming_text_capture("a regular copied sentence", "", false).unwrap();
    assert_eq!(kept.source_app, None);
    let named = incoming_text_capture("a regular copied sentence", "firefox", false).unwrap();
    assert_eq!(named.source_app.as_deref(), Some("firefox"));
}

#[test]
fn image_key_respects_limits() {
    assert_eq!(image_capture_key(b"abc", false), Some(blake3_hex(b"abc")));
    assert_eq!(image_capture_key(b"abc", true), None);
    assert_eq!(image_capture_key(b"", false), None);
    assert_eq!(image_capture_key(&vec![0u8; MAX_IMAGE_BYTES + 1], false), None);
}

#[test]
fn image_entry_from_decoded_parts() {
    let decoded = DecodedImage { width: 640, height: 480, thumbnail_png: Some(vec![1, 2, 3]) };
    let entry = image_capture_from(1000, None, Some(decoded), Some("image/gif".to_string())).unwrap();
    assert_eq!(entry.preview_text, "Image \u{b7} 640\u{d7}480");
    assert_eq!(entry.mime_type, "image/gif");
    assert_eq!(entry.mime_types, r#"["image/gif"]"#);
    assert_eq!(entry.thumbnail_png, vec![1, 2, 3]);
    assert_eq!((entry.width, entry.height, entry.size_bytes), (640, 480, 1000));

    let given = DecodedImage { width: 1, height: 2, thumbnail_png: Some(vec![]) };
    let entry = image_capture_from(5, Some("image/webp"), Some(given), None).unwrap();
    assert_eq!(entry.mime_type, "image/webp");

    let empty_given = DecodedImage { width: 1, height: 2, thumbnail_png: Some(vec![]) };
    let entry = image_capture_from(5, Some(""), Some(empty_given), None).unwrap();
    assert_eq!(entry.mime_type, "image/png");
}

#[test]
fn image_entry_errors() {
    assert_eq!(
        image_capture_from(5, None, None, None).err(),
        Some(CaptureError::UndecodableImage)
    );
    let no_thumb = DecodedImage { width: 1, height: 1, thumbnail_png: None };
    assert_eq!(
        image_capture_from(5, None, Some(no_thumb), None).err(),
        Some(CaptureError::ThumbnailEncoding)
    );
}

/// A 2x1 RGB image in the binary PPM format.
fn tiny_ppm() -> Vec<u8> {
    let mut bytes = b"P6\n2 1\n255\n".to_vec();
    bytes.extend_from_slice(&[255, 0, 0, 0, 0, 255]);
    bytes
}

#[test]
fn image_capture_decodes_real_image() {
    let bytes = tiny_ppm();
    let entry = image_capture(&bytes, None).unwrap();
    assert_eq!((entry.width, entry.height), (2, 1));
    assert_eq!(entry.preview_text, "Image \u{b7} 2\u{d7}1");
    assert_eq!(entry.mime_type, "image/x-portable-anymap");
    assert!(entry.thumbnail_png.starts_with(&[0x89, b'P', b'N', b'G']));
    assert_eq!(entry.size_bytes, bytes.len() as i64);
    let named = image_capture(&bytes, Some("image/x-ppm")).unwrap();
    assert_eq!(named.mime_type, "image/x-ppm");
}

#[test]
fn image_capture_rejects_garbage() {
    assert_eq!(
        image_capture(b"not an image", None).err(),
        Some(CaptureError::UndecodableImage)
    );
}

#[test]
fn stored_content_is_touched_not_inserted() {
    assert_eq!(store_step(Some(7)), StoreStep::TouchExisting(7));
    assert_eq!(store_step(None), StoreStep::InsertNew);
}
