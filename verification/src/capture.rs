//! What is stored when text or an image is copied: the limits on what is
//! accepted, the content hash that detects duplicates, and the columns of a
//! new history entry.

use vstd::prelude::*;
use vstd::utf8::encode_utf8;
use crate::preview::{preview_of, preview_text};
use crate::privacy::{should_skip_text, skips_text};
use crate::text::{decimal_digits, push_char, push_decimal, string_from_chars};

verus! {

/// Largest text, in UTF-8 bytes, that is stored.
pub const MAX_TEXT_BYTES: usize = 1024 * 1024;

/// Largest image, in bytes, that is stored.
pub const MAX_IMAGE_BYTES: usize = 16 * 1024 * 1024;

/// Thumbnails fit in a square of this many pixels.
pub const THUMB_MAX_DIM: u32 = 320;

/// MIME types recorded for a text entry.
pub const TEXT_MIME_TYPES: &'static str = "[\"text/plain;charset=utf-8\",\"text/plain\"]";

/// MIME type of an image whose type is neither given nor recognised.
pub const FALLBACK_IMAGE_MIME: &'static str = "image/png";

/// The BLAKE3 digest of `input` (32 bytes).
pub uninterp spec fn blake3_digest(input: Seq<u8>) -> Seq<u8>;

/// `blake3::hash`: the 32-byte BLAKE3 digest of `input`. The contract names
/// the digest and states its length; it does not state the hash algorithm.
#[verifier::external_body]
fn blake3_hash(input: &[u8]) -> (digest: Vec<u8>)
    ensures
        digest@ == blake3_digest(input@),
        digest@.len() == 32,
{
    blake3::hash(input).as_bytes().to_vec()
}

/// The lowercase hexadecimal digit for `n < 16`.
pub open spec fn hex_digit(n: nat) -> char {
    if n < 10 {
        (48 + n) as char
    } else {
        (87 + n) as char
    }
}

/// `bytes` in lowercase hexadecimal, two digits per byte, high nibble first,
/// as `blake3::Hash::to_hex` writes a digest.
pub open spec fn hex_lower(bytes: Seq<u8>) -> Seq<char>
    decreases bytes.len(),
{
    if bytes.len() == 0 {
        Seq::empty()
    } else {
        hex_lower(bytes.drop_last()) + seq![
            hex_digit((bytes.last() / 16) as nat),
            hex_digit((bytes.last() % 16) as nat),
        ]
    }
}

/// The key under which content is de-duplicated: its BLAKE3 digest in
/// lowercase hexadecimal.
pub open spec fn content_hash_of(bytes: Seq<u8>) -> Seq<char> {
    hex_lower(blake3_digest(bytes))
}

proof fn lemma_hex_lower_len(x: Seq<u8>)
    ensures
        hex_lower(x).len() == 2 * x.len(),
    decreases x.len(),
{
    if x.len() > 0 {
        lemma_hex_lower_len(x.drop_last());
    }
}

proof fn lemma_hex_digit_injective(a: nat, b: nat)
    requires
        a < 16,
        b < 16,
        hex_digit(a) == hex_digit(b),
    ensures
        a == b,
{
    assert(hex_digit(a) as u32 == if a < 10 { 48 + a } else { 87 + a });
    assert(hex_digit(b) as u32 == if b < 10 { 48 + b } else { 87 + b });
}

/// Different bytes are written as different hexadecimal text.
pub proof fn lemma_hex_lower_injective(x: Seq<u8>, y: Seq<u8>)
    requires
        hex_lower(x) == hex_lower(y),
    ensures
        x == y,
    decreases x.len(),
{
    lemma_hex_lower_len(x);
    lemma_hex_lower_len(y);
    if x.len() > 0 {
        let hx = hex_lower(x);
        let hy = hex_lower(y);
        let px = hex_lower(x.drop_last());
        let py = hex_lower(y.drop_last());
        lemma_hex_lower_len(x.drop_last());
        lemma_hex_lower_len(y.drop_last());
        let n = hx.len();
        assert(hx[n - 2] == hex_digit((x.last() / 16) as nat));
        assert(hy[n - 2] == hex_digit((y.last() / 16) as nat));
        assert(hx[n - 1] == hex_digit((x.last() % 16) as nat));
        assert(hy[n - 1] == hex_digit((y.last() % 16) as nat));
        lemma_hex_digit_injective((x.last() / 16) as nat, (y.last() / 16) as nat);
        lemma_hex_digit_injective((x.last() % 16) as nat, (y.last() % 16) as nat);
        assert(x.last() == y.last());
        assert(px == hx.subrange(0, n - 2));
        assert(py == hy.subrange(0, n - 2));
        lemma_hex_lower_injective(x.drop_last(), y.drop_last());
        assert(x == x.drop_last().push(x.last()));
        assert(y == y.drop_last().push(y.last()));
    }
}

/// The de-duplication key covers the whole content: two contents get the
/// same key exactly when the BLAKE3 digests of all their bytes agree.
pub proof fn lemma_key_is_digest_of_whole_content(a: Seq<u8>, b: Seq<u8>)
    ensures
        (content_hash_of(a) == content_hash_of(b)) <==> (blake3_digest(a) == blake3_digest(b)),
{
    if content_hash_of(a) == content_hash_of(b) {
        lemma_hex_lower_injective(blake3_digest(a), blake3_digest(b));
    }
}

fn hex_char(n: u8) -> (c: char)
    requires
        n < 16,
    ensures
        c == hex_digit(n as nat),
{
    if n < 10 {
        (48u8 + n) as char
    } else {
        (87u8 + n) as char
    }
}

/// Encodes bytes in lowercase hexadecimal.
pub fn to_hex_lower(bytes: &[u8]) -> (s: String)
    ensures
        s@ == hex_lower(bytes@),
{
    let mut out: Vec<char> = Vec::new();
    for i in 0..bytes.len()
        invariant
            out@ == hex_lower(bytes@.take(i as int)),
    {
        let b = bytes[i];
        out.push(hex_char(b / 16));
        out.push(hex_char(b % 16));
        assert(bytes@.take(i + 1).drop_last() == bytes@.take(i as int));
        assert(bytes@.take(i + 1).last() == b);
    }
    assert(bytes@.take(bytes@.len() as int) == bytes@);
    string_from_chars(&out)
}

/// The de-duplication key of some content.
pub fn content_hash(bytes: &[u8]) -> (h: String)
    ensures
        h@ == content_hash_of(bytes@),
{
    let digest = blake3_hash(bytes);
    to_hex_lower(digest.as_slice())
}

/// `Some` view of an optional string.
pub open spec fn opt_view(o: Option<String>) -> Option<Seq<char>> {
    match o {
        Some(s) => Some(s@),
        None => None,
    }
}

/// The columns of a new text entry.
pub struct TextCapture {
    pub content_hash: String,
    pub preview_text: String,
    pub mime_types: String,
    pub content_text: String,
    pub source_app: Option<String>,
    pub sensitive: bool,
    pub size_bytes: i64,
}

/// Whether a text of these UTF-8 bytes is stored at all: it must be
/// non-empty and at most `MAX_TEXT_BYTES` long.
pub open spec fn text_storable(text: Seq<char>) -> bool {
    text.len() > 0 && encode_utf8(text).len() <= MAX_TEXT_BYTES
}

/// What a stored text entry holds for `text`.
pub open spec fn text_capture_matches(
    c: TextCapture,
    text: Seq<char>,
    source_app: Option<Seq<char>>,
    sensitive: bool,
) -> bool {
    &&& c.content_hash@ == content_hash_of(encode_utf8(text))
    &&& c.preview_text@ == preview_of(text)
    &&& c.mime_types@ == TEXT_MIME_TYPES@
    &&& c.content_text@ == text
    &&& opt_view(c.source_app) == source_app
    &&& c.sensitive == sensitive
    &&& c.size_bytes == encode_utf8(text).len()
}

/// The entry to store for a copied text; `None` when the text is empty or
/// too long to be stored.
pub fn text_capture(text: &str, source_app: Option<&str>, sensitive: bool) -> (r: Option<
    TextCapture,
>)
    ensures
        r is Some <==> text_storable(text@),
        r matches Some(c) ==> text_capture_matches(
            c,
            text@,
            match source_app {
                Some(s) => Some(s@),
                None => None,
            },
            sensitive,
        ),
{
    let bytes = text.as_bytes();
    if text.is_empty() || bytes.len() > MAX_TEXT_BYTES {
        return None;
    }
    let source = match source_app {
        Some(s) => Some(s.to_owned()),
        None => None,
    };
    Some(
        TextCapture {
            content_hash: content_hash(bytes),
            preview_text: preview_text(text),
            mime_types: TEXT_MIME_TYPES.to_owned(),
            content_text: text.to_owned(),
            source_app: source,
            sensitive,
            size_bytes: bytes.len() as i64,
        },
    )
}

/// What the service stores when a client reports a copied text: nothing when
/// the text is skipped by the privacy rules or cannot be stored; otherwise
/// the entry, with an empty source application recorded as none.
pub fn incoming_text_capture(text: &str, source_app: &str, sensitive: bool) -> (r: Option<
    TextCapture,
>)
    ensures
        r is Some <==> !skips_text(text@, sensitive) && text_storable(text@),
        r matches Some(c) ==> text_capture_matches(
            c,
            text@,
            if source_app@.len() == 0 {
                None
            } else {
                Some(source_app@)
            },
            sensitive,
        ),
{
    if should_skip_text(text, sensitive) {
        return None;
    }
    let source = if source_app.is_empty() {
        None
    } else {
        Some(source_app)
    };
    text_capture(text, source, sensitive)
}

/// Whether an image copy is stored at all: it is not marked sensitive, and
/// it is non-empty and at most `MAX_IMAGE_BYTES` long.
pub open spec fn image_storable(bytes: Seq<u8>, sensitive: bool) -> bool {
    !sensitive && bytes.len() > 0 && bytes.len() <= MAX_IMAGE_BYTES
}

/// The de-duplication key of a copied image; `None` when the image is not
/// stored at all.
pub fn image_capture_key(bytes: &[u8], sensitive: bool) -> (r: Option<String>)
    ensures
        r is Some <==> image_storable(bytes@, sensitive),
        r matches Some(h) ==> h@ == content_hash_of(bytes@),
{
    if sensitive || bytes.len() == 0 || bytes.len() > MAX_IMAGE_BYTES {
        return None;
    }
    Some(content_hash(bytes))
}

/// What decoding an image gives: its width and height, and its thumbnail,
/// fitted in a square of `thumb_max_dim` pixels and encoded as PNG, when
/// that encoding succeeds. `None` when the bytes are no decodable image.
pub uninterp spec fn decoded_image(bytes: Seq<u8>, thumb_max_dim: u32) -> Option<
    (u32, u32, Option<Seq<u8>>),
>;

/// The MIME type of the image format recognised from the first bytes of
/// `bytes`, if any.
pub uninterp spec fn guessed_mime(bytes: Seq<u8>) -> Option<Seq<char>>;

/// A decoded image, as the library reads it.
pub struct DecodedImage {
    pub width: u32,
    pub height: u32,
    pub thumbnail_png: Option<Vec<u8>>,
}

/// The plain values of a decoded image.
pub open spec fn decoded_view(d: Option<DecodedImage>) -> Option<(u32, u32, Option<Seq<u8>>)> {
    match d {
        Some(img) => Some(
            (
                img.width,
                img.height,
                match img.thumbnail_png {
                    Some(t) => Some(t@),
                    None => None,
                },
            ),
        ),
        None => None,
    }
}

/// `image::load_from_memory`, then `GenericImageView::dimensions`,
/// `DynamicImage::thumbnail` and `DynamicImage::write_to` in PNG. The
/// contract names the result (`decoded_image`); it does not state how any
/// format is decoded or encoded.
#[verifier::external_body]
fn decode_image(bytes: &[u8], thumb_max_dim: u32) -> (r: Option<DecodedImage>)
    ensures
        decoded_view(r) == decoded_image(bytes@, thumb_max_dim),
{
    let img = match image::load_from_memory(bytes) {
        Ok(img) => img,
        Err(_) => return None,
    };
    let (width, height) = image::GenericImageView::dimensions(&img);
    let mut png = std::io::Cursor::new(Vec::new());
    let written = img.thumbnail(thumb_max_dim, thumb_max_dim).write_to(&mut png, image::ImageFormat::Png);
    let thumbnail_png = match written {
        Ok(()) => Some(png.into_inner()),
        Err(_) => None,
    };
    Some(DecodedImage { width, height, thumbnail_png })
}

/// `image::guess_format` followed by `ImageFormat::to_mime_type`: the MIME
/// type of the format that the leading bytes announce. The contract names
/// the result (`guessed_mime`); it does not state the table of signatures.
#[verifier::external_body]
fn guess_mime(bytes: &[u8]) -> (r: Option<String>)
    ensures
        opt_view(r) == guessed_mime(bytes@),
{
    match image::guess_format(bytes) {
        Ok(format) => Some(format.to_mime_type().to_string()),
        Err(_) => None,
    }
}

/// The columns of a new image entry.
pub struct ImageCapture {
    pub preview_text: String,
    pub mime_type: String,
    pub mime_types: String,
    pub thumbnail_png: Vec<u8>,
    pub width: i64,
    pub height: i64,
    pub size_bytes: i64,
}

/// Why an image copy could not be stored.
#[derive(Debug, Clone, Copy, PartialEq, Eq)]
pub enum CaptureError {
    /// The bytes are no image that can be decoded.
    UndecodableImage,
    /// The thumbnail could not be encoded.
    ThumbnailEncoding,
}

/// The MIME type recorded for an image: the one given by the source when it
/// is non-empty, else the one recognised from the bytes, else
/// `FALLBACK_IMAGE_MIME`.
pub open spec fn chosen_mime(given: Option<Seq<char>>, guessed: Option<Seq<char>>) -> Seq<char> {
    match given {
        Some(m) if m.len() > 0 => m,
        _ => match guessed {
            Some(g) => g,
            None => FALLBACK_IMAGE_MIME@,
        },
    }
}

/// An empty given MIME type counts as none: the type recorded is then the
/// one recognised from the bytes when there is one, else the fallback; a
/// non-empty given type is recorded as given.
pub proof fn lemma_empty_mime_counts_as_none(guessed: Option<Seq<char>>, given: Seq<char>)
    ensures
        chosen_mime(Some(Seq::empty()), guessed) == chosen_mime(None, guessed),
        chosen_mime(None, guessed) == match guessed {
            Some(g) => g,
            None => FALLBACK_IMAGE_MIME@,
        },
        given.len() > 0 ==> chosen_mime(Some(given), guessed) == given,
{
}

/// The preview of an image entry: `Image · <width>×<height>`.
pub open spec fn image_preview(width: u32, height: u32) -> Seq<char> {
    seq!['I', 'm', 'a', 'g', 'e', ' ', '\u{b7}', ' '] + decimal_digits(width as nat) + seq![
        '\u{d7}',
    ] + decimal_digits(height as nat)
}

/// The MIME type list of an image entry: a JSON array holding its type.
pub open spec fn mime_list(mime: Seq<char>) -> Seq<char> {
    seq!['[', '"'] + mime + seq!['"', ']']
}

/// What a stored image entry holds.
pub open spec fn image_capture_matches(
    c: ImageCapture,
    size: nat,
    width: u32,
    height: u32,
    thumbnail: Seq<u8>,
    mime: Seq<char>,
) -> bool {
    &&& c.preview_text@ == image_preview(width, height)
    &&& c.mime_type@ == mime
    &&& c.mime_types@ == mime_list(mime)
    &&& c.thumbnail_png@ == thumbnail
    &&& c.width == width
    &&& c.height == height
    &&& c.size_bytes == size
}

/// Builds the preview of an image entry.
pub fn image_preview_text(width: u32, height: u32) -> (s: String)
    ensures
        s@ == image_preview(width, height),
{
    let mut s = String::new();
    push_char(&mut s, 'I');
    push_char(&mut s, 'm');
    push_char(&mut s, 'a');
    push_char(&mut s, 'g');
    push_char(&mut s, 'e');
    push_char(&mut s, ' ');
    push_char(&mut s, '\u{b7}');
    push_char(&mut s, ' ');
    push_decimal(&mut s, width as u64);
    push_char(&mut s, '\u{d7}');
    push_decimal(&mut s, height as u64);
    s
}

/// The entry for an image, given what decoding it and recognising its format
/// gave: an error when it did not decode or its thumbnail did not encode.
pub fn image_capture_from(
    size_bytes: usize,
    mime: Option<&str>,
    decoded: Option<DecodedImage>,
    guessed: Option<String>,
) -> (r: Result<ImageCapture, CaptureError>)
    requires
        size_bytes <= MAX_IMAGE_BYTES,
    ensures
        decoded_view(decoded) matches Some((w, h, thumb)) ==> match thumb {
            Some(t) => r matches Ok(c) && image_capture_matches(
                c,
                size_bytes as nat,
                w,
                h,
                t,
                chosen_mime(
                    match mime {
                        Some(m) => Some(m@),
                        None => None,
                    },
                    opt_view(guessed),
                ),
            ),
            None => r == Err::<ImageCapture, CaptureError>(CaptureError::ThumbnailEncoding),
        },
        decoded is None ==> r == Err::<ImageCapture, CaptureError>(CaptureError::UndecodableImage),
{
    let img = match decoded {
        Some(img) => img,
        None => return Err(CaptureError::UndecodableImage),
    };
    let thumbnail_png = match img.thumbnail_png {
        Some(t) => t,
        None => return Err(CaptureError::ThumbnailEncoding),
    };
    let mime_type = match mime {
        Some(m) if !m.is_empty() => m.to_owned(),
        _ => match guessed {
            Some(g) => g,
            None => FALLBACK_IMAGE_MIME.to_owned(),
        },
    };
    let mut mime_types = String::new();
    push_char(&mut mime_types, '[');
    push_char(&mut mime_types, '"');
    let chars = crate::text::chars_of(mime_type.as_str());
    let mut i: usize = 0;
    while i < chars.len()
        invariant
            i <= chars.len(),
            chars@ == mime_type@,
            mime_types@ == seq!['[', '"'] + chars@.take(i as int),
        decreases chars.len() - i,
    {
        push_char(&mut mime_types, chars[i]);
        assert(chars@.take(i + 1) == chars@.take(i as int).push(chars@[i as int]));
        i = i + 1;
    }
    assert(chars@.take(chars@.len() as int) == chars@);
    push_char(&mut mime_types, '"');
    push_char(&mut mime_types, ']');
    let ghost given_view = match mime {
        Some(m) => Some(m@),
        None => None::<Seq<char>>,
    };
    assert(mime_type@ == chosen_mime(given_view, opt_view(guessed)));
    assert(mime_types@ == mime_list(mime_type@));
    Ok(
        ImageCapture {
            preview_text: image_preview_text(img.width, img.height),
            mime_type,
            mime_types,
            thumbnail_png,
            width: img.width as i64,
            height: img.height as i64,
            size_bytes: size_bytes as i64,
        },
    )
}

/// The entry to store for a copied image that is not stored yet: decodes
/// it, makes its thumbnail and records its type (see `image_capture_from`).
pub fn image_capture(bytes: &[u8], mime: Option<&str>) -> (r: Result<ImageCapture, CaptureError>)
    requires
        bytes@.len() <= MAX_IMAGE_BYTES,
    ensures
        decoded_image(bytes@, THUMB_MAX_DIM) matches Some((w, h, thumb)) ==> match thumb {
            Some(t) => r matches Ok(c) && image_capture_matches(
                c,
                bytes@.len(),
                w,
                h,
                t,
                chosen_mime(
                    match mime {
                        Some(m) => Some(m@),
                        None => None,
                    },
                    guessed_mime(bytes@),
                ),
            ),
            None => r == Err::<ImageCapture, CaptureError>(CaptureError::ThumbnailEncoding),
        },
        decoded_image(bytes@, THUMB_MAX_DIM) is None ==> r == Err::<ImageCapture, CaptureError>(
            CaptureError::UndecodableImage,
        ),
{
    let decoded = decode_image(bytes, THUMB_MAX_DIM);
    let given = match mime {
        Some(m) if !m.is_empty() => true,
        _ => false,
    };
    let guessed = if given {
        None
    } else {
        guess_mime(bytes)
    };
    image_capture_from(bytes.len(), mime, decoded, guessed)
}

/// Two copies of the same text get the same de-duplication key, whatever
/// their source and flags, so the second one finds the entry of the first.
pub proof fn lemma_same_text_same_key(
    a: TextCapture,
    b: TextCapture,
    text: Seq<char>,
    source_a: Option<Seq<char>>,
    source_b: Option<Seq<char>>,
    sensitive_a: bool,
    sensitive_b: bool,
)
    requires
        text_capture_matches(a, text, source_a, sensitive_a),
        text_capture_matches(b, text, source_b, sensitive_b),
    ensures
        a.content_hash@ == b.content_hash@,
{
}


/// What is done with a capture, given the entry that already holds the same
/// content, if any.
#[derive(Debug, Clone, Copy, PartialEq, Eq)]
pub enum StoreStep {
    /// Mark the existing entry as just used and answer its id.
    TouchExisting(i64),
    /// Insert a new entry and answer its id.
    InsertNew,
}

/// Content already stored is never stored twice: its entry is touched;
/// only new content is inserted.
pub fn store_step(existing_id: Option<i64>) -> (step: StoreStep)
    ensures
        step == match existing_id {
            Some(id) => StoreStep::TouchExisting(id),
            None => StoreStep::InsertNew,
        },
{
    match existing_id {
        Some(id) => StoreStep::TouchExisting(id),
        None => StoreStep::InsertNew,
    }
}

} // verus!
