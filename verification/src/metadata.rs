//! Image metadata: the PNG text chunks (where ComfyUI, Automatic1111 and
//! InvokeAI embed their workflow and prompt data) and the EXIF fields of a
//! file's contents, the pretty-printing of the JSON among them, raw-file
//! recognition, and the EXIF orientation.
//!
//! Reading the file happens around the library; its bytes are handed here.

use vstd::prelude::*;
use crate::paths::{path_extension, path_extension_of};
use crate::text::{ascii_lower_is, is_ascii_text, lemma_ascii_lower_is_unique, lowercase_of, str_eq, to_lowercase};

verus! {

/// A single key/value metadata entry.
#[derive(Debug, Clone)]
pub struct MetaEntry {
    pub key: String,
    /// Raw value string, potentially very long (ComfyUI JSON can be MBs).
    pub value: String,
}

// ---------------------------------------------------------------------------
// JSON pretty-printing
// ---------------------------------------------------------------------------

/// Whether a character has the Unicode `White_Space` property, which is
/// what `char::is_whitespace` tests: the 25 code points U+0009 to U+000D,
/// U+0020, U+0085, U+00A0, U+1680, U+2000 to U+200A, U+2028, U+2029, U+202F,
/// U+205F and U+3000.
pub open spec fn is_whitespace_char(c: char) -> bool {
    let u = c as u32;
    ||| 0x09 <= u <= 0x0D
    ||| u == 0x20 || u == 0x85 || u == 0xA0 || u == 0x1680
    ||| 0x2000 <= u <= 0x200A
    ||| u == 0x2028 || u == 0x2029 || u == 0x202F || u == 0x205F || u == 0x3000
}

/// Whether `c` is white space, as `char::is_whitespace` says.
fn char_is_whitespace(c: char) -> (r: bool)
    ensures
        r == is_whitespace_char(c),
{
    let u = c as u32;
    (0x09 <= u && u <= 0x0D) || u == 0x20 || u == 0x85 || u == 0xA0 || u == 0x1680
        || (0x2000 <= u && u <= 0x200A)
        || u == 0x2028 || u == 0x2029 || u == 0x202F || u == 0x205F || u == 0x3000
}

/// The JSON text that `serde_json::to_string_pretty` writes for the value
/// that `serde_json::from_str::<serde_json::Value>` reads from `text`, or
/// `None` where `text` is not valid JSON.
pub uninterp spec fn json_pretty_of(text: Seq<char>) -> Option<Seq<char>>;

/// Calls `serde_json::from_str::<serde_json::Value>` on `text` and, if that
/// succeeds, `serde_json::to_string_pretty` on the value. The result is a
/// function of the text alone.
#[verifier::external_body]
fn json_pretty(text: &str) -> (r: Option<String>)
    ensures
        crate::text::opt_view(r) == json_pretty_of(text@),
{
    let v: serde_json::Value = serde_json::from_str(text).ok()?;
    serde_json::to_string_pretty(&v).ok()
}

/// The index of the first character of `s` that is not whitespace.
pub open spec fn first_non_whitespace(s: Seq<char>, i: int) -> bool {
    &&& 0 <= i < s.len()
    &&& !is_whitespace_char(s[i])
    &&& forall|j: int| 0 <= j < i ==> is_whitespace_char(#[trigger] s[j])
}

/// `s`, trimmed of whitespace, starts with `{` or `[`.
pub open spec fn looks_like_json(s: Seq<char>) -> bool {
    exists|i: int| #[trigger] first_non_whitespace(s, i) && (s[i] == '{' || s[i] == '[')
}

/// What becomes of a metadata value: JSON objects and arrays are
/// pretty-printed, anything else stays as it is.
pub open spec fn prettified(s: Seq<char>) -> Seq<char> {
    if looks_like_json(s) && json_pretty_of(s) is Some {
        json_pretty_of(s)->0
    } else {
        s
    }
}

/// Whether `s`, trimmed of whitespace, starts with `{` or `[`.
fn starts_like_json(s: &str) -> (r: bool)
    ensures
        r == looks_like_json(s@),
{
    let n = s.unicode_len();
    let mut i: usize = 0;
    while i < n
        invariant
            n == s@.len(),
            i <= n,
            forall|j: int| 0 <= j < i ==> is_whitespace_char(#[trigger] s@[j]),
        decreases n - i,
    {
        let c = s.get_char(i);
        if !char_is_whitespace(c) {
            assert(first_non_whitespace(s@, i as int));
            proof {
                assert forall|k: int| #[trigger] first_non_whitespace(s@, k) implies k == i by {
                    if k < i {
                        assert(is_whitespace_char(s@[k]));
                    } else if k > i {
                        assert(is_whitespace_char(s@[i as int]));
                    }
                }
            }
            return c == '{' || c == '[';
        }
        i = i + 1;
    }
    false
}

/// Pretty-print every value that is JSON (ComfyUI workflows and prompts,
/// InvokeAI metadata); keys, order and other values stay as they are.
pub fn prettify_metadata(entries: &mut Vec<MetaEntry>)
    ensures
        final(entries)@.len() == old(entries)@.len(),
        forall|i: int| 0 <= i < old(entries)@.len() ==> {
            &&& (#[trigger] final(entries)@[i]).key@ == old(entries)@[i].key@
            &&& final(entries)@[i].value@ == prettified(old(entries)@[i].value@)
        },
{
    let n = entries.len();
    let mut i: usize = 0;
    while i < n
        invariant
            n == entries@.len(),
            n == old(entries)@.len(),
            i <= n,
            forall|k: int| 0 <= k < i ==> {
                &&& (#[trigger] entries@[k]).key@ == old(entries)@[k].key@
                &&& entries@[k].value@ == prettified(old(entries)@[k].value@)
            },
            forall|k: int| i <= k < n ==> (#[trigger] entries@[k]) == old(entries)@[k],
        decreases n - i,
    {
        if starts_like_json(entries[i].value.as_str()) {
            match json_pretty(entries[i].value.as_str()) {
                Some(pretty) => {
                    let key = entries[i].key.clone();
                    entries.set(i, MetaEntry { key, value: pretty });
                },
                None => {},
            }
        }
        i = i + 1;
    }
}

// ---------------------------------------------------------------------------
// Raw files
// ---------------------------------------------------------------------------

/// `ext` is the lowercase extension of a camera raw format.
pub open spec fn is_raw_lowercase_extension(ext: Seq<char>) -> bool {
    ext == "arw"@ || ext == "cr2"@ || ext == "cr3"@ || ext == "nef"@ || ext == "nrw"@
        || ext == "orf"@ || ext == "raf"@ || ext == "rw2"@ || ext == "dng"@
}

/// A path names a camera raw file: its extension, lowercased, is a raw one.
pub open spec fn is_raw_path(path: Seq<char>) -> bool {
    match path_extension_of(path) {
        Some(ext) => is_raw_lowercase_extension(lowercase_of(ext)),
        None => false,
    }
}

/// The camera raw formats are exactly these nine, named by their
/// lowercase extensions: Sony `arw`, Canon `cr2` and `cr3`, Nikon `nef` and
/// `nrw`, Olympus `orf`, Fujifilm `raf`, Panasonic `rw2` and Adobe `dng`. A
/// path names a raw file exactly when its extension, lowercased, is one of
/// them.
pub proof fn lemma_raw_formats_are_these_nine(path: Seq<char>, ext: Seq<char>)
    ensures
        is_raw_lowercase_extension(ext) <==> (ext == "arw"@ || ext == "cr2"@ || ext == "cr3"@
            || ext == "nef"@ || ext == "nrw"@ || ext == "orf"@ || ext == "raf"@ || ext == "rw2"@
            || ext == "dng"@),
        is_raw_path(path) <==> (path_extension_of(path) is Some
            && is_raw_lowercase_extension(lowercase_of(path_extension_of(path)->0))),
{
}

/// `true` if the path's extension (in any case) is a camera raw format.
pub fn is_raw_extension(path: &str) -> (r: bool)
    ensures
        r == is_raw_path(path@),
        (match path_extension_of(path@) {
            Some(e) => is_ascii_text(e) ==> forall|l: Seq<char>| #[trigger] ascii_lower_is(e, l)
                ==> (r <==> is_raw_lowercase_extension(l)),
            None => !r,
        }),
{
    match path_extension(path) {
        Some(ext) => {
            let lower = to_lowercase(ext.as_str());
            proof {
                if is_ascii_text(ext@) {
                    assert forall|l: Seq<char>| #[trigger] ascii_lower_is(ext@, l) implies l == lower@ by {
                        lemma_ascii_lower_is_unique(ext@, l, lower@);
                    }
                }
            }
            let e = lower.as_str();
            str_eq(e, "arw") || str_eq(e, "cr2") || str_eq(e, "cr3") || str_eq(e, "nef")
                || str_eq(e, "nrw") || str_eq(e, "orf") || str_eq(e, "raf") || str_eq(e, "rw2")
                || str_eq(e, "dng")
        },
        None => false,
    }
}

// ---------------------------------------------------------------------------
// Which reader a file gets
// ---------------------------------------------------------------------------

/// The formats the image decoder can recognise from a file's leading bytes
/// that matter for metadata; every other recognised format is `Other`.
#[derive(Debug, Clone, Copy, PartialEq, Eq, Structural)]
pub enum ImageKind {
    Png,
    Jpeg,
    Tiff,
    WebP,
    Other,
}

/// Where a file's metadata entries come from.
#[derive(Debug, Clone, Copy, PartialEq, Eq, Structural)]
pub enum MetadataSource {
    /// The PNG text chunks.
    PngText,
    /// The EXIF fields of the container.
    Exif,
    /// Nowhere: the file gets no entries.
    Nothing,
}

/// Where a file's EXIF orientation comes from.
#[derive(Debug, Clone, Copy, PartialEq, Eq, Structural)]
pub enum OrientationSource {
    /// The EXIF of the container, read the standard way.
    Container,
    /// A search for TIFF headers in the file's leading bytes.
    DeepScan,
    /// Nowhere: the file has no orientation.
    Nothing,
}

/// The metadata source for a file, given the decoder's guess at its format
/// (`None` when guessing failed to read the file, `Some(None)` when no
/// format was recognised) and whether its name is a raw one. PNG files give
/// their text chunks; JPEG, TIFF and WebP their EXIF; a file that could not
/// be guessed gives EXIF if it is a raw file.
pub open spec fn metadata_source_of(guess: Option<Option<ImageKind>>, is_raw: bool) -> MetadataSource {
    match guess {
        Some(Some(ImageKind::Png)) => MetadataSource::PngText,
        Some(Some(ImageKind::Jpeg)) | Some(Some(ImageKind::Tiff)) | Some(Some(ImageKind::WebP)) => MetadataSource::Exif,
        Some(_) => MetadataSource::Nothing,
        None => if is_raw { MetadataSource::Exif } else { MetadataSource::Nothing },
    }
}

/// Where to read a file's metadata from.
pub fn metadata_source(guess: Option<Option<ImageKind>>, is_raw: bool) -> (r: MetadataSource)
    ensures
        r == metadata_source_of(guess, is_raw),
{
    match guess {
        Some(Some(ImageKind::Png)) => MetadataSource::PngText,
        Some(Some(ImageKind::Jpeg)) | Some(Some(ImageKind::Tiff)) | Some(Some(ImageKind::WebP)) => MetadataSource::Exif,
        Some(_) => MetadataSource::Nothing,
        None => if is_raw { MetadataSource::Exif } else { MetadataSource::Nothing },
    }
}

/// The orientation source for a file: the container's EXIF for JPEG, TIFF
/// and WebP (with no second try), else the deep scan for a raw file.
pub open spec fn orientation_source_of(guess: Option<Option<ImageKind>>, is_raw: bool) -> OrientationSource {
    match guess {
        Some(Some(ImageKind::Jpeg)) | Some(Some(ImageKind::Tiff)) | Some(Some(ImageKind::WebP)) => OrientationSource::Container,
        _ => if is_raw { OrientationSource::DeepScan } else { OrientationSource::Nothing },
    }
}

/// Where to read a file's orientation from.
pub fn orientation_source(guess: Option<Option<ImageKind>>, is_raw: bool) -> (r: OrientationSource)
    ensures
        r == orientation_source_of(guess, is_raw),
{
    match guess {
        Some(Some(ImageKind::Jpeg)) | Some(Some(ImageKind::Tiff)) | Some(Some(ImageKind::WebP)) => OrientationSource::Container,
        _ => if is_raw { OrientationSource::DeepScan } else { OrientationSource::Nothing },
    }
}

/// The format that `image::guess_format` recognises from a file's leading
/// bytes, as far as it matters here; `None` where it recognises none.
pub uninterp spec fn guessed_kind_of(bytes: Seq<u8>) -> Option<ImageKind>;

/// Calls `image::guess_format`, which compares the leading bytes with the
/// formats' signatures; a function of the bytes alone.
#[verifier::external_body]
pub(crate) fn guess_kind(bytes: &[u8]) -> (r: Option<ImageKind>)
    ensures
        r == guessed_kind_of(bytes@),
{
    match image::guess_format(bytes) {
        Ok(image::ImageFormat::Png) => Some(ImageKind::Png),
        Ok(image::ImageFormat::Jpeg) => Some(ImageKind::Jpeg),
        Ok(image::ImageFormat::Tiff) => Some(ImageKind::Tiff),
        Ok(image::ImageFormat::WebP) => Some(ImageKind::WebP),
        Ok(_) => Some(ImageKind::Other),
        Err(_) => None,
    }
}

// ---------------------------------------------------------------------------
// EXIF orientation
// ---------------------------------------------------------------------------

/// The value of the EXIF `Orientation` tag of the primary image that
/// `exif::Reader::read_from_container` finds in `data`, read as an unsigned
/// integer; `None` where the data holds no readable EXIF or no such tag.
pub uninterp spec fn exif_orientation_of(data: Seq<u8>) -> Option<u32>;

/// Calls `exif::Reader::read_from_container` on the bytes, then
/// `Exif::get_field(Tag::Orientation, In::PRIMARY)` and `Value::get_uint(0)`.
/// The result is a function of the bytes alone.
#[verifier::external_body]
fn exif_orientation(data: &[u8]) -> (r: Option<u32>)
    ensures
        r == exif_orientation_of(data@),
{
    let mut reader = std::io::Cursor::new(data);
    let exif = exif::Reader::new().read_from_container(&mut reader).ok()?;
    exif.get_field(exif::Tag::Orientation, exif::In::PRIMARY)?.value.get_uint(0)
}

/// An orientation tag as the viewer takes it: EXIF defines the values 1 to
/// 8; any other value counts as no orientation.
pub open spec fn orientation_in_range(o: Option<u32>) -> Option<u32> {
    match o {
        Some(v) => if 1 <= v <= 8 { Some(v) } else { None },
        None => None,
    }
}

/// Keep an orientation tag only if it is one of EXIF's values 1 to 8.
fn in_range(o: Option<u32>) -> (r: Option<u32>)
    ensures
        r == orientation_in_range(o),
{
    match o {
        Some(v) => if 1 <= v && v <= 8 { Some(v) } else { None },
        None => None,
    }
}

/// Returns the EXIF orientation tag (1-8) from a byte buffer.
pub fn get_orientation_from_bytes(data: &[u8]) -> (r: Option<u32>)
    ensures
        r == orientation_in_range(exif_orientation_of(data@)),
{
    in_range(exif_orientation(data))
}

/// The TIFF header that starts EXIF data: `II*\0` (little-endian) or
/// `MM\0*` (big-endian).
pub open spec fn tiff_header(little_endian: bool) -> Seq<u8> {
    if little_endian {
        seq![0x49u8, 0x49u8, 0x2Au8, 0x00u8]
    } else {
        seq![0x4Du8, 0x4Du8, 0x00u8, 0x2Au8]
    }
}

/// `data` holds the header `h` at position `p`.
pub open spec fn header_at(data: Seq<u8>, p: int, h: Seq<u8>) -> bool {
    0 <= p && p + 4 <= data.len() && data.subrange(p, p + 4) == h
}

/// At `p` starts a header `h` from which an orientation can be read.
pub open spec fn orientation_at(data: Seq<u8>, p: int, h: Seq<u8>) -> bool {
    header_at(data, p, h) && exif_orientation_of(data.subrange(p, data.len() as int)) is Some
}

/// `p` is the first position where header `h` yields an orientation.
pub open spec fn first_orientation_at(data: Seq<u8>, p: int, h: Seq<u8>) -> bool {
    &&& orientation_at(data, p, h)
    &&& forall|q: int| 0 <= q < p ==> !#[trigger] orientation_at(data, q, h)
}

/// What the deep scan finds: the orientation read at the first little-endian
/// header that yields one, else at the first big-endian header that does.
pub open spec fn scanned_orientation(data: Seq<u8>, r: Option<u32>) -> bool {
    match r {
        Some(o) => {
            ||| exists|p: int| #[trigger] first_orientation_at(data, p, tiff_header(true))
                && o == exif_orientation_of(data.subrange(p, data.len() as int))->0
            ||| (forall|q: int| !#[trigger] orientation_at(data, q, tiff_header(true)))
                && exists|p: int| #[trigger] first_orientation_at(data, p, tiff_header(false))
                && o == exif_orientation_of(data.subrange(p, data.len() as int))->0
        },
        None => forall|q: int| !#[trigger] orientation_at(data, q, tiff_header(true))
            && !orientation_at(data, q, tiff_header(false)),
    }
}

/// A header cannot start within the three bytes after another one.
proof fn lemma_headers_do_not_overlap(data: Seq<u8>, p: int, q: int, little_endian: bool)
    requires
        header_at(data, p, tiff_header(little_endian)),
        p < q < p + 4,
    ensures
        !header_at(data, q, tiff_header(little_endian)),
{
    let h = tiff_header(little_endian);
    if header_at(data, q, h) {
        assert(data[p] == h[0] && data[p + 1] == h[1] && data[p + 2] == h[2] && data[p + 3] == h[3]) by {
            assert(data.subrange(p, p + 4)[0] == data[p]);
            assert(data.subrange(p, p + 4)[1] == data[p + 1]);
            assert(data.subrange(p, p + 4)[2] == data[p + 2]);
            assert(data.subrange(p, p + 4)[3] == data[p + 3]);
        }
        assert(data[q] == h[0] && data[q + 1] == h[1]) by {
            assert(data.subrange(q, q + 4)[0] == data[q]);
            assert(data.subrange(q, q + 4)[1] == data[q + 1]);
        }
    }
}

/// Whether `data` holds the header at position `p`.
fn has_header_at(data: &[u8], p: usize, little_endian: bool) -> (r: bool)
    requires
        p + 4 <= data@.len(),
    ensures
        r == header_at(data@, p as int, tiff_header(little_endian)),
{
    let (b0, b1, b2, b3): (u8, u8, u8, u8) = if little_endian {
        (0x49, 0x49, 0x2A, 0x00)
    } else {
        (0x4D, 0x4D, 0x00, 0x2A)
    };
    let r = data[p] == b0 && data[p + 1] == b1 && data[p + 2] == b2 && data[p + 3] == b3;
    proof {
        let w = data@.subrange(p as int, p + 4);
        let h = tiff_header(little_endian);
        assert(w[0] == data@[p as int] && w[1] == data@[p + 1] && w[2] == data@[p + 2] && w[3] == data@[p + 3]);
        if r {
            assert(w =~= h);
        }
    }
    r
}

/// Search `data` for header `h`, trying to read an orientation at each
/// place it occurs, in order.
fn scan_for_header(data: &[u8], little_endian: bool) -> (r: Option<u32>)
    ensures
        match r {
            Some(o) => exists|p: int| #[trigger] first_orientation_at(data@, p, tiff_header(little_endian))
                && o == exif_orientation_of(data@.subrange(p, data@.len() as int))->0,
            None => forall|q: int| !#[trigger] orientation_at(data@, q, tiff_header(little_endian)),
        },
{
    let ghost h = tiff_header(little_endian);
    let n = data.len();
    let mut search_pos: usize = 0;
    while n >= 4 && search_pos <= n - 4
        invariant
            n == data@.len(),
            h == tiff_header(little_endian),
            search_pos <= n,
            forall|q: int| 0 <= q < search_pos ==> !#[trigger] orientation_at(data@, q, h),
        decreases n - search_pos,
    {
        if has_header_at(data, search_pos, little_endian) {
            let rest = vstd::slice::slice_subrange(data, search_pos, n);
            match exif_orientation(rest) {
                Some(o) => {
                    assert(first_orientation_at(data@, search_pos as int, h));
                    return Some(o);
                },
                None => {},
            }
            proof {
                assert forall|q: int| 0 <= q < search_pos + 4 implies !#[trigger] orientation_at(data@, q, h) by {
                    if search_pos < q {
                        lemma_headers_do_not_overlap(data@, search_pos as int, q, little_endian);
                    }
                }
            }
            if search_pos + 4 > n - 4 {
                proof {
                    assert forall|q: int| 0 <= q implies !#[trigger] orientation_at(data@, q, h) by {}
                }
                return None;
            }
            search_pos = search_pos + 4;
        } else {
            search_pos = search_pos + 1;
        }
    }
    None
}

/// Find an EXIF orientation in a file's leading bytes by looking for TIFF
/// headers, little-endian ones first, and reading EXIF from each place one
/// occurs. Used for raw formats whose EXIF sits in sub-containers.
pub fn scan_orientation(data: &[u8]) -> (r: Option<u32>)
    ensures
        scanned_orientation(data@, r),
{
    match scan_for_header(data, true) {
        Some(o) => Some(o),
        None => scan_for_header(data, false),
    }
}

/// The leading bytes of a file that the deep scan searches.
pub open spec fn scan_window(bytes: Seq<u8>) -> Seq<u8> {
    if bytes.len() <= 131072 {
        bytes
    } else {
        bytes.subrange(0, 131072)
    }
}

/// What the orientation of a file with contents `bytes` is, given whether
/// its name is a raw one: read from the EXIF of a JPEG, TIFF or WebP file;
/// found by the deep scan of the first 128 KiB of a raw file otherwise.
/// Only values 1 to 8 count; any other tag value gives `None`.
pub open spec fn orientation_found(bytes: Seq<u8>, is_raw: bool, r: Option<u32>) -> bool {
    match orientation_source_of(Some(guessed_kind_of(bytes)), is_raw) {
        OrientationSource::Container => r == orientation_in_range(exif_orientation_of(bytes)),
        OrientationSource::DeepScan => exists|s: Option<u32>| #[trigger] scanned_orientation(scan_window(bytes), s)
            && r == orientation_in_range(s),
        OrientationSource::Nothing => r is None,
    }
}

/// The EXIF orientation tag (1-8) of a file with contents `bytes`, if it has
/// one; `is_raw` says whether the file's name is that of a raw format.
pub fn orientation_of_bytes(bytes: &[u8], is_raw: bool) -> (r: Option<u32>)
    ensures
        orientation_found(bytes@, is_raw, r),
{
    match orientation_source(Some(guess_kind(bytes)), is_raw) {
        OrientationSource::Container => in_range(exif_orientation(bytes)),
        OrientationSource::DeepScan => {
            let n = if bytes.len() <= 131072 { bytes.len() } else { 131072 };
            let window = vstd::slice::slice_subrange(bytes, 0, n);
            proof {
                assert(window@ =~= scan_window(bytes@));
            }
            let s = scan_orientation(window);
            assert(scanned_orientation(scan_window(bytes@), s));
            in_range(s)
        },
        OrientationSource::Nothing => None,
    }
}

// ---------------------------------------------------------------------------
// Reading the entries
// ---------------------------------------------------------------------------

/// The views of key/value pairs.
pub open spec fn pairs_view(v: Seq<(String, String)>) -> Seq<(Seq<char>, Seq<char>)> {
    v.map_values(|p: (String, String)| (p.0@, p.1@))
}

/// The views of keys with optional texts.
pub open spec fn opt_pairs_view(v: Seq<(String, Option<String>)>) -> Seq<(Seq<char>, Option<Seq<char>>)> {
    v.map_values(|p: (String, Option<String>)| (p.0@, crate::text::opt_view(p.1)))
}

/// The text chunks that `png::Decoder::read_info` finds ahead of the image
/// data: the `tEXt` chunks as keyword and text, and the `iTXt` chunks as
/// keyword and text, the text `None` where it cannot be decoded; `None`
/// where the PNG header cannot be read.
pub uninterp spec fn png_text_of(bytes: Seq<u8>) -> Option<(Seq<(Seq<char>, Seq<char>)>, Seq<(Seq<char>, Option<Seq<char>>)>)>;

/// Calls `png::Decoder::new` on the bytes and `Decoder::read_info`, and
/// copies the keyword and text of each chunk of `Info::uncompressed_latin1_text`,
/// and the keyword and `ITXtChunk::get_text` of each of `Info::utf8_text`.
/// A function of the bytes alone.
#[verifier::external_body]
fn png_text_chunks(bytes: &[u8]) -> (r: Option<(Vec<(String, String)>, Vec<(String, Option<String>)>)>)
    ensures
        match r {
            Some((latin1, utf8)) => png_text_of(bytes@) == Some((pairs_view(latin1@), opt_pairs_view(utf8@))),
            None => png_text_of(bytes@) is None,
        },
{
    let reader = png::Decoder::new(std::io::Cursor::new(bytes)).read_info().ok()?;
    let info = reader.info();
    let latin1 = info.uncompressed_latin1_text.iter().map(|c| (c.keyword.clone(), c.text.clone())).collect();
    let utf8 = info.utf8_text.iter().map(|c| (c.keyword.clone(), c.get_text().ok())).collect();
    Some((latin1, utf8))
}

/// The EXIF fields that `exif::Reader::read_from_container` finds in the
/// bytes, each as its tag's name and its value displayed with its unit;
/// `None` where no EXIF can be read.
pub uninterp spec fn exif_fields_of(bytes: Seq<u8>) -> Option<Seq<(Seq<char>, Seq<char>)>>;

/// Calls `exif::Reader::read_from_container` on the bytes and, for each of
/// `Exif::fields`, formats the tag and `Field::display_value().with_unit`.
/// A function of the bytes alone.
#[verifier::external_body]
fn exif_fields(bytes: &[u8]) -> (r: Option<Vec<(String, String)>>)
    ensures
        match r {
            Some(fields) => exif_fields_of(bytes@) == Some(pairs_view(fields@)),
            None => exif_fields_of(bytes@) is None,
        },
{
    let exif = exif::Reader::new().read_from_container(&mut std::io::Cursor::new(bytes)).ok()?;
    Some(exif.fields().map(|f| (f.tag.to_string(), f.display_value().with_unit(&exif).to_string())).collect())
}

/// The views of metadata entries, as key and value.
pub open spec fn entries_view(v: Seq<MetaEntry>) -> Seq<(Seq<char>, Seq<char>)> {
    v.map_values(|e: MetaEntry| (e.key@, e.value@))
}

/// The iTXt chunks whose text decoded and is not empty, as key and text.
pub open spec fn kept_utf8(chunks: Seq<(Seq<char>, Option<Seq<char>>)>) -> Seq<(Seq<char>, Seq<char>)>
    decreases chunks.len(),
{
    if chunks.len() == 0 {
        Seq::empty()
    } else {
        let before = kept_utf8(chunks.drop_last());
        match chunks.last().1 {
            Some(t) => if t.len() > 0 { before.push((chunks.last().0, t)) } else { before },
            None => before,
        }
    }
}

/// Appending the entry for pair `i` extends the views of the first `i` pairs.
proof fn lemma_push_entry(before: Seq<MetaEntry>, e: MetaEntry, pairs: Seq<(String, String)>, i: int)
    requires
        0 <= i < pairs.len(),
        entries_view(before) == pairs_view(pairs.subrange(0, i)),
        e.key@ == pairs[i].0@,
        e.value@ == pairs[i].1@,
    ensures
        entries_view(before.push(e)) == pairs_view(pairs.subrange(0, i + 1)),
{
    let a = entries_view(before.push(e));
    let b = pairs_view(pairs.subrange(0, i + 1));
    assert(entries_view(before).len() == before.len());
    assert(pairs_view(pairs.subrange(0, i)).len() == i);
    assert(before.len() == i);
    assert forall|k: int| 0 <= k < a.len() implies a[k] == b[k] by {
        if k < i {
            assert(entries_view(before)[k] == pairs_view(pairs.subrange(0, i))[k]);
        }
    }
    assert(a =~= b);
}

/// The PNG entries: every tEXt chunk, then the iTXt chunks with text.
pub fn png_entries(latin1: &Vec<(String, String)>, utf8: &Vec<(String, Option<String>)>) -> (r: Vec<MetaEntry>)
    ensures
        entries_view(r@) == pairs_view(latin1@) + kept_utf8(opt_pairs_view(utf8@)),
{
    let mut out: Vec<MetaEntry> = Vec::new();
    let n = latin1.len();
    let mut i: usize = 0;
    while i < n
        invariant
            n == latin1@.len(),
            i <= n,
            entries_view(out@) == pairs_view(latin1@.subrange(0, i as int)),
        decreases n - i,
    {
        let ghost before = out@;
        let e = MetaEntry { key: latin1[i].0.clone(), value: latin1[i].1.clone() };
        out.push(e);
        proof {
            lemma_push_entry(before, e, latin1@, i as int);
        }
        i = i + 1;
    }
    assert(latin1@.subrange(0, n as int) =~= latin1@);
    let ghost head = pairs_view(latin1@);
    let m = utf8.len();
    let mut j: usize = 0;
    while j < m
        invariant
            m == utf8@.len(),
            j <= m,
            entries_view(out@) == head + kept_utf8(opt_pairs_view(utf8@.subrange(0, j as int))),
        decreases m - j,
    {
        let ghost before = out@;
        let ghost prefix = opt_pairs_view(utf8@.subrange(0, j + 1));
        assert(prefix.drop_last() =~= opt_pairs_view(utf8@.subrange(0, j as int)));
        match &utf8[j].1 {
            Some(t) => {
                if t.unicode_len() > 0 {
                    out.push(MetaEntry { key: utf8[j].0.clone(), value: t.clone() });
                    assert(entries_view(out@) =~= entries_view(before).push((utf8@[j as int].0@, t@)));
                }
            },
            None => {},
        }
        j = j + 1;
    }
    assert(utf8@.subrange(0, m as int) =~= utf8@);
    out
}

/// The entries for EXIF fields, in order.
pub fn exif_entries(fields: &Vec<(String, String)>) -> (r: Vec<MetaEntry>)
    ensures
        entries_view(r@) == pairs_view(fields@),
{
    let mut out: Vec<MetaEntry> = Vec::new();
    let n = fields.len();
    let mut i: usize = 0;
    while i < n
        invariant
            n == fields@.len(),
            i <= n,
            entries_view(out@) == pairs_view(fields@.subrange(0, i as int)),
        decreases n - i,
    {
        let ghost before = out@;
        let e = MetaEntry { key: fields[i].0.clone(), value: fields[i].1.clone() };
        out.push(e);
        proof {
            lemma_push_entry(before, e, fields@, i as int);
        }
        i = i + 1;
    }
    assert(fields@.subrange(0, n as int) =~= fields@);
    out
}

/// The entries a file with contents `bytes` holds, before pretty-printing:
/// the text chunks of a PNG file, the EXIF fields of a JPEG, TIFF or WebP
/// file, none for other files.
pub open spec fn raw_entries_of(bytes: Seq<u8>, is_raw: bool) -> Seq<(Seq<char>, Seq<char>)> {
    match metadata_source_of(Some(guessed_kind_of(bytes)), is_raw) {
        MetadataSource::PngText => match png_text_of(bytes) {
            Some((latin1, utf8)) => latin1 + kept_utf8(utf8),
            None => Seq::empty(),
        },
        MetadataSource::Exif => match exif_fields_of(bytes) {
            Some(fields) => fields,
            None => Seq::empty(),
        },
        MetadataSource::Nothing => Seq::empty(),
    }
}

/// Extract the metadata of a file with contents `bytes` (`is_raw`: its name
/// is that of a raw format), pretty-printing the values that are JSON.
pub fn metadata_entries(bytes: &[u8], is_raw: bool) -> (r: Vec<MetaEntry>)
    ensures
        r@.len() == raw_entries_of(bytes@, is_raw).len(),
        forall|i: int| 0 <= i < r@.len() ==> {
            &&& (#[trigger] r@[i]).key@ == raw_entries_of(bytes@, is_raw)[i].0
            &&& r@[i].value@ == prettified(raw_entries_of(bytes@, is_raw)[i].1)
        },
{
    let mut entries = match metadata_source(Some(guess_kind(bytes)), is_raw) {
        MetadataSource::PngText => match png_text_chunks(bytes) {
            Some((latin1, utf8)) => png_entries(&latin1, &utf8),
            None => Vec::new(),
        },
        MetadataSource::Exif => match exif_fields(bytes) {
            Some(fields) => exif_entries(&fields),
            None => Vec::new(),
        },
        MetadataSource::Nothing => Vec::new(),
    };
    let ghost found = entries@;
    proof {
        assert(entries_view(found) =~= raw_entries_of(bytes@, is_raw));
        assert forall|i: int| 0 <= i < found.len() implies
            (#[trigger] found[i]).key@ == raw_entries_of(bytes@, is_raw)[i].0
            && found[i].value@ == raw_entries_of(bytes@, is_raw)[i].1 by {
            assert(entries_view(found)[i] == (found[i].key@, found[i].value@));
        }
    }
    prettify_metadata(&mut entries);
    entries
}

} // verus!
