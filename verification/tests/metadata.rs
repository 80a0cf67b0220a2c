use rivett::metadata::{
    exif_entries, get_orientation_from_bytes, is_raw_extension, metadata_entries, metadata_source, orientation_of_bytes,
    orientation_source, png_entries, prettify_metadata, scan_orientation, ImageKind, MetaEntry, MetadataSource,
    OrientationSource,
};

// A minimal little-endian TIFF holding one IFD entry: Orientation = `o`.
fn tiff_with_orientation(o: u16) -> Vec<u8> {
    let mut t = vec![0x49, 0x49, 0x2A, 0x00, 8, 0, 0, 0];
    t.extend_from_slice(&[1, 0]);
    t.extend_from_slice(&[0x12, 0x01, 3, 0, 1, 0, 0, 0]);
    t.extend_from_slice(&o.to_le_bytes());
    t.extend_from_slice(&[0, 0]);
    t.extend_from_slice(&[0, 0, 0, 0]);
    t
}

#[test]
fn orientation_is_read_from_tiff_bytes() {
    assert_eq!(get_orientation_from_bytes(&tiff_with_orientation(6)), Some(6));
    assert_eq!(get_orientation_from_bytes(b"not an image"), None);
}

#[test]
fn deep_scan_finds_an_embedded_tiff() {
    let mut data = b"ftypcr3 some container bytes II".to_vec();
    data.extend(tiff_with_orientation(8));
    data.extend_from_slice(b"trailing");
    assert_eq!(scan_orientation(&data), Some(8));
    assert_eq!(scan_orientation(b"II*"), None);
    assert_eq!(scan_orientation(b"nothing here at all"), None);
}

#[test]
fn raw_extensions_are_recognised_in_any_case() {
    assert!(is_raw_extension("/a/b/IMG_0001.CR3"));
    assert!(is_raw_extension("x.nef"));
    assert!(is_raw_extension("x.Dng"));
    assert!(!is_raw_extension("x.jpg"));
    assert!(!is_raw_extension("raw"));
}

#[test]
fn json_values_are_pretty_printed() {
    let mut entries = vec![
        MetaEntry { key: "prompt".to_string(), value: "  {\"a\":1}".to_string() },
        MetaEntry { key: "parameters".to_string(), value: "a cat, 4k".to_string() },
        MetaEntry { key: "broken".to_string(), value: "{not json".to_string() },
        MetaEntry { key: "list".to_string(), value: "[1,2]".to_string() },
    ];
    prettify_metadata(&mut entries);
    assert_eq!(entries[0].key, "prompt");
    assert_eq!(entries[0].value, "{\n  \"a\": 1\n}");
    assert_eq!(entries[1].value, "a cat, 4k");
    assert_eq!(entries[2].value, "{not json");
    assert_eq!(entries[3].value, "[\n  1,\n  2\n]");
}

#[test]
fn metadata_source_follows_the_guessed_format() {
    assert_eq!(metadata_source(Some(Some(ImageKind::Png)), false), MetadataSource::PngText);
    assert_eq!(metadata_source(Some(Some(ImageKind::Jpeg)), false), MetadataSource::Exif);
    assert_eq!(metadata_source(Some(Some(ImageKind::Tiff)), true), MetadataSource::Exif);
    assert_eq!(metadata_source(Some(Some(ImageKind::WebP)), false), MetadataSource::Exif);
    assert_eq!(metadata_source(Some(Some(ImageKind::Other)), true), MetadataSource::Nothing);
    // A recognised-nothing raw file gets no entries; an unguessable one gets EXIF.
    assert_eq!(metadata_source(Some(None), true), MetadataSource::Nothing);
    assert_eq!(metadata_source(None, true), MetadataSource::Exif);
    assert_eq!(metadata_source(None, false), MetadataSource::Nothing);
}

#[test]
fn orientation_source_falls_back_to_deep_scan_for_raw() {
    assert_eq!(orientation_source(Some(Some(ImageKind::Jpeg)), false), OrientationSource::Container);
    assert_eq!(orientation_source(Some(Some(ImageKind::Tiff)), true), OrientationSource::Container);
    assert_eq!(orientation_source(Some(Some(ImageKind::Png)), false), OrientationSource::Nothing);
    assert_eq!(orientation_source(Some(None), true), OrientationSource::DeepScan);
    assert_eq!(orientation_source(None, true), OrientationSource::DeepScan);
    assert_eq!(orientation_source(Some(Some(ImageKind::Png)), true), OrientationSource::DeepScan);
}

// A 1x1 RGBA PNG with the given tEXt and iTXt chunks.
fn png_with_text(text: &[(&str, &str)], itxt: &[(&str, &str)]) -> Vec<u8> {
    let mut out = Vec::new();
    {
        let mut enc = png::Encoder::new(&mut out, 1, 1);
        enc.set_color(png::ColorType::Rgba);
        enc.set_depth(png::BitDepth::Eight);
        for (k, v) in text {
            enc.add_text_chunk(k.to_string(), v.to_string()).unwrap();
        }
        for (k, v) in itxt {
            enc.add_itxt_chunk(k.to_string(), v.to_string()).unwrap();
        }
        let mut w = enc.write_header().unwrap();
        w.write_image_data(&[1, 2, 3, 255]).unwrap();
    }
    out
}

#[test]
fn png_text_chunks_become_entries() {
    let bytes = png_with_text(&[("parameters", "a cat, 4k"), ("prompt", "{\"a\":1}")], &[("Comment", "hi"), ("Empty", "")]);
    let entries = metadata_entries(&bytes, false);
    let pairs: Vec<(&str, &str)> = entries.iter().map(|e| (e.key.as_str(), e.value.as_str())).collect();
    assert_eq!(pairs, vec![("parameters", "a cat, 4k"), ("prompt", "{\n  \"a\": 1\n}"), ("Comment", "hi")]);
}

#[test]
fn png_entries_skip_empty_and_undecodable_itxt() {
    let latin1 = vec![("k".to_string(), "v".to_string())];
    let utf8 = vec![
        ("a".to_string(), Some("x".to_string())),
        ("b".to_string(), Some(String::new())),
        ("c".to_string(), None),
        ("d".to_string(), Some("y".to_string())),
    ];
    let entries = png_entries(&latin1, &utf8);
    let pairs: Vec<(&str, &str)> = entries.iter().map(|e| (e.key.as_str(), e.value.as_str())).collect();
    assert_eq!(pairs, vec![("k", "v"), ("a", "x"), ("d", "y")]);
}

#[test]
fn exif_entries_keep_every_field() {
    let fields = vec![("Make".to_string(), "\"Canon\"".to_string()), ("Orientation".to_string(), "row 0 at top".to_string())];
    let entries = exif_entries(&fields);
    assert_eq!(entries.len(), 2);
    assert_eq!(entries[1].key, "Orientation");
    assert_eq!(entries[1].value, "row 0 at top");
}

#[test]
fn tiff_metadata_is_its_exif() {
    let entries = metadata_entries(&tiff_with_orientation(6), false);
    assert_eq!(entries.len(), 1);
    assert_eq!(entries[0].key, "Orientation");
    assert!(metadata_entries(b"plain text", false).is_empty());
}

#[test]
fn orientation_of_bytes_by_format() {
    assert_eq!(orientation_of_bytes(&tiff_with_orientation(6), false), Some(6));
    // A PNG has no orientation; a raw file name makes the deep scan run.
    let png = png_with_text(&[], &[]);
    assert_eq!(orientation_of_bytes(&png, false), None);
    let mut raw = b"container header bytes ".to_vec();
    raw.extend(tiff_with_orientation(3));
    assert_eq!(orientation_of_bytes(&raw, true), Some(3));
    assert_eq!(orientation_of_bytes(&raw, false), None);
}

#[test]
fn orientation_outside_one_to_eight_is_none() {
    assert_eq!(get_orientation_from_bytes(&tiff_with_orientation(9)), None);
    assert_eq!(get_orientation_from_bytes(&tiff_with_orientation(0)), None);
    assert_eq!(get_orientation_from_bytes(&tiff_with_orientation(8)), Some(8));
    assert_eq!(orientation_of_bytes(&tiff_with_orientation(9), false), None);
    let mut raw = b"container ".to_vec();
    raw.extend(tiff_with_orientation(12));
    assert_eq!(orientation_of_bytes(&raw, true), None);
}

#[test]
fn white_space_before_json() {
    let mut entries = vec![
        MetaEntry { key: "a".to_string(), value: "\t\r\n [1]".to_string() },
        MetaEntry { key: "b".to_string(), value: "\u{3000}[1]".to_string() },
        MetaEntry { key: "c".to_string(), value: "\u{200B}[1]".to_string() },
    ];
    prettify_metadata(&mut entries);
    assert_eq!(entries[0].value, "[\n  1\n]");
    // U+3000 is white space but not JSON's, so parsing fails and the value stays.
    assert_eq!(entries[1].value, "\u{3000}[1]");
    assert_eq!(entries[2].value, "\u{200B}[1]");
}
