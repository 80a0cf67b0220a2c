use rivett::formats::SupportedFormat;

#[test]
fn every_listed_extension_is_recognised() {
    for ext in SupportedFormat::all_extensions() {
        assert!(
            SupportedFormat::from_extension(ext).is_some(),
            "extension '{ext}' should be recognised",
        );
    }
}

#[test]
fn unknown_extensions_return_none() {
    for ext in ["exe", "txt", "mp4", "docx", ""] {
        assert_eq!(SupportedFormat::from_extension(ext), None, "extension '{ext}'");
    }
}

#[test]
fn path_detection_is_case_insensitive() {
    assert_eq!(SupportedFormat::from_path("photo.PNG"), Some(SupportedFormat::Png));
    assert_eq!(SupportedFormat::from_path("photo.JPEG"), Some(SupportedFormat::Jpeg));
    assert_eq!(SupportedFormat::from_path("photo.Gif"), Some(SupportedFormat::Gif));
    assert_eq!(SupportedFormat::from_path("drawing.SVG"), Some(SupportedFormat::Svg));
}

#[test]
fn path_without_extension_returns_none() {
    assert_eq!(SupportedFormat::from_path("Makefile"), None);
}

#[test]
fn jpeg_supports_lossless_rotation() {
    assert!(SupportedFormat::Jpeg.supports_lossless_rotation_metadata());
    assert!(SupportedFormat::Tiff.supports_lossless_rotation_metadata());
}

#[test]
fn other_formats_do_not_support_lossless_rotation() {
    for fmt in [SupportedFormat::Png, SupportedFormat::WebP, SupportedFormat::Bmp, SupportedFormat::Gif] {
        assert!(
            !fmt.supports_lossless_rotation_metadata(),
            "{:?} should not claim lossless rotation support",
            fmt,
        );
    }
}

#[test]
fn aliases_map_to_the_same_format() {
    assert_eq!(SupportedFormat::from_extension("jpg"), Some(SupportedFormat::Jpeg));
    assert_eq!(SupportedFormat::from_extension("tif"), Some(SupportedFormat::Tiff));
    assert_eq!(SupportedFormat::from_extension("tiff"), Some(SupportedFormat::Tiff));
    assert_eq!(SupportedFormat::from_extension("exr"), Some(SupportedFormat::Exr));
    assert_eq!(SupportedFormat::from_extension("webp"), Some(SupportedFormat::WebP));
    assert_eq!(SupportedFormat::from_extension("bmp"), Some(SupportedFormat::Bmp));
}

#[test]
fn from_extension_expects_lowercase() {
    assert_eq!(SupportedFormat::from_extension("PNG"), None);
}

#[test]
fn path_detection_uses_the_last_extension_of_the_file_name() {
    assert_eq!(SupportedFormat::from_path("/photos/archive.tar.png"), Some(SupportedFormat::Png));
    assert_eq!(SupportedFormat::from_path("/photos.png/readme"), None);
    assert_eq!(SupportedFormat::from_path(".png"), None);
}

#[test]
fn display_names() {
    assert_eq!(SupportedFormat::Png.display_name(), "PNG");
    assert_eq!(SupportedFormat::Jpeg.display_name(), "JPEG");
    assert_eq!(SupportedFormat::WebP.display_name(), "WebP");
    assert_eq!(SupportedFormat::Bmp.display_name(), "BMP");
    assert_eq!(SupportedFormat::Tiff.display_name(), "TIFF");
    assert_eq!(SupportedFormat::Gif.display_name(), "GIF");
    assert_eq!(SupportedFormat::Exr.display_name(), "EXR");
    assert_eq!(SupportedFormat::Svg.display_name(), "SVG");
}

#[test]
fn all_extensions_lists_ten() {
    assert_eq!(SupportedFormat::all_extensions().len(), 10);
}
