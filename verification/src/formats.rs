//! Supported image formats.
//!
//! Format detection is extension-based only; no magic-byte sniffing is
//! performed at this layer (the decoder handles that).

use vstd::prelude::*;
use crate::paths::{path_extension, path_extension_of};
use crate::text::{lowercase_of, str_eq, to_lowercase};

verus! {

/// Every image format the viewer can decode.
#[derive(Debug, Clone, Copy, PartialEq, Eq, Hash, Structural)]
pub enum SupportedFormat {
    Png,
    Jpeg,
    WebP,
    Bmp,
    Tiff,
    Gif,
    Exr,
    Svg,
}

/// The format named by a lowercase extension, if any.
pub open spec fn format_of_extension(ext: Seq<char>) -> Option<SupportedFormat> {
    if ext == "png"@ {
        Some(SupportedFormat::Png)
    } else if ext == "jpg"@ || ext == "jpeg"@ {
        Some(SupportedFormat::Jpeg)
    } else if ext == "webp"@ {
        Some(SupportedFormat::WebP)
    } else if ext == "bmp"@ {
        Some(SupportedFormat::Bmp)
    } else if ext == "tif"@ || ext == "tiff"@ {
        Some(SupportedFormat::Tiff)
    } else if ext == "gif"@ {
        Some(SupportedFormat::Gif)
    } else if ext == "exr"@ {
        Some(SupportedFormat::Exr)
    } else if ext == "svg"@ {
        Some(SupportedFormat::Svg)
    } else {
        None
    }
}

/// The lowercase extensions, aliases included, in the order they are listed.
pub open spec fn listed_extensions() -> Seq<Seq<char>> {
    seq!["png"@, "jpg"@, "jpeg"@, "webp"@, "bmp"@, "tif"@, "tiff"@, "gif"@, "exr"@, "svg"@]
}

/// The format of a path: that of its extension, lowercased.
pub open spec fn format_of_path(path: Seq<char>) -> Option<SupportedFormat> {
    match path_extension_of(path) {
        Some(ext) => format_of_extension(lowercase_of(ext)),
        None => None,
    }
}

/// The display name of a format.
pub open spec fn display_name_of(f: SupportedFormat) -> Seq<char> {
    match f {
        SupportedFormat::Png => "PNG"@,
        SupportedFormat::Jpeg => "JPEG"@,
        SupportedFormat::WebP => "WebP"@,
        SupportedFormat::Bmp => "BMP"@,
        SupportedFormat::Tiff => "TIFF"@,
        SupportedFormat::Gif => "GIF"@,
        SupportedFormat::Exr => "EXR"@,
        SupportedFormat::Svg => "SVG"@,
    }
}

impl SupportedFormat {
    /// Infer the format from a file path's extension (case-insensitive).
    pub fn from_path(path: &str) -> (r: Option<SupportedFormat>)
        ensures
            r == format_of_path(path@),
    {
        match path_extension(path) {
            Some(ext) => {
                let lower = to_lowercase(ext.as_str());
                Self::from_extension(lower.as_str())
            },
            None => None,
        }
    }

    /// Infer the format from a lowercase extension string.
    pub fn from_extension(ext: &str) -> (r: Option<SupportedFormat>)
        ensures
            r == format_of_extension(ext@),
    {
        if str_eq(ext, "png") {
            Some(SupportedFormat::Png)
        } else if str_eq(ext, "jpg") || str_eq(ext, "jpeg") {
            Some(SupportedFormat::Jpeg)
        } else if str_eq(ext, "webp") {
            Some(SupportedFormat::WebP)
        } else if str_eq(ext, "bmp") {
            Some(SupportedFormat::Bmp)
        } else if str_eq(ext, "tif") || str_eq(ext, "tiff") {
            Some(SupportedFormat::Tiff)
        } else if str_eq(ext, "gif") {
            Some(SupportedFormat::Gif)
        } else if str_eq(ext, "exr") {
            Some(SupportedFormat::Exr)
        } else if str_eq(ext, "svg") {
            Some(SupportedFormat::Svg)
        } else {
            None
        }
    }

    /// All known lowercase extensions, including aliases.
    pub fn all_extensions() -> (r: &'static [&'static str])
        ensures
            r@.len() == listed_extensions().len(),
            forall|i: int| 0 <= i < r@.len() ==> (#[trigger] r@[i])@ == listed_extensions()[i],
    {
        &["png", "jpg", "jpeg", "webp", "bmp", "tif", "tiff", "gif", "exr", "svg"]
    }

    /// `true` if this format can store rotation losslessly via metadata
    /// (EXIF orientation tag) without recompressing pixel data.
    pub fn supports_lossless_rotation_metadata(self) -> (r: bool)
        ensures
            r == (self == SupportedFormat::Jpeg || self == SupportedFormat::Tiff),
    {
        match self {
            SupportedFormat::Jpeg | SupportedFormat::Tiff => true,
            _ => false,
        }
    }

    /// Human-readable display name.
    pub fn display_name(self) -> (r: &'static str)
        ensures
            r@ == display_name_of(self),
    {
        match self {
            SupportedFormat::Png => "PNG",
            SupportedFormat::Jpeg => "JPEG",
            SupportedFormat::WebP => "WebP",
            SupportedFormat::Bmp => "BMP",
            SupportedFormat::Tiff => "TIFF",
            SupportedFormat::Gif => "GIF",
            SupportedFormat::Exr => "EXR",
            SupportedFormat::Svg => "SVG",
        }
    }
}

/// The listed extensions are exactly the ones that name a format: every
/// listed one is recognised, and every recognised one is listed.
pub proof fn lemma_listed_extensions_are_recognised(ext: Seq<char>)
    ensures
        listed_extensions().contains(ext) <==> format_of_extension(ext) is Some,
{
    let l = listed_extensions();
    if format_of_extension(ext) is Some {
        if ext == "png"@ { assert(l[0] == ext); }
        else if ext == "jpg"@ { assert(l[1] == ext); }
        else if ext == "jpeg"@ { assert(l[2] == ext); }
        else if ext == "webp"@ { assert(l[3] == ext); }
        else if ext == "bmp"@ { assert(l[4] == ext); }
        else if ext == "tif"@ { assert(l[5] == ext); }
        else if ext == "tiff"@ { assert(l[6] == ext); }
        else if ext == "gif"@ { assert(l[7] == ext); }
        else if ext == "exr"@ { assert(l[8] == ext); }
        else { assert(l[9] == ext); }
    }
}

/// Path detection ignores case: two paths whose extensions lowercase to the
/// same text have the same format.
pub proof fn lemma_path_detection_ignores_case(a: Seq<char>, b: Seq<char>)
    requires
        path_extension_of(a) is Some,
        path_extension_of(b) is Some,
        lowercase_of(path_extension_of(a)->0) == lowercase_of(path_extension_of(b)->0),
    ensures
        format_of_path(a) == format_of_path(b),
{
}

} // verus!
