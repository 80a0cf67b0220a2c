//! Viewer canvas logic that is independent of the windowing toolkit: the
//! interaction mode and the rotation of pixel data before upload.

use vstd::prelude::*;
use crate::image_loader::DecodedImage;
use crate::session::Rotation;
use crate::pixels::{rgba_len, rotate180_rgba, rotate270_rgba, rotate90_rgba, rotated_180, rotated_270, rotated_90};

verus! {

/// The current interaction mode of the canvas.
#[derive(Debug, Clone, Copy, PartialEq, Eq, Structural)]
pub enum ViewerMode {
    /// Normal pan/zoom navigation.
    Navigate,
    /// User is drawing a rectangular crop/selection (`S` key).
    Selection,
    /// R/G/B/A channel inspection overlay (`K` key).
    ChannelView,
}

impl Default for ViewerMode {
    fn default() -> (r: Self)
        ensures
            r == ViewerMode::Navigate,
    {
        ViewerMode::Navigate
    }
}

/// Apply `rotation` to `img`, returning new RGBA pixels and dimensions.
pub fn apply_rotation(img: &DecodedImage, rotation: Rotation) -> (r: (Vec<u8>, usize, usize))
    requires
        rgba_len(img.width as nat, img.height as nat) <= img.rgba@.len(),
        rgba_len(img.width as nat, img.height as nat) <= usize::MAX,
    ensures
        match rotation {
            Rotation::Identity => r.0@ == img.rgba@ && r.1 == img.width && r.2 == img.height,
            Rotation::Cw90 => r.0@ == rotated_90(img.rgba@, img.width as nat, img.height as nat)
                && r.1 == img.height && r.2 == img.width,
            Rotation::Cw180 => r.0@ == rotated_180(img.rgba@, img.width as nat, img.height as nat)
                && r.1 == img.width && r.2 == img.height,
            Rotation::Cw270 => r.0@ == rotated_270(img.rgba@, img.width as nat, img.height as nat)
                && r.1 == img.height && r.2 == img.width,
        },
{
    match rotation {
        Rotation::Identity => {
            let pixels = img.rgba.clone();
            proof {
                assert(pixels@ =~= img.rgba@);
            }
            (pixels, img.width as usize, img.height as usize)
        },
        Rotation::Cw90 => (rotate90_rgba(&img.rgba, img.width, img.height), img.height as usize, img.width as usize),
        Rotation::Cw180 => (rotate180_rgba(&img.rgba, img.width, img.height), img.width as usize, img.height as usize),
        Rotation::Cw270 => (rotate270_rgba(&img.rgba, img.width, img.height), img.height as usize, img.width as usize),
    }
}

} // verus!
