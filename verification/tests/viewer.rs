use rivett::image_loader::DecodedImage;
use rivett::session::Rotation;
use rivett::viewer::{apply_rotation, ViewerMode};

// A 2x1 image: a red pixel, then a blue one.
fn two_pixels() -> DecodedImage {
    DecodedImage { rgba: vec![255, 0, 0, 255, 0, 0, 255, 255], width: 2, height: 1 }
}

#[test]
fn identity_keeps_pixels() {
    let (px, w, h) = apply_rotation(&two_pixels(), Rotation::Identity);
    assert_eq!((w, h), (2, 1));
    assert_eq!(px, two_pixels().rgba);
}

#[test]
fn quarter_turn_swaps_dimensions() {
    let (px, w, h) = apply_rotation(&two_pixels(), Rotation::Cw90);
    assert_eq!((w, h), (1, 2));
    assert_eq!(px, vec![255, 0, 0, 255, 0, 0, 255, 255]);
    let (px, w, h) = apply_rotation(&two_pixels(), Rotation::Cw270);
    assert_eq!((w, h), (1, 2));
    assert_eq!(px, vec![0, 0, 255, 255, 255, 0, 0, 255]);
}

#[test]
fn half_turn_reverses_a_row() {
    let (px, w, h) = apply_rotation(&two_pixels(), Rotation::Cw180);
    assert_eq!((w, h), (2, 1));
    assert_eq!(px, vec![0, 0, 255, 255, 255, 0, 0, 255]);
}

#[test]
fn a_2x2_quarter_turn() {
    // a b / c d  turned clockwise is  c a / d b
    let img = DecodedImage {
        rgba: vec![1, 1, 1, 1, 2, 2, 2, 2, 3, 3, 3, 3, 4, 4, 4, 4],
        width: 2,
        height: 2,
    };
    let (px, _, _) = apply_rotation(&img, Rotation::Cw90);
    assert_eq!(px, vec![3, 3, 3, 3, 1, 1, 1, 1, 4, 4, 4, 4, 2, 2, 2, 2]);
}

#[test]
fn default_mode_is_navigate() {
    assert_eq!(ViewerMode::default(), ViewerMode::Navigate);
}

#[test]
fn turns_cancel_byte_for_byte() {
    // A 3x2 image with distinct bytes everywhere.
    let img = DecodedImage { rgba: (0u8..24).collect(), width: 3, height: 2 };
    let (px, w, h) = apply_rotation(&img, Rotation::Cw90);
    let turned = DecodedImage { rgba: px, width: w as u32, height: h as u32 };
    let (back, w2, h2) = apply_rotation(&turned, Rotation::Cw270);
    assert_eq!((w2, h2), (3, 2));
    assert_eq!(back, img.rgba);

    let (px, w, h) = apply_rotation(&img, Rotation::Cw180);
    let half = DecodedImage { rgba: px, width: w as u32, height: h as u32 };
    let (back, _, _) = apply_rotation(&half, Rotation::Cw180);
    assert_eq!(back, img.rgba);
}
