use rivett::session::{RatingFilter, RatingFilterOp, Rotation, SessionState};
use rivett::settings::SortOrder;

fn p(s: &str) -> String {
    s.to_string()
}

/// A crop rectangle as the viewer stores it for a path.
#[derive(Debug, Clone, Copy, PartialEq)]
struct CropRect {
    x: f32,
    y: f32,
    width: f32,
    height: f32,
}

impl CropRect {
    fn new(x: f32, y: f32, width: f32, height: f32) -> Self {
        Self { x, y, width, height }
    }
}

#[test]
fn rotation_cw_cycles_through_all_steps() {
    assert_eq!(Rotation::Identity.rotate_cw(), Rotation::Cw90);
    assert_eq!(Rotation::Cw90.rotate_cw(), Rotation::Cw180);
    assert_eq!(Rotation::Cw180.rotate_cw(), Rotation::Cw270);
    assert_eq!(Rotation::Cw270.rotate_cw(), Rotation::Identity);
}

#[test]
fn rotation_ccw_cycles_through_all_steps() {
    assert_eq!(Rotation::Identity.rotate_ccw(), Rotation::Cw270);
    assert_eq!(Rotation::Cw90.rotate_ccw(), Rotation::Identity);
    assert_eq!(Rotation::Cw180.rotate_ccw(), Rotation::Cw90);
    assert_eq!(Rotation::Cw270.rotate_ccw(), Rotation::Cw180);
}

#[test]
fn four_cw_steps_return_to_identity() {
    let mut r = Rotation::Identity;
    for _ in 0..4 {
        r = r.rotate_cw();
    }
    assert!(r.is_identity());
}

#[test]
fn cw_and_ccw_cancel() {
    assert_eq!(Rotation::Identity.rotate_cw().rotate_ccw(), Rotation::Identity);
    assert_eq!(Rotation::Cw90.rotate_ccw().rotate_cw(), Rotation::Cw90);
}

#[test]
fn degrees_are_correct() {
    assert_eq!(Rotation::Identity.degrees(), 0);
    assert_eq!(Rotation::Cw90.degrees(), 90);
    assert_eq!(Rotation::Cw180.degrees(), 180);
    assert_eq!(Rotation::Cw270.degrees(), 270);
}

#[test]
fn rotation_u8_roundtrip() {
    for i in 0..4 {
        assert_eq!(Rotation::from_u8(i).as_u8(), i);
    }
}

#[test]
fn from_u8_wraps_modulo_four() {
    assert_eq!(Rotation::from_u8(4), Rotation::Identity);
    assert_eq!(Rotation::from_u8(7), Rotation::Cw270);
    assert_eq!(Rotation::from_u8(255), Rotation::Cw270);
}

#[test]
fn default_rotation_is_identity() {
    assert_eq!(Rotation::default(), Rotation::Identity);
    assert!(!Rotation::Cw180.is_identity());
}

#[test]
fn new_session_has_no_pending_changes() {
    assert!(!SessionState::<CropRect>::new(SortOrder::Name).has_pending_changes());
}

#[test]
fn crop_creates_pending_change_and_clears() {
    let mut s = SessionState::new(SortOrder::Name);
    let path = p("/img.jpg");
    s.set_crop(path.clone(), CropRect::new(0.0, 0.0, 100.0, 100.0));
    assert!(s.has_pending_changes());
    s.clear_crop(&path);
    assert!(!s.has_pending_changes());
}

#[test]
fn flush_clears_all_state() {
    let mut s = SessionState::<CropRect>::new(SortOrder::Name);
    s.rotate_cw(p("/img.jpg"));
    s.ignore_image(p("/other.jpg"));
    s.rating_filter = Some(RatingFilter { op: RatingFilterOp::AtLeast, value: 3 });
    s.flush();
    assert!(!s.has_pending_changes());
    assert!(s.ignored_images.is_empty());
    assert!(s.rating_filter.is_none());
}

#[test]
fn flush_keeps_sort_order_and_clears_rotations() {
    let mut s = SessionState::<CropRect>::new(SortOrder::FileSize);
    s.rotate_cw(p("/img.jpg"));
    s.flush();
    assert_eq!(s.sort_order, SortOrder::FileSize);
    assert_eq!(s.rotation_for(&p("/img.jpg")), Rotation::Identity);
    assert!(s.pending_rotations.is_empty());
}

#[test]
fn session_rotation_cw_then_ccw_restores() {
    let mut s = SessionState::<CropRect>::new(SortOrder::Name);
    let path = p("/a.png");
    assert_eq!(s.rotate_cw(path.clone()), Rotation::Cw90);
    assert_eq!(s.rotation_for(&path), Rotation::Cw90);
    assert_eq!(s.rotate_ccw(path.clone()), Rotation::Identity);
    assert_eq!(s.rotation_for(&path), Rotation::Identity);
    assert!(s.pending_rotations.is_empty(), "identity rotations are not stored");
}

#[test]
fn session_rotations_are_per_path() {
    let mut s = SessionState::<CropRect>::new(SortOrder::Name);
    s.rotate_cw(p("/a.png"));
    s.rotate_cw(p("/a.png"));
    s.rotate_ccw(p("/b.png"));
    assert_eq!(s.rotation_for(&p("/a.png")), Rotation::Cw180);
    assert_eq!(s.rotation_for(&p("/b.png")), Rotation::Cw270);
    assert_eq!(s.rotation_for(&p("/c.png")), Rotation::Identity);
    assert_eq!(s.pending_rotations.len(), 2);
    s.set_rotation(p("/a.png"), Rotation::Identity);
    assert_eq!(s.pending_rotations.len(), 1);
}

#[test]
fn crop_for_returns_the_last_crop_set() {
    let mut s = SessionState::new(SortOrder::Name);
    let path = p("/img.jpg");
    assert_eq!(s.crop_for(&path), None);
    s.set_crop(path.clone(), CropRect::new(1.0, 2.0, 3.0, 4.0));
    s.set_crop(path.clone(), CropRect::new(5.0, 6.0, 7.0, 8.0));
    assert_eq!(s.crop_for(&path), Some(CropRect::new(5.0, 6.0, 7.0, 8.0)));
    assert_eq!(s.pending_crops.len(), 1);
}

#[test]
fn ignored_images_are_remembered() {
    let mut s = SessionState::<CropRect>::new(SortOrder::Name);
    assert!(!s.is_ignored(&p("/x.png")));
    s.ignore_image(p("/x.png"));
    s.ignore_image(p("/x.png"));
    assert!(s.is_ignored(&p("/x.png")));
    assert!(!s.is_ignored(&p("/y.png")));
    assert!(!s.has_pending_changes(), "ignoring is not a pending change");
}

#[test]
fn filter_at_least() {
    let f = RatingFilter { op: RatingFilterOp::AtLeast, value: 3 };
    assert!(!f.matches(None));
    assert!(!f.matches(Some(2)));
    assert!(f.matches(Some(3)));
    assert!(f.matches(Some(5)));
}

#[test]
fn filter_at_most() {
    let f = RatingFilter { op: RatingFilterOp::AtMost, value: 3 };
    assert!(f.matches(Some(1)));
    assert!(f.matches(Some(3)));
    assert!(!f.matches(Some(4)));
    assert!(!f.matches(None));
}

#[test]
fn filter_exactly() {
    let f = RatingFilter { op: RatingFilterOp::Exactly, value: 3 };
    assert!(!f.matches(Some(2)));
    assert!(f.matches(Some(3)));
    assert!(!f.matches(Some(4)));
    assert!(!f.matches(None));
}

#[test]
fn filter_at_most_zero_accepts_only_zero() {
    let f = RatingFilter { op: RatingFilterOp::AtMost, value: 0 };
    assert!(f.matches(Some(0)));
    assert!(!f.matches(Some(1)));
}
