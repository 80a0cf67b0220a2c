use rivett::image_loader::{
    decode_raster, decode_route, decode_svg, keep_accepted, upright, orientation_fix, rgb_to_rgba, sort_order, DecodedImage, DirectoryListing, FileEntry, ImageCache,
    DecodeRoute, OrientationFix,
};
use rivett::settings::SortOrder;
use rivett::db::Database;
use rivett::session::{RatingFilter, RatingFilterOp, SessionState};
use std::path::Path;

const DIR: &str = "/photos/test";

fn entry(name: &str, size: u64, modified: i128) -> FileEntry {
    FileEntry { path: format!("{DIR}/{name}"), is_file: true, size, modified }
}

// A directory holding files with the given names.
fn make_dir(names: &[&str]) -> Vec<FileEntry> {
    names.iter().map(|n| entry(n, 0, 0)).collect()
}

fn scan(entries: &Vec<FileEntry>) -> DirectoryListing {
    DirectoryListing::scan(DIR, entries, SortOrder::Name, None, None)
}

fn join(name: &str) -> String {
    format!("{DIR}/{name}")
}

fn file_name(p: &str) -> &str {
    Path::new(p).file_name().unwrap().to_str().unwrap()
}

#[test]
fn scan_finds_supported_extensions() {
    let dir = make_dir(&["b.png", "a.jpg", "c.bmp", "skip.txt"]);
    let listing = scan(&dir);
    assert_eq!(listing.len(), 3, "txt should be excluded");
}

#[test]
fn scan_sorts_by_name_ascending() {
    let dir = make_dir(&["c.gif", "a.png", "b.jpg"]);
    let listing = scan(&dir);
    let names: Vec<_> = listing.files.iter().map(|p| file_name(p)).collect();
    assert_eq!(names, vec!["a.png", "b.jpg", "c.gif"]);
}

#[test]
fn navigation_does_not_wrap_at_end() {
    let dir = make_dir(&["a.png", "b.png", "c.png"]);
    let mut l = scan(&dir);
    while l.go_next() {}
    assert!(!l.can_go_next());
    assert!(l.can_go_prev());
    assert!(!l.go_next(), "go_next at end must return false");
}

#[test]
fn navigation_does_not_wrap_at_start() {
    let dir = make_dir(&["a.png", "b.png"]);
    let mut l = scan(&dir);
    assert!(!l.can_go_prev());
    assert!(!l.go_prev(), "go_prev at start must return false");
    assert_eq!(l.current_index, 0);
}

#[test]
fn seek_to_positions_cursor_correctly() {
    let dir = make_dir(&["a.png", "b.png", "c.png"]);
    let mut l = scan(&dir);
    let target = join("b.png");
    assert!(l.seek_to(&target));
    assert_eq!(l.current_index, 1);
}

#[test]
fn seek_to_unknown_returns_false() {
    let dir = make_dir(&["a.png"]);
    let mut l = scan(&dir);
    assert!(!l.seek_to(&join("nonexistent.png")));
    assert_eq!(l.current_index, 0, "cursor should be unchanged");
}

#[test]
fn empty_directory_listing() {
    let dir = make_dir(&["readme.txt"]);
    let l = scan(&dir);
    assert!(l.is_empty());
    assert!(l.current().is_none());
    assert!(!l.can_go_next());
    assert!(!l.can_go_prev());
}

#[test]
fn position_label_is_1_based() {
    let dir = make_dir(&["a.png", "b.png", "c.png"]);
    let mut l = scan(&dir);
    assert_eq!(l.position_label(), "1 / 3");
    l.go_next();
    assert_eq!(l.position_label(), "2 / 3");
}

#[test]
fn refresh_restores_cursor_to_same_file() {
    let dir = make_dir(&["a.png", "b.png", "c.png"]);
    let mut l = scan(&dir);
    l.seek_to(&join("b.png"));
    l.refresh(&dir, SortOrder::Name, None);
    assert_eq!(file_name(l.current().unwrap()), "b.png");
}

#[test]
fn refresh_follows_the_file_when_others_appear() {
    let dir = make_dir(&["b.png", "c.png"]);
    let mut l = scan(&dir);
    l.seek_to(&join("c.png"));
    assert_eq!(l.current_index, 1);
    let more = make_dir(&["a.png", "b.png", "c.png", "d.png"]);
    l.refresh(&more, SortOrder::Name, None);
    assert_eq!(l.current_index, 2);
    assert_eq!(file_name(l.current().unwrap()), "c.png");
}

#[test]
fn refresh_resets_cursor_when_the_file_is_gone() {
    let dir = make_dir(&["a.png", "b.png", "c.png"]);
    let mut l = scan(&dir);
    l.seek_to(&join("c.png"));
    let fewer = make_dir(&["a.png", "b.png"]);
    l.refresh(&fewer, SortOrder::Name, None);
    assert_eq!(l.current_index, 0);
}

#[test]
fn position_label_of_empty_listing() {
    let l = scan(&make_dir(&[]));
    assert_eq!(l.position_label(), "0 / 0");
}

#[test]
fn position_label_with_many_digits() {
    let names: Vec<String> = (0..120).map(|i| format!("img{i:03}.png")).collect();
    let refs: Vec<&str> = names.iter().map(|s| s.as_str()).collect();
    let mut l = scan(&make_dir(&refs));
    assert!(l.seek_to(&join("img109.png")));
    assert_eq!(l.position_label(), "110 / 120");
}

#[test]
fn directories_and_unsupported_files_are_skipped() {
    let mut entries = make_dir(&["a.png", "notes.md"]);
    entries.push(FileEntry { path: join("folder.png"), is_file: false, size: 0, modified: 0 });
    let l = scan(&entries);
    assert_eq!(l.files, vec![join("a.png")]);
}

#[test]
fn sort_by_size_is_stable() {
    let entries = vec![entry("a.png", 30, 0), entry("b.png", 10, 0), entry("c.png", 30, 0), entry("d.png", 10, 0)];
    let l = DirectoryListing::scan(DIR, &entries, SortOrder::FileSize, None, None);
    let names: Vec<_> = l.files.iter().map(|p| file_name(p)).collect();
    assert_eq!(names, vec!["b.png", "d.png", "a.png", "c.png"]);
}

#[test]
fn sort_by_date_modified_ascending() {
    let entries = vec![entry("a.png", 0, 300), entry("b.png", 0, -5), entry("c.png", 0, 100)];
    let l = DirectoryListing::scan(DIR, &entries, SortOrder::DateModified, None, None);
    let names: Vec<_> = l.files.iter().map(|p| file_name(p)).collect();
    assert_eq!(names, vec!["b.png", "c.png", "a.png"]);
}

#[test]
fn sort_by_name_orders_by_code_points() {
    let entries = make_dir(&["b.png", "B.png", "a.png", "ab.png", "a.jpg"]);
    let order = sort_order(&entries, SortOrder::Name);
    assert_eq!(order, vec![1, 4, 2, 3, 0]);
}

#[test]
fn cursor_moves_one_step_at_a_time() {
    let mut l = scan(&make_dir(&["a.png", "b.png", "c.png"]));
    assert!(l.go_next());
    assert_eq!(l.current_index, 1);
    assert!(l.go_prev());
    assert_eq!(l.current_index, 0);
    assert_eq!(l.current().map(|s| s.as_str()), Some(join("a.png").as_str()));
}

#[test]
fn rgb_pixels_become_opaque_rgba() {
    let rgba = rgb_to_rgba(&[1, 2, 3, 4, 5, 6, 7]);
    assert_eq!(rgba, vec![1, 2, 3, 255, 4, 5, 6, 255]);
    assert!(rgb_to_rgba(&[]).is_empty());
}

#[test]
fn orientation_fixes() {
    assert_eq!(orientation_fix(1), OrientationFix::Keep);
    assert_eq!(orientation_fix(3), OrientationFix::Rotate180);
    assert_eq!(orientation_fix(6), OrientationFix::Rotate90);
    assert_eq!(orientation_fix(8), OrientationFix::Rotate270);
    assert_eq!(orientation_fix(5), OrientationFix::Rotate90ThenFlipHorizontal);
    assert_eq!(orientation_fix(9), OrientationFix::Keep);
}

fn img(tag: u8) -> DecodedImage {
    DecodedImage { rgba: vec![tag, tag, tag, 255], width: 1, height: 1 }
}

#[test]
fn cache_evicts_least_recently_used() {
    let mut c = ImageCache::new(2);
    c.insert("a".to_string(), img(1));
    c.insert("b".to_string(), img(2));
    assert_eq!(c.get(&"a".to_string()).map(|i| i.rgba[0]), Some(1));
    c.insert("c".to_string(), img(3));
    assert_eq!(c.len(), 2);
    assert!(c.contains(&"a".to_string()), "a was used most recently");
    assert!(!c.contains(&"b".to_string()), "b was the least recently used");
    assert!(c.contains(&"c".to_string()));
}

#[test]
fn cache_insert_of_cached_path_keeps_the_first_image() {
    let mut c = ImageCache::new(4);
    c.insert("a".to_string(), img(1));
    c.insert("a".to_string(), img(9));
    assert_eq!(c.len(), 1);
    assert_eq!(c.get(&"a".to_string()).map(|i| i.rgba[0]), Some(1));
    assert!(c.get(&"zzz".to_string()).is_none());
}

#[test]
fn cache_with_capacity_zero_keeps_one_image() {
    let mut c = ImageCache::new(0);
    c.insert("a".to_string(), img(1));
    c.insert("b".to_string(), img(2));
    assert_eq!(c.len(), 1);
    assert!(c.contains(&"b".to_string()));
}

#[test]
fn scan_with_database_filters_by_rating_and_prunes_missing_files() {
    let mut db = Database::open_in_memory().unwrap();
    let dir = db.upsert_directory_by_path(DIR).unwrap();
    db.set_rating(dir.id, "a.png", Some(5)).unwrap();
    db.set_rating(dir.id, "b.png", Some(2)).unwrap();
    db.set_rating(dir.id, "gone.png", Some(4)).unwrap();
    let entries = make_dir(&["a.png", "b.png", "c.png"]);
    let filter = RatingFilter { op: RatingFilterOp::AtLeast, value: 3 };
    let l = DirectoryListing::scan(DIR, &entries, SortOrder::Name, Some(filter), Some(&mut db));
    assert_eq!(l.files, vec![join("a.png")]);
    assert_eq!(l.rating_filter, Some(filter));
    assert!(db.get_image(dir.id, "gone.png").unwrap().is_none(), "records of missing files are pruned");
    let all = DirectoryListing::scan(DIR, &entries, SortOrder::Name, None, Some(&mut db));
    assert_eq!(all.len(), 3);
}

#[test]
fn scan_with_filter_of_unknown_directory_is_empty() {
    let mut db = Database::open_in_memory().unwrap();
    let entries = make_dir(&["a.png"]);
    let filter = RatingFilter { op: RatingFilterOp::AtLeast, value: 1 };
    let l = DirectoryListing::scan(DIR, &entries, SortOrder::Name, Some(filter), Some(&mut db));
    assert!(l.is_empty());
}

#[test]
fn global_scan_keeps_existing_files_and_forgets_missing_ones() {
    let mut db = Database::open_in_memory().unwrap();
    let dir = db.upsert_directory_by_path("/lib").unwrap();
    db.set_rating(dir.id, "keep.png", Some(5)).unwrap();
    db.set_rating(dir.id, "lost.png", Some(4)).unwrap();
    db.set_rating(dir.id, "low.png", Some(1)).unwrap();
    let filter = RatingFilter { op: RatingFilterOp::AtLeast, value: 3 };
    let l = DirectoryListing::scan_global(&mut db, filter, |p: &str| p != "/lib/lost.png").unwrap();
    assert_eq!(l.files, vec!["/lib/keep.png".to_string()]);
    assert_eq!(l.dir_path, "");
    assert!(db.get_image(dir.id, "lost.png").unwrap().is_none());
    assert!(db.get_image(dir.id, "low.png").unwrap().is_some());
}

#[test]
fn name_order_uses_the_file_name_not_the_directory() {
    let entries = vec![
        FileEntry { path: "/z/a.png".to_string(), is_file: true, size: 0, modified: 0 },
        FileEntry { path: "/a/b.png".to_string(), is_file: true, size: 0, modified: 0 },
    ];
    assert_eq!(sort_order(&entries, SortOrder::Name), vec![0, 1]);
}

#[test]
fn visible_neighbours_skip_hidden_images() {
    let dir = make_dir(&["a.png", "b.png", "c.png", "d.png", "e.png"]);
    let mut listing = scan(&dir);
    let mut session: SessionState<()> = SessionState::new(SortOrder::Name);
    assert_eq!(listing.visible_neighbours(&session), (Some(1), None));
    listing.go_next();
    listing.go_next();
    assert_eq!(listing.visible_neighbours(&session), (Some(3), Some(1)));
    session.ignore_image(listing.files[1].clone());
    session.ignore_image(listing.files[3].clone());
    assert_eq!(listing.visible_neighbours(&session), (Some(4), Some(0)));
    session.ignore_image(listing.files[4].clone());
    session.ignore_image(listing.files[0].clone());
    assert_eq!(listing.visible_neighbours(&session), (None, None));
    let empty = scan(&make_dir(&[]));
    assert_eq!(empty.visible_neighbours(&session), (None, None));
}

#[test]
fn keep_accepted_follows_the_answers() {
    let files = make_dir(&["a.png", "b.png", "c.png", "d.png"]);
    let answers = vec![Some(Some(4)), Some(None), None, Some(Some(2))];
    let at_least_3 = RatingFilter { op: RatingFilterOp::AtLeast, value: 3 };
    let kept = keep_accepted(&files, &answers, at_least_3);
    let names: Vec<&str> = kept.iter().map(|e| file_name(&e.path)).collect();
    assert_eq!(names, vec!["a.png"]);
    let exactly_2 = RatingFilter { op: RatingFilterOp::Exactly, value: 2 };
    let kept = keep_accepted(&files, &answers, exactly_2);
    let names: Vec<&str> = kept.iter().map(|e| file_name(&e.path)).collect();
    assert_eq!(names, vec!["d.png"]);
}

#[test]
fn decode_route_by_extension() {
    assert_eq!(decode_route("/p/logo.svg"), DecodeRoute::Svg);
    assert_eq!(decode_route("/p/logo.SvG"), DecodeRoute::Svg);
    assert_eq!(decode_route("/p/shot.CR2"), DecodeRoute::Raw);
    assert_eq!(decode_route("/p/shot.dng"), DecodeRoute::Raw);
    assert_eq!(decode_route("/p/photo.png"), DecodeRoute::Raster);
    assert_eq!(decode_route("/p/svg"), DecodeRoute::Raster);
    assert_eq!(decode_route("/p/.svg"), DecodeRoute::Raster);
}

#[test]
fn cursor_in_range_checks_the_cursor() {
    let mut listing = scan(&make_dir(&["a.png", "b.png"]));
    assert!(listing.cursor_in_range());
    listing.current_index = 2;
    assert!(!listing.cursor_in_range());
    let mut empty = scan(&make_dir(&[]));
    assert!(empty.cursor_in_range());
    empty.current_index = 1;
    assert!(!empty.cursor_in_range());
}

fn encode(img: image::RgbaImage, format: image::ImageFormat) -> Vec<u8> {
    let mut out = std::io::Cursor::new(Vec::new());
    img.write_to(&mut out, format).unwrap();
    out.into_inner()
}

#[test]
fn decode_raster_gives_rgba_pixels() {
    let img = image::RgbaImage::from_raw(2, 1, vec![255, 0, 0, 255, 0, 0, 255, 128]).unwrap();
    let decoded = decode_raster(&encode(img, image::ImageFormat::Png)).unwrap();
    assert_eq!((decoded.width, decoded.height), (2, 1));
    assert_eq!(decoded.rgba, vec![255, 0, 0, 255, 0, 0, 255, 128]);
    // An opaque RGB bitmap comes out with full alpha.
    let rgb = image::RgbaImage::from_raw(1, 1, vec![10, 20, 30, 255]).unwrap();
    let decoded = decode_raster(&encode(rgb, image::ImageFormat::Bmp)).unwrap();
    assert_eq!(decoded.rgba, vec![10, 20, 30, 255]);
}

#[test]
fn decode_raster_reports_undecodable_bytes() {
    assert!(decode_raster(b"definitely not an image").is_err());
    assert!(decode_raster(&[]).is_err());
}

#[test]
fn upright_applies_each_fix() {
    // a b  (2x1)
    let px = vec![1, 1, 1, 1, 2, 2, 2, 2];
    assert_eq!(upright(px.clone(), 2, 1, OrientationFix::Keep), (px.clone(), 2, 1));
    assert_eq!(upright(px.clone(), 2, 1, OrientationFix::FlipHorizontal), (vec![2, 2, 2, 2, 1, 1, 1, 1], 2, 1));
    assert_eq!(upright(px.clone(), 2, 1, OrientationFix::FlipVertical), (px.clone(), 2, 1));
    assert_eq!(upright(px.clone(), 2, 1, OrientationFix::Rotate90), (vec![1, 1, 1, 1, 2, 2, 2, 2], 1, 2));
    assert_eq!(upright(px.clone(), 2, 1, OrientationFix::Rotate270), (vec![2, 2, 2, 2, 1, 1, 1, 1], 1, 2));
    assert_eq!(upright(px.clone(), 2, 1, OrientationFix::Rotate90ThenFlipHorizontal), (vec![1, 1, 1, 1, 2, 2, 2, 2], 1, 2));
    assert_eq!(upright(px.clone(), 2, 1, OrientationFix::Rotate180), (vec![2, 2, 2, 2, 1, 1, 1, 1], 2, 1));
    // a b / c d
    let sq = vec![1, 1, 1, 1, 2, 2, 2, 2, 3, 3, 3, 3, 4, 4, 4, 4];
    assert_eq!(
        upright(sq.clone(), 2, 2, OrientationFix::FlipVertical),
        (vec![3, 3, 3, 3, 4, 4, 4, 4, 1, 1, 1, 1, 2, 2, 2, 2], 2, 2)
    );
    // turned clockwise: c a / d b; then mirrored: a c / b d
    assert_eq!(
        upright(sq.clone(), 2, 2, OrientationFix::Rotate90ThenFlipHorizontal),
        (vec![1, 1, 1, 1, 3, 3, 3, 3, 2, 2, 2, 2, 4, 4, 4, 4], 2, 2)
    );
    // turned counter-clockwise: b d / a c; then mirrored: d b / c a
    assert_eq!(
        upright(sq, 2, 2, OrientationFix::Rotate270ThenFlipHorizontal),
        (vec![4, 4, 4, 4, 2, 2, 2, 2, 3, 3, 3, 3, 1, 1, 1, 1], 2, 2)
    );
}

#[test]
fn decode_svg_renders_pixels() {
    let svg = br##"<svg xmlns="http://www.w3.org/2000/svg" width="2" height="1"><rect width="2" height="1" fill="#ff0000"/></svg>"##;
    let img = decode_svg(svg).unwrap();
    assert_eq!((img.width, img.height), (2, 1));
    assert_eq!(img.rgba, vec![255, 0, 0, 255, 255, 0, 0, 255]);
}

#[test]
fn decode_svg_reports_parse_errors() {
    assert!(decode_svg(b"not svg at all").is_err());
}

#[test]
fn refresh_under_a_filter_reads_the_ratings_again() {
    let mut db = Database::open_in_memory().unwrap();
    let dir = db.upsert_directory_by_path(DIR).unwrap();
    db.set_rating(dir.id, "a.png", Some(5)).unwrap();
    let entries = make_dir(&["a.png", "b.png"]);
    let filter = RatingFilter { op: RatingFilterOp::AtLeast, value: 3 };
    let mut l = DirectoryListing::scan(DIR, &entries, SortOrder::Name, Some(filter), Some(&mut db));
    assert_eq!(l.files, vec![join("a.png")]);
    db.set_rating(dir.id, "b.png", Some(4)).unwrap();
    l.refresh(&entries, SortOrder::Name, Some(&mut db));
    assert_eq!(l.files, vec![join("a.png"), join("b.png")]);
    assert_eq!(l.current_index, 0);
}
