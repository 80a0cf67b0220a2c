use rivett::db::{map_image_row, Database, SqlValue};
use rivett::session::{RatingFilter, RatingFilterOp};

fn db() -> Database {
    Database::open_in_memory().expect("in-memory DB")
}

#[test]
fn schema_initialises_cleanly() {
    db();
}

#[test]
fn upsert_directory_creates_new_record() {
    let mut db = db();
    let rec = db.upsert_directory_by_path("/photos").unwrap();
    assert_eq!(rec.path, "/photos");
    assert!(!rec.uuid.is_empty());
}

#[test]
fn new_directories_get_a_hyphenated_uuid() {
    let mut db = db();
    let rec = db.upsert_directory_by_path("/photos").unwrap();
    assert_eq!(rec.uuid.len(), 36);
    assert_eq!(rec.uuid.matches('-').count(), 4);
    assert_eq!(rec.path_last_verified_at, Some(rec.created_at));
    assert!(rec.sort_override.is_none());
}

#[test]
fn upsert_directory_is_idempotent() {
    let mut db = db();
    let a = db.upsert_directory_by_path("/photos").unwrap();
    let b = db.upsert_directory_by_path("/photos").unwrap();
    assert_eq!(a.id, b.id);
    assert_eq!(a.uuid, b.uuid);
}

#[test]
fn set_and_get_rating() {
    let mut db = db();
    let dir = db.upsert_directory_by_path("/photos").unwrap();
    db.set_rating(dir.id, "img.jpg", Some(4)).unwrap();
    let img = db.get_image(dir.id, "img.jpg").unwrap().unwrap();
    assert_eq!(img.rating, Some(4));
}

#[test]
fn clearing_rating_gcs_otherwise_empty_record() {
    let mut db = db();
    let dir = db.upsert_directory_by_path("/photos").unwrap();
    db.set_rating(dir.id, "img.jpg", Some(3)).unwrap();
    db.set_rating(dir.id, "img.jpg", None).unwrap();
    assert!(db.get_image(dir.id, "img.jpg").unwrap().is_none(), "record should be GC'd when it carries no data");
}

#[test]
fn rating_and_bookmark_together_survive_gc() {
    let mut db = db();
    let dir = db.upsert_directory_by_path("/photos").unwrap();
    db.set_rating(dir.id, "img.jpg", Some(5)).unwrap();
    db.set_bookmark(dir.id, "img.jpg", true).unwrap();
    // Clearing rating alone should not delete the row (bookmark remains)
    db.set_rating(dir.id, "img.jpg", None).unwrap();
    let img = db.get_image(dir.id, "img.jpg").unwrap();
    assert!(img.is_some(), "bookmark should keep the row alive");
    assert!(img.unwrap().bookmarked);
}

#[test]
fn set_note_persists() {
    let mut db = db();
    let dir = db.upsert_directory_by_path("/photos").unwrap();
    db.set_note(dir.id, "img.jpg", Some("keeper")).unwrap();
    let img = db.get_image(dir.id, "img.jpg").unwrap().unwrap();
    assert_eq!(img.note.as_deref(), Some("keeper"));
}

#[test]
fn get_bookmarked_returns_only_bookmarked() {
    let mut db = db();
    let dir = db.upsert_directory_by_path("/photos").unwrap();
    db.set_bookmark(dir.id, "a.jpg", true).unwrap();
    db.set_rating(dir.id, "b.jpg", Some(5)).unwrap(); // rated, not bookmarked
    let results = db.get_bookmarked().unwrap();
    assert_eq!(results.len(), 1);
    assert_eq!(results[0].1.filename, "a.jpg");
}

#[test]
fn get_rated_returns_only_rated() {
    let mut db = db();
    let dir = db.upsert_directory_by_path("/photos").unwrap();
    db.set_bookmark(dir.id, "a.jpg", true).unwrap();
    db.set_rating(dir.id, "b.jpg", Some(3)).unwrap();
    let results = db.get_rated().unwrap();
    assert_eq!(results.len(), 1);
    assert_eq!(results[0].1.filename, "b.jpg");
}

#[test]
fn settings_round_trip() {
    let mut db = db();
    db.set_setting("theme", "dark").unwrap();
    assert_eq!(db.get_setting("theme").unwrap().as_deref(), Some("dark"));
}

#[test]
fn settings_upsert_overwrites() {
    let mut db = db();
    db.set_setting("theme", "light").unwrap();
    db.set_setting("theme", "dark").unwrap();
    assert_eq!(db.get_setting("theme").unwrap().as_deref(), Some("dark"));
}

#[test]
fn missing_setting_returns_none() {
    assert!(db().get_setting("no_such_key").unwrap().is_none());
}

#[test]
fn clearing_a_note_gcs_the_record() {
    let mut db = db();
    let dir = db.upsert_directory_by_path("/photos").unwrap();
    db.set_note(dir.id, "img.jpg", Some("x")).unwrap();
    db.set_note(dir.id, "img.jpg", Some("")).unwrap();
    assert!(db.get_image(dir.id, "img.jpg").unwrap().is_none(), "an empty note carries no data");
}

#[test]
fn rated_view_orders_by_rating() {
    let mut db = db();
    let dir = db.upsert_directory_by_path("/photos").unwrap();
    db.set_rating(dir.id, "low.jpg", Some(1)).unwrap();
    db.set_rating(dir.id, "high.jpg", Some(5)).unwrap();
    db.set_rating(dir.id, "mid.jpg", Some(3)).unwrap();
    let names: Vec<_> = db.get_rated().unwrap().into_iter().map(|(d, r)| (d, r.filename)).collect();
    assert_eq!(names[0], ("/photos".to_string(), "high.jpg".to_string()));
    assert_eq!(names[2].1, "low.jpg");
    let filtered = db.get_rated_filtered(RatingFilter { op: RatingFilterOp::AtLeast, value: 3 }).unwrap();
    assert_eq!(filtered.len(), 2);
    assert!(filtered.iter().all(|(_, r)| r.rating.unwrap() >= 3));
}

#[test]
fn directories_are_found_by_uuid_and_moved() {
    let mut db = db();
    let rec = db.upsert_directory_by_path("/old").unwrap();
    let found = db.find_directory_by_uuid(&rec.uuid).unwrap().unwrap();
    assert_eq!(found.id, rec.id);
    db.update_directory_path(rec.id, "/new").unwrap();
    assert!(db.find_directory_by_path("/old").unwrap().is_none());
    assert_eq!(db.find_directory_by_path("/new").unwrap().unwrap().uuid, rec.uuid);
    assert!(db.find_directory_by_uuid("missing").unwrap().is_none());
}

#[test]
fn images_of_a_directory_can_be_listed_and_deleted() {
    let mut db = db();
    let dir = db.upsert_directory_by_path("/photos").unwrap();
    db.set_rating(dir.id, "a.jpg", Some(2)).unwrap();
    db.set_bookmark(dir.id, "b.jpg", true).unwrap();
    assert_eq!(db.get_images(dir.id).unwrap().len(), 2);
    db.delete_image(dir.id, "a.jpg").unwrap();
    let left = db.get_images(dir.id).unwrap();
    assert_eq!(left.len(), 1);
    assert_eq!(left[0].filename, "b.jpg");
}

#[test]
fn image_row_decoding_truncates_rating_and_reads_bookmark() {
    let row = vec![
        SqlValue::Integer(7),
        SqlValue::Integer(1),
        SqlValue::Text(b"x.png".to_vec()),
        SqlValue::Integer(0),
        SqlValue::Integer(0),
        SqlValue::Integer(261),
        SqlValue::Integer(2),
        SqlValue::Null,
        SqlValue::Integer(10),
        SqlValue::Integer(11),
    ];
    let rec = map_image_row(&row, 0).unwrap();
    assert_eq!(rec.rating, Some(5));
    assert!(rec.bookmarked);
    assert_eq!(rec.filename, "x.png");
    assert!(rec.note.is_none());
}

#[test]
fn image_row_decoding_rejects_wrong_types() {
    let mut row = vec![SqlValue::Integer(0); 10];
    row[2] = SqlValue::Text(b"x".to_vec());
    row[7] = SqlValue::Null;
    assert!(map_image_row(&row, 0).is_ok());
    row[2] = SqlValue::Integer(3);
    assert!(map_image_row(&row, 0).is_err());
    row[2] = SqlValue::Text(vec![0xff, 0xfe]);
    assert!(map_image_row(&row, 0).is_err(), "invalid UTF-8 is rejected");
    row[2] = SqlValue::Text(b"x".to_vec());
    row[5] = SqlValue::Real;
    assert!(map_image_row(&row, 0).is_err());
}
