use rivett::image_loader::{DirectoryListing, FileEntry};
use rivett::session::{RatingFilter, RatingFilterOp, SessionState};
use rivett::settings::SortOrder;
use rivett::ui_text::{entry_display, rating_label, rating_toast, window_title, EntryDisplay};
use rivett::metadata::MetaEntry;

fn listing(dir: &str, names: &[&str]) -> DirectoryListing {
    let entries: Vec<FileEntry> = names
        .iter()
        .map(|n| FileEntry { path: format!("{dir}/{n}"), is_file: true, size: 0, modified: 0 })
        .collect();
    DirectoryListing::scan(dir, &entries, SortOrder::Name, None, None)
}

#[test]
fn title_without_image_or_filter() {
    assert_eq!(window_title(None, None, None), "Rivett");
}

#[test]
fn title_names_the_open_file() {
    assert_eq!(window_title(Some("/p/a.png"), None, None), "/p/a.png — Rivett");
}

#[test]
fn title_shows_the_filter_scope() {
    let f = RatingFilter { op: RatingFilterOp::AtLeast, value: 4 };
    let folder = listing("/p", &["a.png"]);
    assert_eq!(window_title(Some("/p/a.png"), Some(f), Some(&folder)), "/p/a.png — Rivett (Folder: ★ 4+)");
    let library = listing("", &[]);
    assert_eq!(window_title(None, Some(f), Some(&library)), "Rivett (Library: ★ 4+)");
}

#[test]
fn rating_messages() {
    assert_eq!(rating_toast(Some(3)), "Rated: ★★★ stars");
    assert_eq!(rating_toast(None), "Rating cleared");
    assert_eq!(rating_label(Some(2)), "Rating: ★★ (2)");
    assert_eq!(rating_label(None), "Rating: — (unrated)");
}

#[test]
fn navigation_skips_hidden_images() {
    let mut l = listing("/p", &["a.png", "b.png", "c.png", "d.png"]);
    let mut s = SessionState::<()>::new(SortOrder::Name);
    s.ignore_image("/p/b.png".to_string());
    s.ignore_image("/p/c.png".to_string());
    assert!(l.go_next_visible(&s));
    assert_eq!(l.current_index, 3);
    assert!(l.go_prev_visible(&s));
    assert_eq!(l.current_index, 0);
    assert!(!l.go_prev_visible(&s));
}

#[test]
fn navigation_past_hidden_images_stops_at_the_end() {
    let mut l = listing("/p", &["a.png", "b.png", "c.png"]);
    let mut s = SessionState::<()>::new(SortOrder::Name);
    s.ignore_image("/p/b.png".to_string());
    s.ignore_image("/p/c.png".to_string());
    assert!(l.go_next_visible(&s));
    assert_eq!(l.current_index, 2);
    assert!(!l.go_next_visible(&s));
    assert_eq!(l.current_index, 2);
}

fn meta(key: &str, value: &str) -> MetaEntry {
    MetaEntry { key: key.to_string(), value: value.to_string() }
}

#[test]
fn short_single_line_entries_are_inline() {
    assert_eq!(entry_display(&meta("Software", "GIMP 2.10")), EntryDisplay::Inline);
    // Exactly 120 bytes is still short.
    assert_eq!(entry_display(&meta("k", &"x".repeat(120))), EntryDisplay::Inline);
}

#[test]
fn long_or_multiline_entries_collapse() {
    assert_eq!(
        entry_display(&meta("k", &"x".repeat(121))),
        EntryDisplay::Collapsible { open_by_default: false }
    );
    // 41 three-byte characters are 123 bytes.
    assert_eq!(
        entry_display(&meta("k", &"★".repeat(41))),
        EntryDisplay::Collapsible { open_by_default: false }
    );
    assert_eq!(
        entry_display(&meta("workflow", "a\nb")),
        EntryDisplay::Collapsible { open_by_default: false }
    );
}

#[test]
fn multiline_parameters_start_open() {
    assert_eq!(
        entry_display(&meta("Parameters", "a cat\nSteps: 20")),
        EntryDisplay::Collapsible { open_by_default: true }
    );
    // A long one-line value stays closed.
    assert_eq!(
        entry_display(&meta("parameters", &"p".repeat(200))),
        EntryDisplay::Collapsible { open_by_default: false }
    );
}
