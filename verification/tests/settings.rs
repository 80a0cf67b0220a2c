use rivett::settings::{AppSettings, DbMode, SortOrder, WindowGeometry};

#[test]
fn default_settings_are_sane() {
    let s = AppSettings::default();
    assert_eq!(s.default_sort, SortOrder::Name);
    assert_eq!(s.db_mode, DbMode::Central);
    assert!(s.window_geometry.is_none());
    assert!(s.central_db_path.is_none());
    assert!(!s.show_info_panel);
}

#[test]
fn default_window_geometry() {
    let g = WindowGeometry::default();
    assert_eq!((g.x, g.y, g.width, g.height), (100, 100, 1200, 800));
}

#[test]
fn enum_defaults() {
    assert_eq!(SortOrder::default(), SortOrder::Name);
    assert_eq!(DbMode::default(), DbMode::Central);
}

#[test]
fn config_path_is_inside_the_app_directory() {
    let p = AppSettings::config_path_from(Some("/home/u/.config".to_string()));
    assert_eq!(p.as_deref(), Some("/home/u/.config/rivett/settings.json"));
    assert_eq!(AppSettings::config_path_from(None), None);
    let d = AppSettings::config_dir_from(Some("/cfg".to_string()));
    assert_eq!(d.as_deref(), Some("/cfg/rivett"));
}

#[test]
fn central_db_prefers_the_override() {
    let mut s = AppSettings::default();
    assert_eq!(
        s.central_db_resolved_from(Some("/data".to_string())).as_deref(),
        Some("/data/rivett/ratings.db")
    );
    assert_eq!(s.central_db_resolved_from(None), None);
    s.central_db_path = Some("/tmp/test.db".to_string());
    assert_eq!(s.central_db_resolved_from(Some("/data".to_string())).as_deref(), Some("/tmp/test.db"));
    assert_eq!(s.central_db_resolved().as_deref(), Some("/tmp/test.db"));
}
