//! Persistent application settings. Reading and writing the settings file
//! happens around the library; here are the values and where they live.

use vstd::prelude::*;
use crate::paths::{path_join, path_join_of};

verus! {

/// How image files within a directory are ordered.
#[derive(Debug, Clone, Copy, PartialEq, Eq, Structural)]
pub enum SortOrder {
    Name,
    DateModified,
    FileSize,
}

impl Default for SortOrder {
    fn default() -> (r: Self)
        ensures
            r == SortOrder::Name,
    {
        SortOrder::Name
    }
}

/// Which database(s) are read and written.
#[derive(Debug, Clone, Copy, PartialEq, Eq, Structural)]
pub enum DbMode {
    /// Single SQLite file at a user-level path.
    Central,
    /// `.rivett.db` file co-located with each image directory.
    Local,
    /// Central and local DBs are both maintained; conflict resolution applies.
    Both,
}

impl Default for DbMode {
    fn default() -> (r: Self)
        ensures
            r == DbMode::Central,
    {
        DbMode::Central
    }
}

/// Saved window position and size, restored on next launch.
#[derive(Debug, Clone, Copy, PartialEq, Eq, Structural)]
pub struct WindowGeometry {
    pub x: i32,
    pub y: i32,
    pub width: u32,
    pub height: u32,
}

impl Default for WindowGeometry {
    fn default() -> (r: Self)
        ensures
            r == (WindowGeometry { x: 100, y: 100, width: 1200, height: 800 }),
    {
        WindowGeometry { x: 100, y: 100, width: 1200, height: 800 }
    }
}

/// Top-level persistent settings.
#[derive(Debug, Clone)]
pub struct AppSettings {
    pub default_sort: SortOrder,
    pub db_mode: DbMode,
    /// Restored on next launch; `None` means use the hardcoded default size.
    pub window_geometry: Option<WindowGeometry>,
    /// Override for the central DB path; `None` means the platform default.
    pub central_db_path: Option<String>,
    /// Whether the info panel shows; kept across launches.
    pub show_info_panel: bool,
}

impl Default for AppSettings {
    fn default() -> (r: Self)
        ensures
            r.default_sort == SortOrder::Name,
            r.db_mode == DbMode::Central,
            r.window_geometry is None,
            r.central_db_path is None,
            !r.show_info_panel,
    {
        AppSettings {
            default_sort: SortOrder::Name,
            db_mode: DbMode::Central,
            window_geometry: None,
            central_db_path: None,
            show_info_panel: false,
        }
    }
}

/// A record that `dirs::config_dir` reported `dir` as the platform's
/// per-user configuration directory (`None`: it found none). What it reports
/// depends on the platform and the environment (such as `XDG_CONFIG_HOME`
/// and `HOME`); nothing else is stated of it.
pub uninterp spec fn config_dir_reported(dir: Option<Seq<char>>) -> bool;

/// A record that `dirs::data_local_dir` reported `dir` as the platform's
/// per-user local data directory; it depends on the platform and the
/// environment, and nothing else is stated of it.
pub uninterp spec fn data_dir_reported(dir: Option<Seq<char>>) -> bool;

/// Calls `dirs::config_dir`, the platform's per-user configuration
/// directory, and records what it reported.
#[verifier::external_body]
fn platform_config_dir() -> (r: Option<String>)
    ensures
        config_dir_reported(crate::text::opt_view(r)),
{
    dirs::config_dir().map(|d| d.to_string_lossy().into_owned())
}

/// Calls `dirs::data_local_dir`, the platform's per-user local data
/// directory, and records what it reported.
#[verifier::external_body]
fn platform_data_local_dir() -> (r: Option<String>)
    ensures
        data_dir_reported(crate::text::opt_view(r)),
{
    dirs::data_local_dir().map(|d| d.to_string_lossy().into_owned())
}

/// The application's directory inside a configuration directory.
pub open spec fn app_config_dir_in(base: Seq<char>) -> Seq<char> {
    path_join_of(base, "rivett"@)
}

/// The settings file inside a configuration directory.
pub open spec fn settings_file_in(base: Seq<char>) -> Seq<char> {
    path_join_of(app_config_dir_in(base), "settings.json"@)
}

/// The default central database inside a local data directory.
pub open spec fn default_db_in(base: Seq<char>) -> Seq<char> {
    path_join_of(path_join_of(base, "rivett"@), "ratings.db"@)
}

impl AppSettings {
    /// The application's configuration directory, given the platform's.
    pub fn config_dir_from(platform_dir: Option<String>) -> (r: Option<String>)
        ensures
            match platform_dir {
                Some(d) => r is Some && r->0@ == app_config_dir_in(d@),
                None => r is None,
            },
    {
        match platform_dir {
            Some(d) => Some(path_join(d.as_str(), "rivett")),
            None => None,
        }
    }

    /// The settings file, given the platform's configuration directory.
    pub fn config_path_from(platform_dir: Option<String>) -> (r: Option<String>)
        ensures
            match platform_dir {
                Some(d) => r is Some && r->0@ == settings_file_in(d@),
                None => r is None,
            },
    {
        match Self::config_dir_from(platform_dir) {
            Some(d) => Some(path_join(d.as_str(), "settings.json")),
            None => None,
        }
    }

    /// Platform-specific config directory for the application: `rivett`
    /// inside the directory the platform reports, none where it reports none.
    pub fn config_dir() -> (r: Option<String>)
        ensures
            exists|d: Option<Seq<char>>| #[trigger] config_dir_reported(d) && match d {
                Some(d) => r is Some && r->0@ == app_config_dir_in(d),
                None => r is None,
            },
    {
        let platform = platform_config_dir();
        let ghost d = crate::text::opt_view(platform);
        let r = Self::config_dir_from(platform);
        assert(config_dir_reported(d));
        r
    }

    /// The settings file in the platform-specific config directory.
    pub fn config_path() -> (r: Option<String>)
        ensures
            exists|d: Option<Seq<char>>| #[trigger] config_dir_reported(d) && match d {
                Some(d) => r is Some && r->0@ == settings_file_in(d),
                None => r is None,
            },
    {
        let platform = platform_config_dir();
        let ghost d = crate::text::opt_view(platform);
        let r = Self::config_path_from(platform);
        assert(config_dir_reported(d));
        r
    }

    /// The central database path, given the platform's local data directory:
    /// the override if there is one, else `rivett/ratings.db` inside it.
    pub fn central_db_resolved_from(&self, data_dir: Option<String>) -> (r: Option<String>)
        ensures
            match self.central_db_path {
                Some(p) => r is Some && r->0@ == p@,
                None => match data_dir {
                    Some(d) => r is Some && r->0@ == default_db_in(d@),
                    None => r is None,
                },
            },
    {
        match &self.central_db_path {
            Some(p) => Some(p.clone()),
            None => match data_dir {
                Some(d) => {
                    let app_dir = path_join(d.as_str(), "rivett");
                    Some(path_join(app_dir.as_str(), "ratings.db"))
                },
                None => None,
            },
        }
    }

    /// Resolved path for the central SQLite database.
    pub fn central_db_resolved(&self) -> (r: Option<String>)
        ensures
            self.central_db_path matches Some(p) ==> r is Some && r->0@ == p@,
            self.central_db_path is None ==> exists|d: Option<Seq<char>>| #[trigger] data_dir_reported(d) && match d {
                Some(d) => r is Some && r->0@ == default_db_in(d),
                None => r is None,
            },
    {
        if self.central_db_path.is_some() {
            self.central_db_resolved_from(None)
        } else {
            let platform = platform_data_local_dir();
            let ghost d = crate::text::opt_view(platform);
            let r = self.central_db_resolved_from(platform);
            assert(data_dir_reported(d));
            r
        }
    }
}

} // verus!
