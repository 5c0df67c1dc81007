//! Application settings persisted by the viewer (the file format lives outside the library).

use vstd::prelude::*;

verus! {

broadcast use vstd::string::group_string_axioms;

/// Stored theme preference.
#[derive(Debug, Clone, Copy, PartialEq, Eq, Structural)]
pub enum ThemePreference {
    Dark,
    Light,
    System,
}

/// Stored UI density.
#[derive(Debug, Clone, Copy, PartialEq, Eq, Structural)]
pub enum UiDensity {
    Compact,
    Comfortable,
    Accessibility,
}

/// Which media kinds are registered as default open handlers.
#[derive(Debug, Clone, Copy, PartialEq, Eq, Structural)]
pub struct FileAssociations {
    pub images: bool,
    pub videos: bool,
    pub models: bool,
}

impl Default for FileAssociations {
    fn default() -> (r: Self)
        ensures
            !r.images && !r.videos && !r.models,
    {
        FileAssociations { images: false, videos: false, models: false }
    }
}

/// Application settings persisted to disk.
#[derive(Debug, Clone)]
pub struct AppSettings {
    pub locale: String,
    pub theme: ThemePreference,
    pub density: UiDensity,
    pub toolbar_auto_hide: bool,
    /// Text of the last opened directory.
    pub last_directory: Option<String>,
    pub file_associations: FileAssociations,
    /// Prefer hardware-accelerated video decode when the platform supports it.
    pub prefer_hw_decode: bool,
    pub show_subtitles: bool,
}

/// Value used for flags missing from a stored settings file.
pub fn default_true() -> (r: bool)
    ensures
        r,
{
    true
}

impl Default for AppSettings {
    fn default() -> (r: Self)
        ensures
            r.locale@ == "zh-Hans"@,
            r.theme == ThemePreference::Dark,
            r.density == UiDensity::Comfortable,
            r.toolbar_auto_hide,
            r.last_directory is None,
            !r.file_associations.images && !r.file_associations.videos
                && !r.file_associations.models,
            r.prefer_hw_decode,
            r.show_subtitles,
    {
        AppSettings {
            locale: String::from_str("zh-Hans"),
            theme: ThemePreference::Dark,
            density: UiDensity::Comfortable,
            toolbar_auto_hide: true,
            last_directory: None,
            file_associations: FileAssociations::default(),
            prefer_hw_decode: true,
            show_subtitles: true,
        }
    }
}

} // verus!
