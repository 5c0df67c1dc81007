//! Theme selection and layout/viewer modes of the user interface.

use vstd::prelude::*;

use crate::settings::ThemePreference;

verus! {

broadcast use vstd::string::group_string_axioms;

/// UI density multipliers.
#[derive(Debug, Clone, Copy, PartialEq, Eq, Structural)]
pub enum Density {
    Compact,
    Comfortable,
    Accessibility,
}

impl Default for Density {
    fn default() -> (r: Self)
        ensures
            r == Density::Comfortable,
    {
        Density::Comfortable
    }
}

/// Layout mode derived from window width.
#[derive(Debug, Clone, Copy, PartialEq, Eq, Structural)]
pub enum LayoutMode {
    Compact,
    Comfortable,
    Spacious,
}

/// Viewer UI state machine.
#[derive(Debug, Clone, Copy, PartialEq, Eq, Structural)]
pub enum ViewerMode {
    Viewer,
    Immersive,
    ViewerWithInfo,
    Browse,
    Fullscreen,
}

impl Default for ViewerMode {
    fn default() -> (r: Self)
        ensures
            r == ViewerMode::Viewer,
    {
        ViewerMode::Viewer
    }
}

/// Whether dark visuals are used for a stored preference, given the system setting.
pub open spec fn spec_resolve_dark(pref: ThemePreference, system_dark: bool) -> bool {
    match pref {
        ThemePreference::Dark => true,
        ThemePreference::Light => false,
        ThemePreference::System => system_dark,
    }
}

/// Whether dark visuals are used for a stored preference, given the system setting.
pub fn resolve_dark(pref: ThemePreference, system_dark: bool) -> (r: bool)
    ensures
        r == spec_resolve_dark(pref, system_dark),
{
    match pref {
        ThemePreference::Dark => true,
        ThemePreference::Light => false,
        ThemePreference::System => system_dark,
    }
}

/// Complete theme bundle.
#[derive(Debug, Clone, Copy, PartialEq, Eq, Structural)]
pub struct Theme {
    pub density: Density,
    /// `true` = dark visuals, `false` = light visuals.
    pub dark: bool,
}

impl Default for Theme {
    fn default() -> (r: Self)
        ensures
            r.dark,
            r.density == Density::Comfortable,
    {
        Theme::dark()
    }
}

impl Theme {
    pub fn dark() -> (r: Self)
        ensures
            r.dark,
            r.density == Density::Comfortable,
    {
        Theme { density: Density::Comfortable, dark: true }
    }

    pub fn light() -> (r: Self)
        ensures
            !r.dark,
            r.density == Density::Comfortable,
    {
        Theme { density: Density::Comfortable, dark: false }
    }

    /// Resolve a stored preference into concrete dark/light visuals.
    pub fn from_preference(pref: ThemePreference, system_dark: bool) -> (r: Self)
        ensures
            r.dark == spec_resolve_dark(pref, system_dark),
            r.density == Density::Comfortable,
    {
        let dark = match pref {
            ThemePreference::Dark => true,
            ThemePreference::Light => false,
            ThemePreference::System => system_dark,
        };
        if dark {
            Self::dark()
        } else {
            Self::light()
        }
    }
}

/// Shading / material preview modes of the 3D viewport.
#[derive(Debug, Clone, Copy, PartialEq, Eq, Structural)]
pub enum MaterialMode {
    Original,
    Clay,
    Checker,
    Wireframe,
    Normals,
}

impl Default for MaterialMode {
    fn default() -> (r: Self)
        ensures
            r == MaterialMode::Original,
    {
        MaterialMode::Original
    }
}

impl MaterialMode {
    /// Every mode, in menu order.
    pub const ALL: [MaterialMode; 5] = [
        MaterialMode::Original,
        MaterialMode::Clay,
        MaterialMode::Checker,
        MaterialMode::Wireframe,
        MaterialMode::Normals,
    ];

    /// Translation key of the mode's label.
    pub fn label_key(self) -> (r: &'static str)
        ensures
            r@ == match self {
                MaterialMode::Original => "model-mat-original"@,
                MaterialMode::Clay => "model-mat-clay"@,
                MaterialMode::Checker => "model-mat-checker"@,
                MaterialMode::Wireframe => "model-mat-wireframe"@,
                MaterialMode::Normals => "model-mat-normals"@,
            },
    {
        match self {
            MaterialMode::Original => "model-mat-original",
            MaterialMode::Clay => "model-mat-clay",
            MaterialMode::Checker => "model-mat-checker",
            MaterialMode::Wireframe => "model-mat-wireframe",
            MaterialMode::Normals => "model-mat-normals",
        }
    }
}

} // verus!
