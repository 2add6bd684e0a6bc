//! The light or dark appearance: what the user prefers, and the theme that
//! follows from it and the system's appearance.

use vstd::prelude::*;

verus! {

/// The appearance the user chose.
#[derive(Copy, Clone, PartialEq, Eq, Debug, Structural)]
pub enum AppearancePref {
    Light,
    Dark,
    System,
}

impl Default for AppearancePref {
    fn default() -> (r: AppearancePref)
        ensures
            r == AppearancePref::System,
    {
        AppearancePref::System
    }
}

/// The appearance the operating system reports for a window.
#[derive(Copy, Clone, PartialEq, Eq, Debug, Structural)]
pub enum WindowAppearance {
    Light,
    VibrantLight,
    Dark,
    VibrantDark,
}

/// The appearance in effect.
#[derive(Copy, Clone, PartialEq, Eq, Debug, Structural)]
pub enum ResolvedAppearance {
    Light,
    Dark,
}

/// The theme used in the light appearance.
pub const LIGHT_THEME: &'static str = "macOS Classic Light";

/// The theme used in the dark appearance.
pub const DARK_THEME: &'static str = "macOS Classic Dark";

/// The appearance in effect: the user's choice, or with `System` the
/// system's, vibrant or not.
pub open spec fn resolved(pref: AppearancePref, system: WindowAppearance) -> ResolvedAppearance {
    match pref {
        AppearancePref::Light => ResolvedAppearance::Light,
        AppearancePref::Dark => ResolvedAppearance::Dark,
        AppearancePref::System => match system {
            WindowAppearance::Dark | WindowAppearance::VibrantDark => ResolvedAppearance::Dark,
            WindowAppearance::Light | WindowAppearance::VibrantLight => ResolvedAppearance::Light,
        },
    }
}

/// The appearance in effect for this preference and system appearance.
pub fn resolve(pref: AppearancePref, system: WindowAppearance) -> (r: ResolvedAppearance)
    ensures
        r == resolved(pref, system),
{
    match pref {
        AppearancePref::Light => ResolvedAppearance::Light,
        AppearancePref::Dark => ResolvedAppearance::Dark,
        AppearancePref::System => match system {
            WindowAppearance::Dark | WindowAppearance::VibrantDark => ResolvedAppearance::Dark,
            WindowAppearance::Light | WindowAppearance::VibrantLight => ResolvedAppearance::Light,
        },
    }
}

/// The name of the theme to apply for this preference and system
/// appearance, as `sync_theme_from_appearance` applies it.
pub fn theme_for_appearance(pref: AppearancePref, system: WindowAppearance) -> (r: &'static str)
    ensures
        r == (match resolved(pref, system) {
            ResolvedAppearance::Light => LIGHT_THEME,
            ResolvedAppearance::Dark => DARK_THEME,
        }),
{
    match resolve(pref, system) {
        ResolvedAppearance::Light => LIGHT_THEME,
        ResolvedAppearance::Dark => DARK_THEME,
    }
}

/// An explicit choice holds whatever the system shows; `System` follows the
/// system, vibrant or not.
pub proof fn explicit_choice_overrides_the_system(system: WindowAppearance)
    ensures
        resolved(AppearancePref::Light, system) == ResolvedAppearance::Light,
        resolved(AppearancePref::Dark, system) == ResolvedAppearance::Dark,
        (resolved(AppearancePref::System, system) == ResolvedAppearance::Dark) == (system
            == WindowAppearance::Dark || system == WindowAppearance::VibrantDark),
{
}

} // verus!
