//! Light/dark mode: the `Personalize` registry values.

use vstd::prelude::*;

verus! {

/// The key that holds the theme values (under HKCU).
pub const PERSONALIZE_KEY: &'static str =
    "SOFTWARE\\Microsoft\\Windows\\CurrentVersion\\Themes\\Personalize";

/// Dark mode follows the app theme: `AppsUseLightTheme` reads 0.  A missing
/// value counts as light.
pub fn is_dark(apps_use_light_theme: Option<u32>) -> (r: bool)
    ensures
        r == (apps_use_light_theme == Some(0u32)),
{
    match apps_use_light_theme {
        Some(v) => v == 0,
        None => false,
    }
}

/// Switching to dark (or light): the value to write to both
/// `AppsUseLightTheme` and `SystemUsesLightTheme` — 0 for dark, 1 for light —
/// or `None` when the theme already is the asked one (nothing to write).
pub fn set_dark(currently_dark: bool, dark: bool) -> (r: Option<u32>)
    ensures
        currently_dark == dark ==> r is None,
        currently_dark != dark ==> r == Some(if dark {
            0u32
        } else {
            1u32
        }),
{
    if currently_dark == dark {
        None
    } else if dark {
        Some(0)
    } else {
        Some(1)
    }
}

} // verus!
