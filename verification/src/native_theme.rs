//! Which app-wide appearance mode the native Windows menus are asked for.

use vstd::prelude::*;

verus! {

/// The first Windows build that offers the preferred app mode.
pub const SET_PREFERRED_APP_MODE_MINIMUM_BUILD: u32 = 18_362;

/// The app-wide appearance mode that native menus and dialogs follow.
#[derive(Clone, Copy, Debug, PartialEq, Eq, Structural)]
pub enum PreferredAppMode {
    ForceDark,
    ForceLight,
}

impl PreferredAppMode {
    /// The value that the system takes for the mode.
    pub fn code(self) -> (code: i32)
        ensures
            code == match self {
                PreferredAppMode::ForceDark => 2i32,
                PreferredAppMode::ForceLight => 3i32,
            },
    {
        match self {
            PreferredAppMode::ForceDark => 2,
            PreferredAppMode::ForceLight => 3,
        }
    }
}

/// The mode that follows the resolved theme: dark for a dark theme, light otherwise.
pub fn preferred_app_mode(dark: bool) -> (mode: PreferredAppMode)
    ensures
        mode == if dark {
            PreferredAppMode::ForceDark
        } else {
            PreferredAppMode::ForceLight
        },
{
    if dark {
        PreferredAppMode::ForceDark
    } else {
        PreferredAppMode::ForceLight
    }
}

/// Whether Windows build `build` offers the preferred app mode.
pub fn supports_set_preferred_app_mode(build: u32) -> (supported: bool)
    ensures
        supported == (build >= SET_PREFERRED_APP_MODE_MINIMUM_BUILD),
{
    build >= SET_PREFERRED_APP_MODE_MINIMUM_BUILD
}

} // verus!
