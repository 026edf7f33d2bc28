//! The density at which the switcher window lays out its list.

use vstd::prelude::*;

verus! {

/// The density of an unscaled display, in dots per inch.
pub const BASE_DPI: u16 = 96;

/// The highest density the list is laid out at: beyond it the window, which already takes a
/// fixed share of its monitor, keeps its proportions.
pub const MAX_LAYOUT_DPI: u16 = 168;

/// The density the list is laid out at on a window of `window_dpi`: the window's own, held
/// between the base density and the highest layout density.
pub open spec fn bounded_dpi(window_dpi: u32) -> u16 {
    if window_dpi < BASE_DPI as u32 {
        BASE_DPI
    } else if window_dpi > MAX_LAYOUT_DPI as u32 {
        MAX_LAYOUT_DPI
    } else {
        window_dpi as u16
    }
}

/// The density the list is laid out at on a window of `window_dpi`.
pub fn layout_dpi(window_dpi: u32) -> (dpi: u16)
    ensures
        dpi == bounded_dpi(window_dpi),
        BASE_DPI <= dpi <= MAX_LAYOUT_DPI,
{
    if window_dpi < BASE_DPI as u32 {
        BASE_DPI
    } else if window_dpi > MAX_LAYOUT_DPI as u32 {
        MAX_LAYOUT_DPI
    } else {
        window_dpi as u16
    }
}

} // verus!
