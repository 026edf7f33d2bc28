//! Which icon resource of the executable stands for each accent colour: one for windows and one
//! for the notification area.

use crate::settings::IconColor;
use vstd::prelude::*;

verus! {

/// The place of `icon` among the accent colours, from 1.
pub open spec fn color_number(icon: IconColor) -> usize {
    match icon {
        IconColor::Azure => 1,
        IconColor::Copper => 2,
        IconColor::Ember => 3,
        IconColor::Indigo => 4,
        IconColor::Orchid => 5,
        IconColor::Rosewood => 6,
        IconColor::Vermilion => 7,
        IconColor::Violet => 8,
    }
}

/// The resource id of the window icon in `icon`'s colour.
pub fn app_resource_id(icon: IconColor) -> (id: usize)
    ensures
        id == color_number(icon),
{
    match icon {
        IconColor::Azure => 1,
        IconColor::Copper => 2,
        IconColor::Ember => 3,
        IconColor::Indigo => 4,
        IconColor::Orchid => 5,
        IconColor::Rosewood => 6,
        IconColor::Vermilion => 7,
        IconColor::Violet => 8,
    }
}

/// The resource id of the notification-area icon in `icon`'s colour.
pub fn tray_resource_id(icon: IconColor) -> (id: usize)
    ensures
        id == 100 + color_number(icon),
{
    match icon {
        IconColor::Azure => 101,
        IconColor::Copper => 102,
        IconColor::Ember => 103,
        IconColor::Indigo => 104,
        IconColor::Orchid => 105,
        IconColor::Rosewood => 106,
        IconColor::Vermilion => 107,
        IconColor::Violet => 108,
    }
}

/// Each colour has window and notification-area icons of its own: two colours share no
/// resource, and every window icon comes before every notification-area icon.
pub proof fn law_each_color_has_its_own_icons(first: IconColor, second: IconColor)
    ensures
        (color_number(first) == color_number(second)) == (first == second),
        color_number(first) < 100 + color_number(second),
{
}

} // verus!
