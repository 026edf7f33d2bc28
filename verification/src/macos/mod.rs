//! The decisions of the macOS switcher: its gesture machine, key map, footer text, window order
//! and list scrolling.

pub mod hotkey;
pub mod keymap;
pub mod listing;
pub mod overlay;
pub mod permissions;
pub mod pointer;
pub mod preview;
pub mod settings_window;
pub mod shortcuts;
pub mod status_item;
pub mod window_list;

use vstd::prelude::*;

verus! {

/// A value made on a background queue to be handed, untouched, to the main thread.
pub struct MainThreadValue<T>(pub T);

} // verus!
