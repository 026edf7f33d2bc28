//! The commands of the menu bar item.

use vstd::prelude::*;

verus! {

#[derive(Clone, Copy, Debug, PartialEq, Eq, Structural)]
pub enum MenuAction {
    ShowSwitcher,
    OpenSettings,
    ShowAbout,
    Quit,
}

} // verus!
