//! What the switcher panel does with the pointer: hovering a tile arms the dwell that selects
//! its app, hovering a row selects its window, a click on a tile or row selects and a release on
//! the same target activates, and a press and release on a row's close button closes the window.

use crate::macos::overlay::{CloseButton, Hit};
use vstd::prelude::*;

verus! {

/// What the panel drew last, as far as the pointer needs it: the first tile and row in view, and
/// the selected window's row.
#[derive(Clone, Copy, Debug, PartialEq, Eq, Structural)]
pub struct ShownList {
    pub tile_start: usize,
    pub row_start: usize,
    pub selected_row: Option<usize>,
}

/// The pointer's state over the panel: what the left button went down on, the close button's
/// state, and the tile that the pointer rests on.
#[derive(Clone, Copy, Debug, Default, PartialEq, Eq, Structural)]
pub struct PanelPointer {
    pub pressed: Option<Hit>,
    pub close_button: CloseButton,
    pub hovered_tile: Option<usize>,
}

/// Where the pointer stands against the place where the panel opened under it.
#[derive(Clone, Copy, Debug, PartialEq, Eq, Structural)]
pub enum PointerOrigin {
    /// The pointer has already moved away once, or the panel did not open under it.
    Left,
    /// The pointer is still near where the panel opened: hovering is not yet armed.
    Near,
    /// The pointer has just moved far enough from where the panel opened.
    Away,
}

/// A window of an app, by their places in the switcher.
#[derive(Clone, Copy, Debug, PartialEq, Eq, Structural)]
pub struct WindowChoice {
    pub app: usize,
    pub window: usize,
}

/// What the panel does after the pointer moves.
#[derive(Clone, Copy, Debug, PartialEq, Eq, Structural)]
pub struct HoverReaction {
    /// Forget where the panel opened: hovering is armed from now on.
    pub forget_origin: bool,
    /// Stop the dwell timer of the tile the pointer rested on.
    pub cancel_dwell: bool,
    /// Start a dwell timer that selects this app if the pointer stays on its tile.
    pub start_dwell: Option<usize>,
    /// Select this window of this app.
    pub select_window: Option<WindowChoice>,
    /// Redraw the panel for the close button's new state.
    pub redraw: bool,
}

/// What the panel does after the left button goes down.
#[derive(Clone, Copy, Debug, PartialEq, Eq, Structural)]
pub enum PressReaction {
    Nothing,
    /// Redraw the pressed close button.
    Redraw,
    /// Stop the dwell timer and select this app with its last-used window.
    SelectApp(usize),
    /// Select this window of this app.
    SelectWindow { app: usize, window: usize },
}

/// What the panel does after the left button comes up.
#[derive(Clone, Copy, Debug, PartialEq, Eq, Structural)]
pub enum ReleaseReaction {
    Nothing,
    /// Redraw the released close button.
    Redraw,
    /// Close the selected window, then redraw the released close button.
    CloseWindowAndRedraw,
    /// Switch to the selection.
    Activate,
}

/// The app of a tile hit, counted from the first app in view.
pub open spec fn hit_tile(shown: ShownList, hit: Option<Hit>) -> Option<usize> {
    match hit {
        Some(Hit::Tile(slot)) => Some((shown.tile_start + slot) as usize),
        _ => None,
    }
}

/// The pointer after it moves onto `hit`, and the panel's reaction, where `origin` says how it
/// stands against where the panel opened and `selected_app` is the app now selected.
pub open spec fn hover_step(
    pointer: PanelPointer,
    shown: ShownList,
    hit: Option<Hit>,
    origin: PointerOrigin,
    selected_app: Option<usize>,
) -> (PanelPointer, HoverReaction) {
    let hovered = hit matches Some(Hit::CloseButton(_));
    let close_changed = hovered != pointer.close_button.hovered;
    let close_button = CloseButton { hovered, ..pointer.close_button };
    if origin == PointerOrigin::Near {
        (
            PanelPointer { close_button, ..pointer },
            HoverReaction {
                forget_origin: false,
                cancel_dwell: false,
                start_dwell: None,
                select_window: None,
                redraw: close_changed,
            },
        )
    } else {
        let tile = hit_tile(shown, hit);
        let tile_changed = tile != pointer.hovered_tile;
        let start_dwell = if tile_changed {
            match tile {
                Some(app) => if Some(app) != selected_app {
                    Some(app)
                } else {
                    None
                },
                None => None,
            }
        } else {
            None
        };
        let app = match selected_app {
            Some(app) => app,
            None => 0,
        };
        let select_window = match hit {
            Some(Hit::Row(row)) => if !close_button.pressed && shown.selected_row != Some(row) {
                Some(WindowChoice { app, window: (shown.row_start + row) as usize })
            } else {
                None
            },
            _ => None,
        };
        (
            PanelPointer {
                close_button,
                hovered_tile: if tile_changed {
                    tile
                } else {
                    pointer.hovered_tile
                },
                ..pointer
            },
            HoverReaction {
                forget_origin: origin == PointerOrigin::Away,
                cancel_dwell: tile_changed,
                start_dwell,
                select_window,
                redraw: select_window is None && close_changed,
            },
        )
    }
}

/// The pointer after the left button goes down on `hit`, and the panel's reaction.
pub open spec fn press_step(
    pointer: PanelPointer,
    shown: ShownList,
    hit: Option<Hit>,
    selected_app: Option<usize>,
) -> (PanelPointer, PressReaction) {
    let app = match selected_app {
        Some(app) => app,
        None => 0,
    };
    match hit {
        Some(Hit::CloseButton(_)) => (
            PanelPointer { close_button: CloseButton { pressed: true, ..pointer.close_button }, ..pointer },
            PressReaction::Redraw,
        ),
        Some(Hit::Tile(slot)) => (
            PanelPointer { pressed: hit, ..pointer },
            PressReaction::SelectApp((shown.tile_start + slot) as usize),
        ),
        Some(Hit::Row(row)) => (
            PanelPointer { pressed: hit, ..pointer },
            PressReaction::SelectWindow { app, window: (shown.row_start + row) as usize },
        ),
        None => (pointer, PressReaction::Nothing),
    }
}

/// The pointer after the left button comes up on `hit`, and the panel's reaction.
pub open spec fn release_step(pointer: PanelPointer, hit: Option<Hit>) -> (
    PanelPointer,
    ReleaseReaction,
) {
    let released = PanelPointer { pressed: None, ..pointer };
    if pointer.close_button.pressed {
        (
            PanelPointer { close_button: CloseButton { pressed: false, ..pointer.close_button }, ..released },
            if hit matches Some(Hit::CloseButton(_)) {
                ReleaseReaction::CloseWindowAndRedraw
            } else {
                ReleaseReaction::Redraw
            },
        )
    } else if hit is Some && hit == pointer.pressed {
        (released, ReleaseReaction::Activate)
    } else {
        (released, ReleaseReaction::Nothing)
    }
}

/// Whether the places that a hit names can be counted from the first tile and row in view.
pub open spec fn countable(shown: ShownList, hit: Option<Hit>) -> bool {
    match hit {
        Some(Hit::Tile(slot)) => shown.tile_start + slot <= usize::MAX,
        Some(Hit::Row(row)) => shown.row_start + row <= usize::MAX,
        _ => true,
    }
}

impl PanelPointer {
    /// A panel that has just opened: nothing pressed or hovered.
    pub fn new() -> (pointer: Self)
        ensures
            pointer.pressed is None,
            !pointer.close_button.hovered,
            !pointer.close_button.pressed,
            pointer.hovered_tile is None,
    {
        PanelPointer {
            pressed: None,
            close_button: CloseButton { hovered: false, pressed: false },
            hovered_tile: None,
        }
    }

    /// The pointer moved onto `hit`.
    pub fn hover(
        &mut self,
        shown: ShownList,
        hit: Option<Hit>,
        origin: PointerOrigin,
        selected_app: Option<usize>,
    ) -> (reaction: HoverReaction)
        requires
            countable(shown, hit),
        ensures
            (*final(self), reaction) == hover_step(*old(self), shown, hit, origin, selected_app),
    {
        let hovered = match hit {
            Some(Hit::CloseButton(_)) => true,
            _ => false,
        };
        let close_changed = hovered != self.close_button.hovered;
        self.close_button.hovered = hovered;
        if origin == PointerOrigin::Near {
            return HoverReaction {
                forget_origin: false,
                cancel_dwell: false,
                start_dwell: None,
                select_window: None,
                redraw: close_changed,
            };
        }
        let tile = match hit {
            Some(Hit::Tile(slot)) => Some(shown.tile_start + slot),
            _ => None,
        };
        let tile_changed = tile != self.hovered_tile;
        let mut start_dwell = None;
        if tile_changed {
            self.hovered_tile = tile;
            if let Some(app) = tile {
                if Some(app) != selected_app {
                    start_dwell = Some(app);
                }
            }
        }
        let app = match selected_app {
            Some(app) => app,
            None => 0,
        };
        let select_window = match hit {
            Some(Hit::Row(row)) => if !self.close_button.pressed && shown.selected_row != Some(
                row,
            ) {
                Some(WindowChoice { app, window: shown.row_start + row })
            } else {
                None
            },
            _ => None,
        };
        HoverReaction {
            forget_origin: origin == PointerOrigin::Away,
            cancel_dwell: tile_changed,
            start_dwell,
            select_window,
            redraw: select_window.is_none() && close_changed,
        }
    }

    /// The left button went down on `hit`.
    pub fn press(&mut self, shown: ShownList, hit: Option<Hit>, selected_app: Option<usize>) -> (reaction:
        PressReaction)
        requires
            countable(shown, hit),
        ensures
            (*final(self), reaction) == press_step(*old(self), shown, hit, selected_app),
    {
        match hit {
            Some(Hit::CloseButton(_)) => {
                self.close_button.pressed = true;
                PressReaction::Redraw
            },
            Some(Hit::Tile(slot)) => {
                self.pressed = hit;
                PressReaction::SelectApp(shown.tile_start + slot)
            },
            Some(Hit::Row(row)) => {
                self.pressed = hit;
                let app = match selected_app {
                    Some(app) => app,
                    None => 0,
                };
                PressReaction::SelectWindow { app, window: shown.row_start + row }
            },
            None => PressReaction::Nothing,
        }
    }

    /// The left button came up on `hit`.
    pub fn release(&mut self, hit: Option<Hit>) -> (reaction: ReleaseReaction)
        ensures
            (*final(self), reaction) == release_step(*old(self), hit),
    {
        let pressed = self.pressed;
        self.pressed = None;
        if self.close_button.pressed {
            self.close_button.pressed = false;
            match hit {
                Some(Hit::CloseButton(_)) => ReleaseReaction::CloseWindowAndRedraw,
                _ => ReleaseReaction::Redraw,
            }
        } else if hit.is_some() && hit == pressed {
            ReleaseReaction::Activate
        } else {
            ReleaseReaction::Nothing
        }
    }
}

/// A click, press and release on the same tile or row, selects on the press and activates on
/// the release; released anywhere else it activates nothing.
pub proof fn law_click_activates_where_it_pressed(
    pointer: PanelPointer,
    shown: ShownList,
    down: Hit,
    up: Option<Hit>,
    selected_app: Option<usize>,
)
    requires
        !pointer.close_button.pressed,
        !(down is CloseButton),
    ensures
        ({
            let (pressed, _) = press_step(pointer, shown, Some(down), selected_app);
            let (released, reaction) = release_step(pressed, up);
            &&& (reaction == ReleaseReaction::Activate) == (up == Some(down))
            &&& released.pressed is None
        }),
{
}

/// The selected window is closed only by a press and a release both on a close button; a
/// press there released elsewhere closes nothing, and neither activates.
pub proof fn law_close_needs_press_and_release(
    pointer: PanelPointer,
    shown: ShownList,
    down_row: usize,
    up: Option<Hit>,
    selected_app: Option<usize>,
)
    ensures
        ({
            let (pressed, _) = press_step(
                pointer,
                shown,
                Some(Hit::CloseButton(down_row)),
                selected_app,
            );
            let (released, reaction) = release_step(pressed, up);
            &&& (reaction == ReleaseReaction::CloseWindowAndRedraw) == (up matches Some(
                Hit::CloseButton(_),
            ))
            &&& reaction != ReleaseReaction::Activate
            &&& !released.close_button.pressed
        }),
{
}

/// Until the pointer has moved away from where the panel opened, hovering selects nothing and
/// starts no dwell; it only follows the close button's hover state.
pub proof fn law_hover_waits_for_the_pointer_to_leave(
    pointer: PanelPointer,
    shown: ShownList,
    hit: Option<Hit>,
    selected_app: Option<usize>,
)
    ensures
        ({
            let (after, reaction) = hover_step(
                pointer,
                shown,
                hit,
                PointerOrigin::Near,
                selected_app,
            );
            &&& reaction.select_window is None
            &&& reaction.start_dwell is None
            &&& !reaction.cancel_dwell
            &&& after.hovered_tile == pointer.hovered_tile
            &&& after.pressed == pointer.pressed
        }),
{
}

/// A dwell starts only for a tile that the pointer has just moved onto and whose app is not
/// selected already.
pub proof fn law_dwell_starts_only_on_a_new_unselected_tile(
    pointer: PanelPointer,
    shown: ShownList,
    hit: Option<Hit>,
    origin: PointerOrigin,
    selected_app: Option<usize>,
)
    ensures
        ({
            let (after, reaction) = hover_step(pointer, shown, hit, origin, selected_app);
            reaction.start_dwell matches Some(app) ==> {
                &&& hit_tile(shown, hit) == Some(app)
                &&& pointer.hovered_tile != Some(app)
                &&& selected_app != Some(app)
                &&& after.hovered_tile == Some(app)
                &&& reaction.cancel_dwell
            }
        }),
{
}

} // verus!
