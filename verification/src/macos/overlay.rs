//! The list part of the switcher panel: which rows are in view, the note about the rest, and
//! the labels of window states.

use crate::text::{decimal, decimal_string};
use crate::input::WindowCommand;
use vstd::prelude::*;
use vstd::string::*;

verus! {

#[derive(Clone, Copy, Debug, Default, PartialEq, Eq, Structural)]
pub enum CloseButtonVisualState {
    #[default]
    Normal,
    Hovered,
    Pressed,
}

/// The pointer's relation to a row's close button.
#[derive(Clone, Copy, Debug, Default, PartialEq, Eq, Structural)]
pub struct CloseButton {
    pub hovered: bool,
    pub pressed: bool,
}

impl CloseButton {
    /// Pressed wins over hovered.
    pub fn visual_state(&self) -> (state: CloseButtonVisualState)
        ensures
            state == (if self.pressed {
                CloseButtonVisualState::Pressed
            } else if self.hovered {
                CloseButtonVisualState::Hovered
            } else {
                CloseButtonVisualState::Normal
            }),
    {
        if self.pressed {
            CloseButtonVisualState::Pressed
        } else if self.hovered {
            CloseButtonVisualState::Hovered
        } else {
            CloseButtonVisualState::Normal
        }
    }
}

/// Where a window is when it is not plainly on the current desktop.
#[derive(Clone, Copy, Debug, Default, PartialEq, Eq, Structural)]
pub enum WindowState {
    #[default]
    Normal,
    Minimized,
    Hidden,
    OtherDesktop,
}

impl WindowState {
    pub open spec fn spec_label(self) -> Option<Seq<char>> {
        match self {
            WindowState::Normal => None,
            WindowState::Minimized => Some("Minimized"@),
            WindowState::Hidden => Some("Hidden"@),
            WindowState::OtherDesktop => Some("Other desktop"@),
        }
    }

    /// The note drawn beside a window that is not plainly on the current desktop.
    pub fn label(self) -> (label: Option<&'static str>)
        ensures
            match label {
                Some(text) => self.spec_label() == Some(text@),
                None => self.spec_label() is None,
            },
    {
        match self {
            Self::Normal => None,
            Self::Minimized => Some("Minimized"),
            Self::Hidden => Some("Hidden"),
            Self::OtherDesktop => Some("Other desktop"),
        }
    }
}

#[derive(Clone, Copy, Debug, PartialEq, Eq, Structural)]
pub enum Hit {
    Tile(usize),
    Row(usize),
    CloseButton(usize),
}

pub struct Row {
    /// The key that picks this window, for the first nine.
    pub number: Option<usize>,
    pub title: String,
    pub state: WindowState,
    pub selected: bool,
}

/// The first of `shown` rows to draw out of `total` so that `selected` is in view, moving from
/// `start` only as far as needed.
pub open spec fn scrolled_start(start: int, selected: int, total: int, shown: int) -> int {
    let last_start = if total > shown {
        total - shown
    } else {
        0
    };
    let first = if start < last_start {
        start
    } else {
        last_start
    };
    if selected < first {
        selected
    } else if shown > 0 && selected >= first + shown {
        selected + 1 - shown
    } else {
        first
    }
}

/// The first of `shown` entries to draw out of `total` so that `selected` is in view, moving
/// the previous start only as far as needed. A pointer resting on a row therefore never makes
/// the list scroll under it.
pub fn scroll_into_view(start: usize, selected: usize, total: usize, shown: usize) -> (first: usize)
    requires
        shown == 0 || selected < usize::MAX,
    ensures
        first == scrolled_start(start as int, selected as int, total as int, shown as int),
{
    let last_start = if total > shown {
        total - shown
    } else {
        0
    };
    let start = if start < last_start {
        start
    } else {
        last_start
    };
    if selected < start {
        selected
    } else if shown > 0 && selected >= start + shown {
        selected + 1 - shown
    } else {
        start
    }
}

/// The note under `shown` rows drawn from `start` out of `total`: the windows below them, or
/// once the list has scrolled to its end, the windows above.
pub open spec fn more_text(total: int, start: int, shown: int) -> Option<Seq<char>> {
    let below = total - (start + shown);
    if below > 0 {
        Some(decimal(below as nat) + " more"@)
    } else if start > 0 {
        Some(decimal(start as nat) + " more above"@)
    } else {
        None
    }
}

/// The note in the slot under `shown` rows drawn from `start` out of `total`. It sits below the
/// rows, so it counts the windows below them; once the list has scrolled to its end, every
/// hidden window is above.
pub fn more_note(total: usize, start: usize, shown: usize) -> (note: Option<String>)
    requires
        start + shown <= usize::MAX,
    ensures
        match note {
            Some(text) => more_text(total as int, start as int, shown as int) == Some(text@),
            None => more_text(total as int, start as int, shown as int) is None,
        },
{
    let below = if total > start + shown {
        total - (start + shown)
    } else {
        0
    };
    if below > 0 {
        let mut note = decimal_string(below);
        note.append(" more");
        Some(note)
    } else if start > 0 {
        let mut note = decimal_string(start);
        note.append(" more above");
        Some(note)
    } else {
        None
    }
}

/// The first `width` characters of `value`.
pub fn truncate(value: &str, width: usize) -> (text: String)
    ensures
        text@ == value@.take(if width < value@.len() {
            width as int
        } else {
            value@.len() as int
        }),
{
    let length = value.unicode_len();
    let end = if width < length {
        width
    } else {
        length
    };
    value.substring_char(0, end).to_owned()
}


/// The command that the context-menu item with `tag` runs on the selection.
pub open spec fn tagged_command(tag: isize) -> Option<WindowCommand> {
    if tag == 1 {
        Some(WindowCommand::Close)
    } else if tag == 2 {
        Some(WindowCommand::Minimize)
    } else if tag == 3 {
        Some(WindowCommand::Hide)
    } else if tag == 4 {
        Some(WindowCommand::Quit)
    } else if tag == 5 {
        Some(WindowCommand::Terminate)
    } else {
        None
    }
}

/// The command that the context-menu item with `tag` runs on the selection.
pub fn command_for_tag(tag: isize) -> (command: Option<WindowCommand>)
    ensures
        command == tagged_command(tag),
{
    match tag {
        1 => Some(WindowCommand::Close),
        2 => Some(WindowCommand::Minimize),
        3 => Some(WindowCommand::Hide),
        4 => Some(WindowCommand::Quit),
        5 => Some(WindowCommand::Terminate),
        _ => None,
    }
}


/// A window's note names where it is: "Minimized", "Hidden" or "Other desktop", and a window on
/// the current desktop has none.
pub proof fn law_window_state_notes()
    ensures
        WindowState::Normal.spec_label() is None,
        WindowState::Minimized.spec_label() == Some("Minimized"@),
        WindowState::Hidden.spec_label() == Some("Hidden"@),
        WindowState::OtherDesktop.spec_label() == Some("Other desktop"@),
{
}

/// Each item of the context menu runs the command it names: tag 1 closes the window, 2
/// minimizes it, 3 hides its app, 4 quits the app and 5 forces it to quit; no other tag runs a
/// command.
pub proof fn law_menu_tags_run_their_commands(tag: isize)
    ensures
        tagged_command(1) == Some(WindowCommand::Close),
        tagged_command(2) == Some(WindowCommand::Minimize),
        tagged_command(3) == Some(WindowCommand::Hide),
        tagged_command(4) == Some(WindowCommand::Quit),
        tagged_command(5) == Some(WindowCommand::Terminate),
        tag < 1 || tag > 5 ==> tagged_command(tag) is None,
{
}

/// After scrolling, the selected entry is among the rows drawn; a selection already among them
/// leaves the list where it was, once held within its last full page.
pub proof fn law_scrolling_shows_the_selection(start: int, selected: int, total: int, shown: int)
    requires
        0 <= start,
        0 <= selected < total,
        shown > 0,
    ensures
        ({
            let first = scrolled_start(start, selected, total, shown);
            let last_start = if total > shown {
                total - shown
            } else {
                0
            };
            let held = if start < last_start {
                start
            } else {
                last_start
            };
            &&& 0 <= first <= selected < first + shown
            &&& held <= selected < held + shown ==> first == held
        }),
{
}


impl WindowState {
    /// The state of a listed window from what the window list knows of it: minimized first,
    /// then hidden, then on another desktop when it is not on screen.
    pub fn of(minimized: bool, hidden: bool, on_screen: bool) -> (state: Self)
        ensures
            state == if minimized {
                WindowState::Minimized
            } else if hidden {
                WindowState::Hidden
            } else if !on_screen {
                WindowState::OtherDesktop
            } else {
                WindowState::Normal
            },
    {
        if minimized {
            WindowState::Minimized
        } else if hidden {
            WindowState::Hidden
        } else if !on_screen {
            WindowState::OtherDesktop
        } else {
            WindowState::Normal
        }
    }
}

/// The key that picks the window at `index` of the list: the digits 1 to 9 for the first nine.
pub fn row_number(index: usize) -> (number: Option<usize>)
    ensures
        number == if index < 9 {
            Some((index + 1) as usize)
        } else {
            None::<usize>
        },
{
    if index < 9 {
        Some(index + 1)
    } else {
        None
    }
}

/// How many rows the list gives to windows when `row_slots` fit in the panel: a list longer than
/// the panel gives its last slot to the count of the rest, keeping at least one window row.
pub open spec fn window_slots(window_count: int, row_slots: int) -> int {
    if window_count > row_slots {
        if row_slots - 1 > 1 {
            row_slots - 1
        } else {
            1
        }
    } else {
        row_slots
    }
}

/// The number of windows listed from `start` in `slots` rows out of `window_count`.
pub open spec fn listed_count(window_count: int, start: int, slots: int) -> int {
    let remaining = if window_count > start {
        window_count - start
    } else {
        0
    };
    if remaining < slots {
        remaining
    } else {
        slots
    }
}

/// Which of the selected app's windows the panel lists.
#[derive(Clone, Copy, Debug, PartialEq, Eq, Structural)]
pub struct RowWindow {
    /// The index of the first listed window.
    pub start: usize,
    /// How many windows are listed.
    pub count: usize,
    /// The row of the selected window, when it is listed.
    pub selected_row: Option<usize>,
    /// How many windows are left out of the list.
    pub hidden: usize,
    /// Whether a slot is left under the rows for the count of the windows left out.
    pub more_note: bool,
    /// Whether the app has no windows to list.
    pub empty_note: bool,
}

/// The rows of an app with `window_count` windows in a panel of `row_slots` rows, scrolled from
/// `row_start` so that `selected_window` shows.
pub open spec fn row_window_of(
    row_start: int,
    selected_window: Option<usize>,
    window_count: int,
    row_slots: int,
) -> RowWindow {
    let slots = window_slots(window_count, row_slots);
    let selected = match selected_window {
        Some(index) => index as int,
        None => 0,
    };
    let start = scrolled_start(row_start, selected, window_count, slots);
    let count = listed_count(window_count, start, slots);
    RowWindow {
        start: start as usize,
        count: count as usize,
        selected_row: match selected_window {
            Some(index) => if start <= index && index - start < count {
                Some((index - start) as usize)
            } else {
                None
            },
            None => None,
        },
        hidden: (window_count - count) as usize,
        more_note: window_count - count > 0 && count < row_slots,
        empty_note: window_count == 0,
    }
}

/// The rows of an app with `window_count` windows in a panel of `row_slots` rows, scrolled from
/// the previous `row_start` only as far as needed to show `selected_window`.
pub fn row_window(
    row_start: usize,
    selected_window: Option<usize>,
    window_count: usize,
    row_slots: usize,
) -> (rows: RowWindow)
    requires
        selected_window != Some(usize::MAX),
    ensures
        rows == row_window_of(row_start as int, selected_window, window_count as int, row_slots as int),
        rows.count + rows.hidden == window_count,
{
    let slots = if window_count > row_slots {
        if row_slots > 2 {
            row_slots - 1
        } else {
            1
        }
    } else {
        row_slots
    };
    let selected = match selected_window {
        Some(index) => index,
        None => 0,
    };
    let start = scroll_into_view(row_start, selected, window_count, slots);
    let remaining = if window_count > start {
        window_count - start
    } else {
        0
    };
    let count = if remaining < slots {
        remaining
    } else {
        slots
    };
    let selected_row = match selected_window {
        Some(index) => if start <= index && index - start < count {
            Some(index - start)
        } else {
            None
        },
        None => None,
    };
    let hidden = window_count - count;
    RowWindow {
        start,
        count,
        selected_row,
        hidden,
        more_note: hidden > 0 && count < row_slots,
        empty_note: window_count == 0,
    }
}

/// The tiles of the strip for `app_count` apps in `tile_slots` places, scrolled from the
/// previous `tile_start` only as far as needed to show `selected_app`: the first tile in view and
/// how many are in view.
pub fn tile_window(
    tile_start: usize,
    selected_app: usize,
    app_count: usize,
    tile_slots: usize,
) -> (tiles: (usize, usize))
    requires
        tile_slots == 0 || selected_app < usize::MAX,
    ensures
        tiles.0 == scrolled_start(tile_start as int, selected_app as int, app_count as int, tile_slots as int),
        tiles.1 == listed_count(app_count as int, tiles.0 as int, tile_slots as int),
{
    let start = scroll_into_view(tile_start, selected_app, app_count, tile_slots);
    let remaining = if app_count > start {
        app_count - start
    } else {
        0
    };
    let count = if remaining < tile_slots {
        remaining
    } else {
        tile_slots
    };
    (start, count)
}

/// The note in the slot left under the rows: the count of the windows left out.
pub fn hidden_note(hidden: usize) -> (note: String)
    ensures
        note@ == decimal(hidden as nat) + " more"@,
{
    let mut note = decimal_string(hidden);
    note.append(" more");
    note
}

/// With at least one row in the panel, the selected window is among the listed rows, the list
/// never runs past the last window, and the slot for the count of the rest is kept only when
/// windows are left out.
pub proof fn law_listed_rows_show_the_selection(
    row_start: int,
    selected: int,
    window_count: int,
    row_slots: int,
)
    requires
        0 <= row_start,
        0 <= selected < window_count,
        row_slots > 0,
        window_count <= usize::MAX,
        row_start <= usize::MAX,
        row_slots <= usize::MAX,
    ensures
        ({
            let rows = row_window_of(row_start, Some(selected as usize), window_count, row_slots);
            &&& rows.selected_row == Some((selected - rows.start) as usize)
            &&& rows.start + rows.count <= window_count
            &&& rows.count <= row_slots
            &&& rows.more_note ==> rows.hidden > 0 && rows.count + 1 <= row_slots
            &&& window_count <= row_slots ==> rows.count == window_count && rows.start == 0
        }),
{
    let slots = window_slots(window_count, row_slots);
    law_scrolling_shows_the_selection(row_start, selected, window_count, slots);
}

} // verus!
