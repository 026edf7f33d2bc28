//! One description of the switcher's keys, shared by the overlay's hint bar and the Shortcuts
//! settings tab so the two never disagree.

use super::hotkey::HeldModifier;
use crate::input::WindowCommand;
use crate::text::{decimal, decimal_string};
use vstd::prelude::*;
use vstd::string::*;

verus! {

/// A key chip with its explanation, as drawn in the footer.
#[derive(Clone, Debug, PartialEq, Eq)]
pub struct Hint {
    pub label: &'static str,
    pub keys: &'static str,
}

/// What the footer should say right now.
#[derive(Clone, Copy, Debug, PartialEq, Eq, Structural)]
pub enum FooterContext {
    /// The gesture modifier is down: numbers jump, release switches.
    Held(HeldModifier),
    /// The modifier is up but the list stays open: typing searches.
    Released,
    /// Search text is showing.
    Searching { matches: usize },
}

/// The footer, laid out like a launcher's action bar: a status sentence on the left and the
/// primary action plus the actions menu on the right.
#[derive(Clone, Debug, PartialEq, Eq)]
pub struct Footer {
    pub status: String,
    pub trailing: Vec<Hint>,
}

/// The status sentence for `context`.
pub open spec fn footer_status(context: FooterContext) -> Seq<char> {
    match context {
        FooterContext::Held(modifier) => "Release "@ + modifier.spec_glyph()
            + " to switch  ·  1–9 jumps"@,
        FooterContext::Released => "Type to search"@,
        FooterContext::Searching { matches } => if matches == 1 {
            "1 match"@
        } else {
            decimal(matches as nat) + " matches"@
        },
    }
}

/// The label of the primary action: run an open panel's action, or switch.
pub open spec fn primary_label(panel_open: bool) -> Seq<char> {
    if panel_open {
        "Run"@
    } else {
        "Switch"@
    }
}

pub fn footer(context: FooterContext, panel_open: bool) -> (footer: Footer)
    ensures
        footer.status@ == footer_status(context),
        footer.trailing@.len() == 2,
        footer.trailing@[0].label@ == primary_label(panel_open),
        footer.trailing@[0].keys@ == "↵"@,
        footer.trailing@[1].label@ == "Actions"@,
        footer.trailing@[1].keys@ == "⌘K"@,
{
    let status = match context {
        FooterContext::Held(modifier) => {
            let mut status = String::from_str("Release ");
            status.append(modifier.glyph());
            status.append(" to switch  ·  1–9 jumps");
            status
        },
        FooterContext::Released => String::from_str("Type to search"),
        FooterContext::Searching { matches } => {
            if matches == 1 {
                String::from_str("1 match")
            } else {
                let mut status = decimal_string(matches);
                status.append(" matches");
                status
            }
        },
    };
    let mut trailing = Vec::new();
    trailing.push(Hint { label: if panel_open { "Run" } else { "Switch" }, keys: "↵" });
    trailing.push(Hint { label: "Actions", keys: "⌘K" });
    Footer { status, trailing }
}

/// A row of the Shortcuts settings tab.
#[derive(Clone, Copy, Debug, PartialEq, Eq)]
pub struct ShortcutRow {
    pub keys: &'static str,
    pub description: &'static str,
}

/// A titled group of rows of the Shortcuts settings tab.
#[derive(Clone, Copy, Debug, PartialEq, Eq)]
pub struct ShortcutSection {
    pub title: &'static str,
    pub rows: &'static [ShortcutRow],
}


/// What an entry of the action panel does to the selected window.
#[derive(Clone, Copy, Debug, PartialEq, Eq, Structural)]
pub enum ActionKind {
    Activate,
    Command(WindowCommand),
    NextWindowOfApp,
}

/// An entry of the action panel, with the shortcut that runs it directly.
#[derive(Clone, Copy, Debug, PartialEq, Eq)]
pub struct Action {
    pub label: &'static str,
    pub keys: &'static str,
    pub kind: ActionKind,
}

/// What the entries of the action panel do, in the order they are listed.
pub open spec fn action_kinds() -> Seq<ActionKind> {
    seq![
        ActionKind::Activate,
        ActionKind::Command(WindowCommand::Close),
        ActionKind::Command(WindowCommand::Minimize),
        ActionKind::Command(WindowCommand::Maximize),
        ActionKind::Command(WindowCommand::Restore),
        ActionKind::NextWindowOfApp,
        ActionKind::Command(WindowCommand::Hide),
        ActionKind::Command(WindowCommand::Quit),
        ActionKind::Command(WindowCommand::Terminate),
        ActionKind::Command(WindowCommand::Run),
    ]
}

fn action(label: &'static str, keys: &'static str, kind: ActionKind) -> (entry: Action)
    ensures
        entry == (Action { label, keys, kind }),
{
    Action { label, keys, kind }
}

/// The action panel, primary action first, each entry with a shortcut.
pub fn actions() -> (entries: Vec<Action>)
    ensures
        entries@.len() == action_kinds().len(),
        forall|i: int| 0 <= i < entries@.len() ==> (#[trigger] entries@[i]).kind == action_kinds()[i],
        forall|i: int| 0 <= i < entries@.len() ==> (#[trigger] entries@[i]).keys@.len() > 0,
{
    proof {
        reveal_strlit("↵");
        reveal_strlit("⌘W");
        reveal_strlit("⌘M");
        reveal_strlit("F6");
        reveal_strlit("F7");
        reveal_strlit("⌘`");
        reveal_strlit("⌘H");
        reveal_strlit("⌘Q");
        reveal_strlit("F8");
        reveal_strlit("F9");
    }
    let mut entries = Vec::new();
    entries.push(action("Switch to Window", "↵", ActionKind::Activate));
    entries.push(action("Close Window", "⌘W", ActionKind::Command(WindowCommand::Close)));
    entries.push(action("Minimize Window", "⌘M", ActionKind::Command(WindowCommand::Minimize)));
    entries.push(action("Zoom Window", "F6", ActionKind::Command(WindowCommand::Maximize)));
    entries.push(action("Restore Window", "F7", ActionKind::Command(WindowCommand::Restore)));
    entries.push(action("Next Window of App", "⌘`", ActionKind::NextWindowOfApp));
    entries.push(action("Hide App", "⌘H", ActionKind::Command(WindowCommand::Hide)));
    entries.push(action("Quit App", "⌘Q", ActionKind::Command(WindowCommand::Quit)));
    entries.push(action("Force Quit App", "F8", ActionKind::Command(WindowCommand::Terminate)));
    entries.push(action("New Instance", "F9", ActionKind::Command(WindowCommand::Run)));
    entries
}

} // verus!
