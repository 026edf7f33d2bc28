//! Pure Command+Tab and Option+Tab gesture state fed by the event-tap adapter.
//!
//! macOS delivers modifiers as flag changes and never focuses menus on a bare modifier, so this
//! machine only decides which events the switcher owns and what they mean to it. The keys are the
//! ones the system app switcher already taught: Tab and the backtick step through apps, the arrows
//! move, Return or letting go switches, Escape cancels, and W, M, H, and Q act on the selection.

use super::keymap::MacKey;
use crate::app_switcher::Action;
use crate::input::WindowCommand;
use crate::settings::Settings;
use vstd::prelude::*;

verus! {

#[derive(Clone, Copy, Debug, PartialEq, Eq, Structural)]
pub struct HotkeySettings {
    pub command_tab: bool,
    pub option_tab: bool,
}

/// Which gestures the tap owns, from the portable settings: the Alt Tab setting stands for
/// Command Tab and the Win Tab setting for Option Tab.
pub fn hotkey_settings(settings: &Settings) -> (hotkeys: HotkeySettings)
    ensures
        hotkeys == (HotkeySettings {
            command_tab: settings.general.replace_alt_tab,
            option_tab: settings.general.replace_win_tab,
        }),
{
    HotkeySettings {
        command_tab: settings.general.replace_alt_tab,
        option_tab: settings.general.replace_win_tab,
    }
}

#[derive(Clone, Copy, Debug, Default, PartialEq, Eq, Structural)]
pub struct ModifierState {
    pub command: bool,
    pub option: bool,
    pub shift: bool,
    pub control: bool,
}

#[derive(Clone, Copy, Debug, PartialEq, Eq, Structural)]
pub enum TapEvent {
    KeyDown { key: MacKey, repeated: bool },
    KeyUp,
    ModifiersChanged(ModifierState),
    LeftMouseDown { inside_overlay: bool },
}

#[derive(Clone, Copy, Debug, Default, PartialEq, Eq, Structural)]
pub struct TapOutcome {
    pub suppress: bool,
    pub action: Option<Action>,
}

impl TapOutcome {
    /// The event is swallowed and nothing happens.
    pub fn suppressed() -> (outcome: Self)
        ensures
            outcome == (TapOutcome { suppress: true, action: None }),
    {
        Self { suppress: true, action: None }
    }

    fn with(suppress: bool, action: Action) -> (outcome: Self)
        ensures
            outcome == (TapOutcome { suppress, action: Some(action) }),
    {
        Self { suppress, action: Some(action) }
    }
}

/// The modifier that started the gesture under way.
#[derive(Clone, Copy, Debug, PartialEq, Eq, Structural)]
pub enum Gesture {
    Command,
    Option,
}

/// The modifier held for a gesture, as the footer names it.
#[derive(Clone, Copy, Debug, PartialEq, Eq, Structural)]
pub enum HeldModifier {
    Command,
    Option,
}

impl HeldModifier {
    pub open spec fn spec_glyph(self) -> Seq<char> {
        match self {
            HeldModifier::Command => "⌘"@,
            HeldModifier::Option => "⌥"@,
        }
    }

    /// The key symbol macOS prints for the modifier.
    pub fn glyph(self) -> (glyph: &'static str)
        ensures
            glyph@ == self.spec_glyph(),
    {
        match self {
            Self::Command => "⌘",
            Self::Option => "⌥",
        }
    }
}

#[derive(Debug)]
pub struct HotkeyState {
    modifiers: ModifierState,
    gesture: Option<Gesture>,
    overlay_active: bool,
}

/// The gesture machine as the contracts speak of it.
pub struct HotkeyModel {
    pub modifiers: ModifierState,
    pub gesture: Option<Gesture>,
    pub overlay_active: bool,
}

impl View for HotkeyState {
    type V = HotkeyModel;

    closed spec fn view(&self) -> HotkeyModel {
        HotkeyModel {
            modifiers: self.modifiers,
            gesture: self.gesture,
            overlay_active: self.overlay_active,
        }
    }
}

impl Default for HotkeyState {
    /// A tap that has just started: no modifier down, no gesture under way, no list showing.
    fn default() -> (state: Self)
        ensures
            state@ == (HotkeyModel {
                modifiers: ModifierState {
                    command: false,
                    option: false,
                    shift: false,
                    control: false,
                },
                gesture: None,
                overlay_active: false,
            }),
    {
        HotkeyState {
            modifiers: ModifierState { command: false, option: false, shift: false, control: false },
            gesture: None,
            overlay_active: false,
        }
    }
}

/// Whether Command or Option is down as the switcher's modifier: the gesture's own, or one
/// pressed again while a list opened from the menu bar shows.
pub open spec fn holds_modifier(m: HotkeyModel) -> bool {
    m.gesture is Some || (m.overlay_active && (m.modifiers.command || m.modifiers.option))
}

pub open spec fn key_down(m: HotkeyModel, key: MacKey, repeated: bool, settings: HotkeySettings) -> (
    HotkeyModel,
    TapOutcome,
) {
    let modifiers = m.modifiers;
    let forward: i32 = if modifiers.shift {
        -1i32
    } else {
        1i32
    };
    if key == MacKey::Tab && m.gesture is None && modifiers.command && !modifiers.option
        && settings.command_tab {
        (
            HotkeyModel { gesture: Some(Gesture::Command), ..m },
            TapOutcome { suppress: true, action: Some(Action::StepApp(forward)) },
        )
    } else if key == MacKey::Tab && m.gesture is None && modifiers.option && !modifiers.command
        && settings.option_tab {
        (
            HotkeyModel { gesture: Some(Gesture::Option), ..m },
            TapOutcome { suppress: true, action: Some(Action::StepApp(forward)) },
        )
    } else if m.gesture is None && !m.overlay_active {
        (m, TapOutcome { suppress: false, action: None })
    } else {
        let action = match key {
            MacKey::Tab | MacKey::Right => Some(Action::StepApp(forward)),
            MacKey::Backtick | MacKey::Left => Some(Action::StepApp((-forward) as i32)),
            MacKey::Up => Some(Action::StepWindow(-1i32)),
            MacKey::Down => Some(Action::StepWindow(1i32)),
            MacKey::Return => if repeated {
                None
            } else {
                Some(Action::Activate)
            },
            MacKey::Escape => if repeated {
                None
            } else {
                Some(Action::Dismiss)
            },
            MacKey::Command(command) => if !repeated && !modifiers.control && holds_modifier(m) {
                Some(Action::Command(command))
            } else {
                None
            },
            _ => None,
        };
        let ends = action == Some(Action::Activate) || action == Some(Action::Dismiss);
        (
            if ends {
                HotkeyModel { gesture: None, ..m }
            } else {
                m
            },
            TapOutcome { suppress: true, action },
        )
    }
}

/// What one tapped event does to the gesture machine and what it asks of the switcher.
pub open spec fn tapped(m: HotkeyModel, event: TapEvent, settings: HotkeySettings) -> (
    HotkeyModel,
    TapOutcome,
) {
    match event {
        TapEvent::ModifiersChanged(modifiers) => {
            let released = match m.gesture {
                Some(Gesture::Command) => !modifiers.command,
                Some(Gesture::Option) => !modifiers.option,
                None => false,
            };
            if released {
                (
                    HotkeyModel { modifiers, gesture: None, ..m },
                    TapOutcome { suppress: false, action: Some(Action::Activate) },
                )
            } else {
                (HotkeyModel { modifiers, ..m }, TapOutcome { suppress: false, action: None })
            }
        },
        TapEvent::KeyDown { key, repeated } => key_down(m, key, repeated, settings),
        TapEvent::KeyUp => (m, TapOutcome { suppress: m.gesture is Some || m.overlay_active, action: None }),
        TapEvent::LeftMouseDown { inside_overlay } => if m.overlay_active && !inside_overlay {
            (m, TapOutcome { suppress: false, action: Some(Action::Dismiss) })
        } else {
            (m, TapOutcome { suppress: false, action: None })
        },
    }
}

impl HotkeyState {
    /// The overlay owns every key while it is visible, even after the gesture modifier is up.
    pub fn set_overlay_active(&mut self, active: bool)
        ensures
            final(self)@ == (HotkeyModel {
                overlay_active: active,
                gesture: if active {
                    old(self)@.gesture
                } else {
                    None
                },
                ..old(self)@
            }),
    {
        self.overlay_active = active;
        if !active {
            self.gesture = None;
        }
    }

    fn modifier_held(&self) -> (held: bool)
        ensures
            held == holds_modifier(self@),
    {
        self.gesture.is_some() || (self.overlay_active && (self.modifiers.command
            || self.modifiers.option))
    }

    pub fn process(&mut self, event: TapEvent, settings: HotkeySettings) -> (outcome: TapOutcome)
        ensures
            (final(self)@, outcome) == tapped(old(self)@, event, settings),
    {
        match event {
            TapEvent::ModifiersChanged(modifiers) => {
                self.modifiers = modifiers;
                let released = match self.gesture {
                    Some(Gesture::Command) => !modifiers.command,
                    Some(Gesture::Option) => !modifiers.option,
                    None => false,
                };
                if released {
                    self.gesture = None;
                    TapOutcome::with(false, Action::Activate)
                } else {
                    TapOutcome { suppress: false, action: None }
                }
            },
            TapEvent::KeyDown { key, repeated } => self.process_key_down(key, repeated, settings),
            TapEvent::KeyUp => {
                if self.gesture.is_some() || self.overlay_active {
                    TapOutcome::suppressed()
                } else {
                    TapOutcome { suppress: false, action: None }
                }
            },
            TapEvent::LeftMouseDown { inside_overlay } => {
                if self.overlay_active && !inside_overlay {
                    TapOutcome::with(false, Action::Dismiss)
                } else {
                    TapOutcome { suppress: false, action: None }
                }
            },
        }
    }

    fn process_key_down(&mut self, key: MacKey, repeated: bool, settings: HotkeySettings) -> (
        outcome: TapOutcome)
        ensures
            (final(self)@, outcome) == key_down(old(self)@, key, repeated, settings),
    {
        let modifiers = self.modifiers;
        let forward: i32 = if modifiers.shift {
            -1
        } else {
            1
        };
        if key == MacKey::Tab && self.gesture.is_none() {
            if modifiers.command && !modifiers.option && settings.command_tab {
                self.gesture = Some(Gesture::Command);
                return TapOutcome::with(true, Action::StepApp(forward));
            }
            if modifiers.option && !modifiers.command && settings.option_tab {
                self.gesture = Some(Gesture::Option);
                return TapOutcome::with(true, Action::StepApp(forward));
            }
        }
        if self.gesture.is_none() && !self.overlay_active {
            return TapOutcome { suppress: false, action: None };
        }
        // The switcher owns the keyboard from here until it hides.
        let action = match key {
            MacKey::Tab | MacKey::Right => Some(Action::StepApp(forward)),
            MacKey::Backtick | MacKey::Left => Some(Action::StepApp(-forward)),
            MacKey::Up => Some(Action::StepWindow(-1)),
            MacKey::Down => Some(Action::StepWindow(1)),
            MacKey::Return => if repeated {
                None
            } else {
                Some(Action::Activate)
            },
            MacKey::Escape => if repeated {
                None
            } else {
                Some(Action::Dismiss)
            },
            MacKey::Command(command) => if !repeated && !modifiers.control && self.modifier_held() {
                Some(Action::Command(command))
            } else {
                None
            },
            _ => None,
        };
        if matches!(action, Some(Action::Activate) | Some(Action::Dismiss)) {
            // A later Tab while the modifier stays down starts a new gesture.
            self.gesture = None;
        }
        TapOutcome { suppress: true, action }
    }
}


/// Letting go of the gesture's modifier switches, without swallowing the event, and ends the
/// gesture, so that a further modifier change switches no second time.
pub proof fn law_release_switches_once(
    m: HotkeyModel,
    modifiers: ModifierState,
    later: ModifierState,
    settings: HotkeySettings,
)
    requires
        m.gesture == Some(Gesture::Command) && !modifiers.command || m.gesture == Some(
            Gesture::Option,
        ) && !modifiers.option,
    ensures
        ({
            let (after, outcome) = tapped(m, TapEvent::ModifiersChanged(modifiers), settings);
            &&& outcome == (TapOutcome { suppress: false, action: Some(Action::Activate) })
            &&& after.gesture is None
            &&& tapped(after, TapEvent::ModifiersChanged(later), settings).1.action is None
        }),
{
}

/// With no gesture under way and no list showing, every key passes through untouched but a Tab
/// that opens a gesture, and a key's release and a click pass through too.
pub proof fn law_idle_keys_pass_through(
    m: HotkeyModel,
    key: MacKey,
    repeated: bool,
    inside_overlay: bool,
    settings: HotkeySettings,
)
    requires
        m.gesture is None,
        !m.overlay_active,
        key != MacKey::Tab,
    ensures
        tapped(m, TapEvent::KeyDown { key, repeated }, settings) == (m, TapOutcome {
            suppress: false,
            action: None,
        }),
        tapped(m, TapEvent::KeyUp, settings) == (m, TapOutcome { suppress: false, action: None }),
        tapped(m, TapEvent::LeftMouseDown { inside_overlay }, settings) == (m, TapOutcome {
            suppress: false,
            action: None,
        }),
{
}

/// While a gesture is under way or the list shows, the switcher owns the keyboard: every key it
/// sees is swallowed, and so is every key's release.
pub proof fn law_open_switcher_swallows_keys(
    m: HotkeyModel,
    key: MacKey,
    repeated: bool,
    settings: HotkeySettings,
)
    requires
        m.gesture is Some || m.overlay_active,
    ensures
        tapped(m, TapEvent::KeyDown { key, repeated }, settings).1.suppress,
        tapped(m, TapEvent::KeyUp, settings).1.suppress,
{
}


/// While a gesture is under way or the list shows, each key asks for what it does in the system
/// switcher, and is swallowed: Tab and Right step to the next app and the backtick and Left to
/// the previous one (the other way round with Shift), Up and Down to the previous and the next
/// window; Return switches to the selection and Escape cancels the switcher, each ending the
/// gesture, unless the key repeats; a command letter runs its command on a first press without
/// Control while the switcher's modifier is down; a digit or any other key asks for nothing.
pub proof fn law_open_switcher_keys(
    m: HotkeyModel,
    key: MacKey,
    repeated: bool,
    settings: HotkeySettings,
)
    requires
        m.gesture is Some || m.overlay_active,
    ensures
        ({
            let (after, outcome) = tapped(m, TapEvent::KeyDown { key, repeated }, settings);
            let next: i32 = if m.modifiers.shift {
                -1i32
            } else {
                1i32
            };
            let previous: i32 = if m.modifiers.shift {
                1i32
            } else {
                -1i32
            };
            &&& outcome.suppress
            &&& after.modifiers == m.modifiers
            &&& after.overlay_active == m.overlay_active
            &&& key == MacKey::Tab ==> outcome.action == Some(Action::StepApp(next))
            &&& key == MacKey::Right ==> outcome.action == Some(Action::StepApp(next))
            &&& key == MacKey::Backtick ==> outcome.action == Some(Action::StepApp(previous))
            &&& key == MacKey::Left ==> outcome.action == Some(Action::StepApp(previous))
            &&& key == MacKey::Up ==> outcome.action == Some(Action::StepWindow(-1i32))
            &&& key == MacKey::Down ==> outcome.action == Some(Action::StepWindow(1i32))
            &&& key == MacKey::Return && !repeated ==> outcome.action == Some(Action::Activate)
                && after.gesture is None
            &&& key == MacKey::Escape && !repeated ==> outcome.action == Some(Action::Dismiss)
                && after.gesture is None
            &&& (key == MacKey::Return || key == MacKey::Escape) && repeated ==> outcome.action
                is None && after == m
            &&& forall|command: WindowCommand|
                key == MacKey::Command(command) ==> outcome.action == if !repeated
                    && !m.modifiers.control && (m.gesture is Some || m.modifiers.command
                    || m.modifiers.option) {
                    Some(Action::Command(command))
                } else {
                    None
                }
            &&& (key is Digit || key == MacKey::Other) ==> outcome.action is None && after == m
        }),
{
}

/// With no gesture under way, a Tab while Command alone is down opens the Command gesture where
/// Command Tab is replaced, and a Tab while Option alone is down opens the Option gesture where
/// Option Tab is, each stepping to the next app, or the previous one with Shift, and swallowed.
pub proof fn law_tab_opens_the_gesture(
    m: HotkeyModel,
    repeated: bool,
    settings: HotkeySettings,
)
    requires
        m.gesture is None,
    ensures
        ({
            let (after, outcome) = tapped(m, TapEvent::KeyDown { key: MacKey::Tab, repeated }, settings);
            let step: i32 = if m.modifiers.shift {
                -1i32
            } else {
                1i32
            };
            &&& m.modifiers.command && !m.modifiers.option && settings.command_tab ==> outcome
                == (TapOutcome { suppress: true, action: Some(Action::StepApp(step)) })
                && after.gesture == Some(Gesture::Command)
            &&& m.modifiers.option && !m.modifiers.command && settings.option_tab ==> outcome
                == (TapOutcome { suppress: true, action: Some(Action::StepApp(step)) })
                && after.gesture == Some(Gesture::Option)
        }),
{
}

/// Besides keys: a modifier change that lets go of the gesture's modifier switches to the
/// selection and ends the gesture, any other passes with nothing asked; a key's release is
/// swallowed exactly while a gesture is under way or the list shows; a click outside the list
/// while it shows cancels the switcher, any other click asks for nothing; none of them is
/// swallowed but the release, and none touches the list's state.
pub proof fn law_other_events(
    m: HotkeyModel,
    modifiers: ModifierState,
    inside_overlay: bool,
    settings: HotkeySettings,
)
    ensures
        ({
            let (after, outcome) = tapped(m, TapEvent::ModifiersChanged(modifiers), settings);
            let lets_go = (m.gesture == Some(Gesture::Command) && !modifiers.command) || (m.gesture
                == Some(Gesture::Option) && !modifiers.option);
            &&& !outcome.suppress
            &&& after.modifiers == modifiers
            &&& after.overlay_active == m.overlay_active
            &&& lets_go ==> outcome.action == Some(Action::Activate) && after.gesture is None
            &&& !lets_go ==> outcome.action is None && after.gesture == m.gesture
        }),
        tapped(m, TapEvent::KeyUp, settings) == (m, TapOutcome {
            suppress: m.gesture is Some || m.overlay_active,
            action: None,
        }),
        tapped(m, TapEvent::LeftMouseDown { inside_overlay }, settings) == (m, TapOutcome {
            suppress: false,
            action: if m.overlay_active && !inside_overlay {
                Some(Action::Dismiss)
            } else {
                None
            },
        }),
{
}

} // verus!
