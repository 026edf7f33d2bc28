//! The macOS Command+Tab and Option+Tab gesture machine.

use alttabio::app_switcher::Action;
use alttabio::input::WindowCommand;
use alttabio::macos::hotkey::{
    hotkey_settings, HotkeySettings, HotkeyState, ModifierState, TapEvent, TapOutcome,
};
use alttabio::settings::Settings;
use alttabio::macos::keymap::MacKey;

fn settings() -> HotkeySettings {
    HotkeySettings {
        command_tab: true,
        option_tab: true,
    }
}

fn command_down() -> ModifierState {
    ModifierState {
        command: true,
        ..ModifierState::default()
    }
}

fn key(key: MacKey) -> TapEvent {
    TapEvent::KeyDown {
        key,
        repeated: false,
    }
}

fn action(outcome: TapOutcome) -> Option<Action> {
    outcome.action
}

/// Command down, Tab pressed, and the overlay showing.
fn in_gesture() -> HotkeyState {
    let mut state = HotkeyState::default();
    let _ = state.process(TapEvent::ModifiersChanged(command_down()), settings());
    let _ = state.process(key(MacKey::Tab), settings());
    state.set_overlay_active(true);
    state
}

#[test]
fn command_tab_opens_and_command_release_switches() {
    let mut state = HotkeyState::default();
    let _ = state.process(TapEvent::ModifiersChanged(command_down()), settings());

    let outcome = state.process(key(MacKey::Tab), settings());
    assert!(outcome.suppress);
    assert_eq!(action(outcome), Some(Action::StepApp(1)));
    state.set_overlay_active(true);
    let outcome = state.process(
        TapEvent::ModifiersChanged(ModifierState::default()),
        settings(),
    );
    assert!(!outcome.suppress);
    assert_eq!(action(outcome), Some(Action::Activate));
}

#[test]
fn shift_tab_and_the_backtick_step_backwards() {
    let mut state = in_gesture();

    assert_eq!(
        action(state.process(key(MacKey::Backtick), settings())),
        Some(Action::StepApp(-1))
    );
    let _ = state.process(
        TapEvent::ModifiersChanged(ModifierState {
            command: true,
            shift: true,
            ..ModifierState::default()
        }),
        settings(),
    );
    assert_eq!(
        action(state.process(key(MacKey::Tab), settings())),
        Some(Action::StepApp(-1))
    );
    assert_eq!(
        action(state.process(key(MacKey::Backtick), settings())),
        Some(Action::StepApp(1))
    );
}

#[test]
fn side_arrows_step_apps_and_vertical_arrows_step_windows() {
    let mut state = in_gesture();

    assert_eq!(
        action(state.process(key(MacKey::Left), settings())),
        Some(Action::StepApp(-1))
    );
    assert_eq!(
        action(state.process(key(MacKey::Right), settings())),
        Some(Action::StepApp(1))
    );
    assert_eq!(
        action(state.process(key(MacKey::Up), settings())),
        Some(Action::StepWindow(-1))
    );
    assert_eq!(
        action(state.process(key(MacKey::Down), settings())),
        Some(Action::StepWindow(1))
    );
}

#[test]
fn disabled_command_tab_passes_through() {
    let mut state = HotkeyState::default();
    let settings = HotkeySettings {
        command_tab: false,
        option_tab: true,
    };
    let _ = state.process(TapEvent::ModifiersChanged(command_down()), settings);

    assert_eq!(
        state.process(key(MacKey::Tab), settings),
        TapOutcome::default()
    );
}

#[test]
fn option_tab_is_the_second_gesture() {
    let mut state = HotkeyState::default();
    let _ = state.process(
        TapEvent::ModifiersChanged(ModifierState {
            option: true,
            ..ModifierState::default()
        }),
        settings(),
    );

    assert_eq!(
        action(state.process(key(MacKey::Tab), settings())),
        Some(Action::StepApp(1))
    );
    assert_eq!(
        action(state.process(
            TapEvent::ModifiersChanged(ModifierState::default()),
            settings()
        )),
        Some(Action::Activate)
    );
}

#[test]
fn command_letters_act_once_and_other_keys_are_swallowed() {
    let mut state = in_gesture();

    assert_eq!(
        action(state.process(key(MacKey::Command(WindowCommand::Close)), settings())),
        Some(Action::Command(WindowCommand::Close))
    );
    let repeated = TapEvent::KeyDown {
        key: MacKey::Command(WindowCommand::Close),
        repeated: true,
    };
    assert_eq!(state.process(repeated, settings()), TapOutcome::suppressed());
    assert_eq!(
        state.process(key(MacKey::Other), settings()),
        TapOutcome::suppressed()
    );
    assert_eq!(
        state.process(TapEvent::KeyUp, settings()),
        TapOutcome::suppressed()
    );
}

#[test]
fn return_switches_and_ends_the_gesture() {
    let mut state = in_gesture();

    assert_eq!(
        action(state.process(key(MacKey::Return), settings())),
        Some(Action::Activate)
    );
    // Letting go afterwards does not switch a second time; Tab opens anew.
    assert_eq!(
        action(state.process(
            TapEvent::ModifiersChanged(ModifierState::default()),
            settings()
        )),
        None
    );
    let _ = state.process(TapEvent::ModifiersChanged(command_down()), settings());
    assert_eq!(
        action(state.process(key(MacKey::Tab), settings())),
        Some(Action::StepApp(1))
    );
}

#[test]
fn a_list_opened_from_the_menu_takes_letters_only_with_command() {
    let mut state = HotkeyState::default();
    state.set_overlay_active(true);
    let quit = key(MacKey::Command(WindowCommand::Quit));

    assert_eq!(state.process(quit, settings()), TapOutcome::suppressed());
    let _ = state.process(TapEvent::ModifiersChanged(command_down()), settings());
    assert_eq!(
        action(state.process(quit, settings())),
        Some(Action::Command(WindowCommand::Quit))
    );
    // Command coming up here was never a gesture, so it does not switch.
    assert_eq!(
        action(state.process(
            TapEvent::ModifiersChanged(ModifierState::default()),
            settings()
        )),
        None
    );
}

#[test]
fn keys_pass_through_after_the_overlay_hides() {
    let mut state = in_gesture();
    state.set_overlay_active(false);
    let _ = state.process(
        TapEvent::ModifiersChanged(ModifierState::default()),
        settings(),
    );

    assert_eq!(
        state.process(key(MacKey::Other), settings()),
        TapOutcome::default()
    );
    assert_eq!(
        state.process(TapEvent::KeyUp, settings()),
        TapOutcome::default()
    );
}

#[test]
fn clicking_outside_the_overlay_dismisses_it() {
    let mut state = HotkeyState::default();
    state.set_overlay_active(true);

    assert_eq!(
        state.process(
            TapEvent::LeftMouseDown {
                inside_overlay: true
            },
            settings()
        ),
        TapOutcome::default()
    );
    assert_eq!(
        action(state.process(
            TapEvent::LeftMouseDown {
                inside_overlay: false
            },
            settings()
        )),
        Some(Action::Dismiss)
    );
}

#[test]
fn the_portable_settings_choose_the_owned_gestures() {
    let mut portable = Settings::default();
    portable.general.replace_alt_tab = true;
    portable.general.replace_win_tab = false;
    assert_eq!(
        hotkey_settings(&portable),
        HotkeySettings {
            command_tab: true,
            option_tab: false,
        }
    );
    portable.general.replace_alt_tab = false;
    portable.general.replace_win_tab = true;
    assert_eq!(
        hotkey_settings(&portable),
        HotkeySettings {
            command_tab: false,
            option_tab: true,
        }
    );
}
