//! Keyboard and mouse hook behaviour, event by event.

use alttabio::input::{
    overlay_key_action, HookOutcome, HookSettings, HookState, InputAction, Key, KeyEvent,
    Modifiers, MouseEvent, OverlayKeyEvent, ReplayedKeyEvent, WindowCommand,
};

const ALT: Modifiers = Modifiers {
    alt: true,
    left_windows: false,
    right_windows: false,
};

#[test]
fn plain_right_click_passes_through() {
    let mut state = HookState::default();
    let settings = HookSettings::default();

    assert_eq!(
        state.process_mouse(MouseEvent::RightButtonPressed, settings),
        HookOutcome::default()
    );
    assert_eq!(
        state.process_mouse(MouseEvent::RightButtonReleased, settings),
        HookOutcome::default()
    );
}

#[test]
fn right_button_wheel_starts_then_advances_switcher() {
    let mut state = HookState::default();
    let settings = HookSettings::default();
    assert_eq!(
        state.process_mouse(MouseEvent::RightButtonPressed, settings),
        HookOutcome::default()
    );

    assert_eq!(
        state.process_mouse(MouseEvent::Wheel(120), settings),
        HookOutcome {
            suppress: true,
            actions: [
                Some(InputAction::RightButtonPressed),
                Some(InputAction::MouseWheel(1)),
            ],
        }
    );
    assert_eq!(
        state.process_mouse(MouseEvent::Wheel(-120), settings),
        HookOutcome {
            suppress: true,
            actions: [Some(InputAction::MouseWheel(-1)), None],
        }
    );
    assert_eq!(
        state.process_mouse(MouseEvent::RightButtonReleased, settings),
        HookOutcome {
            suppress: true,
            actions: [Some(InputAction::RightButtonReleased), None],
        }
    );
}

#[test]
fn disabled_right_button_wheel_switching_never_arms_release_activation() {
    let mut state = HookState::default();
    let settings = HookSettings {
        right_button_wheel_switching: false,
        ..HookSettings::default()
    };

    for event in [
        MouseEvent::RightButtonPressed,
        MouseEvent::Wheel(120),
        MouseEvent::RightButtonReleased,
    ] {
        assert_eq!(state.process_mouse(event, settings), HookOutcome::default());
    }
}

#[test]
fn plain_alt_release_passes_through_without_action() {
    let mut state = HookState::default();
    assert_eq!(
        state.process_key(
            KeyEvent::released(Key::Alt, Modifiers::default()),
            HookSettings::default()
        ),
        HookOutcome::default()
    );
}

#[test]
fn plain_alt_press_is_replayed_as_a_complete_sequence() {
    for alt_key in [Key::LeftAlt, Key::RightAlt] {
        let mut state = HookState::default();
        let settings = HookSettings::default();

        assert!(
            state
                .process_key(KeyEvent::pressed(alt_key, ALT), settings)
                .suppress
        );
        assert!(
            state
                .process_key(KeyEvent::released(alt_key, Modifiers::default()), settings)
                .suppress
        );
        assert_eq!(
            state.take_replayed_key_events(),
            [
                Some(ReplayedKeyEvent::pressed(alt_key)),
                Some(ReplayedKeyEvent::released(alt_key)),
                None,
            ]
        );
    }
}

#[test]
fn non_switch_alt_shortcut_is_replayed_without_changing_its_key_order() {
    let mut state = HookState::default();
    let settings = HookSettings::default();

    assert!(
        state
            .process_key(KeyEvent::pressed(Key::LeftAlt, ALT), settings)
            .suppress
    );
    assert!(
        state
            .process_key(KeyEvent::pressed(Key::F4, ALT), settings)
            .suppress
    );
    assert_eq!(
        state.take_replayed_key_events(),
        [
            Some(ReplayedKeyEvent::pressed(Key::LeftAlt)),
            Some(ReplayedKeyEvent::pressed(Key::F4)),
            None,
        ]
    );
    assert_eq!(
        state.process_key(KeyEvent::released(Key::F4, ALT), settings),
        HookOutcome::default()
    );
    assert_eq!(
        state.process_key(
            KeyEvent::released(Key::LeftAlt, Modifiers::default()),
            settings
        ),
        HookOutcome::default()
    );
}

#[test]
fn disabled_alt_tab_replacement_leaves_alt_input_untouched() {
    let mut state = HookState::default();
    let settings = HookSettings {
        replace_alt_tab: false,
        ..HookSettings::default()
    };

    assert_eq!(
        state.process_key(KeyEvent::pressed(Key::LeftAlt, ALT), settings),
        HookOutcome::default()
    );
    assert_eq!(
        state.process_key(
            KeyEvent::released(Key::LeftAlt, Modifiers::default()),
            settings
        ),
        HookOutcome::default()
    );
    assert_eq!(state.take_replayed_key_events(), [None; 3]);
}

#[test]
fn alt_release_after_alt_tab_requests_activation_and_passes_through_when_not_owned() {
    let mut state = HookState::default();
    let settings = HookSettings::default();

    assert_eq!(
        state.process_key(KeyEvent::pressed(Key::Tab, ALT), settings),
        HookOutcome {
            suppress: true,
            actions: [Some(InputAction::Switch(1)), None],
        }
    );
    assert_eq!(
        state.process_key(KeyEvent::released(Key::Tab, ALT), settings),
        HookOutcome {
            suppress: true,
            ..HookOutcome::default()
        }
    );
    assert_eq!(
        state.process_key(KeyEvent::released(Key::Alt, Modifiers::default()), settings),
        HookOutcome {
            suppress: false,
            actions: [Some(InputAction::AltReleased), None],
        }
    );
}

#[test]
fn alt_tab_owns_the_complete_physical_alt_sequence() {
    for alt_key in [Key::LeftAlt, Key::RightAlt] {
        let mut state = HookState::default();
        let settings = HookSettings::default();

        assert_eq!(
            state.process_key(KeyEvent::pressed(alt_key, ALT), settings),
            HookOutcome {
                suppress: true,
                ..HookOutcome::default()
            }
        );
        assert_eq!(
            state.process_key(KeyEvent::pressed(Key::Tab, ALT), settings),
            HookOutcome {
                suppress: true,
                actions: [Some(InputAction::Switch(1)), None],
            }
        );
        assert_eq!(
            state.process_key(KeyEvent::released(Key::Tab, ALT), settings),
            HookOutcome {
                suppress: true,
                ..HookOutcome::default()
            }
        );
        assert_eq!(
            state.process_key(KeyEvent::released(alt_key, Modifiers::default()), settings),
            HookOutcome {
                suppress: true,
                actions: [Some(InputAction::AltReleased), None],
            }
        );
        assert_eq!(state.take_replayed_key_events(), [None; 3]);
    }
}

#[test]
fn preheld_tab_release_is_not_owned_when_alt_tab_starts_from_repeat() {
    let mut state = HookState::default();
    let settings = HookSettings::default();

    assert_eq!(
        state.process_key(KeyEvent::pressed(Key::Tab, Modifiers::default()), settings),
        HookOutcome::default()
    );
    assert!(
        state
            .process_key(KeyEvent::pressed(Key::Tab, ALT), settings)
            .suppress
    );
    assert_eq!(
        state.process_key(KeyEvent::released(Key::Tab, ALT), settings),
        HookOutcome::default()
    );
}

#[test]
fn win_tab_does_not_arm_alt_release() {
    let mut state = HookState::default();
    let settings = HookSettings::default();
    let windows = Modifiers {
        left_windows: true,
        ..Modifiers::default()
    };

    assert!(
        state
            .process_key(KeyEvent::pressed(Key::LeftWindows, windows), settings)
            .suppress
    );
    assert_eq!(
        state.process_key(KeyEvent::pressed(Key::Tab, windows), settings),
        HookOutcome {
            suppress: true,
            actions: [Some(InputAction::Switch(1)), None],
        }
    );
    assert!(
        state
            .process_key(
                KeyEvent::released(Key::LeftWindows, Modifiers::default()),
                settings
            )
            .suppress
    );
    assert_eq!(
        state.process_key(KeyEvent::released(Key::Alt, Modifiers::default()), settings),
        HookOutcome::default()
    );
}

#[test]
fn win_tab_starts_before_the_async_windows_modifier_state_updates() {
    for windows_key in [Key::LeftWindows, Key::RightWindows] {
        let mut state = HookState::default();
        let settings = HookSettings::default();

        assert!(
            state
                .process_key(
                    KeyEvent::pressed(windows_key, Modifiers::default()),
                    settings
                )
                .suppress
        );
        assert_eq!(
            state.process_key(KeyEvent::pressed(Key::Tab, Modifiers::default()), settings),
            HookOutcome {
                suppress: true,
                actions: [Some(InputAction::Switch(1)), None],
            }
        );
        assert_eq!(state.take_replayed_key_events(), [None; 3]);
    }
}

#[test]
fn win_tab_owns_the_complete_physical_windows_key_sequence() {
    for (windows_key, windows) in [
        (
            Key::LeftWindows,
            Modifiers {
                left_windows: true,
                ..Modifiers::default()
            },
        ),
        (
            Key::RightWindows,
            Modifiers {
                right_windows: true,
                ..Modifiers::default()
            },
        ),
    ] {
        let mut state = HookState::default();
        let settings = HookSettings::default();

        assert!(
            state
                .process_key(KeyEvent::pressed(windows_key, windows), settings)
                .suppress
        );
        assert_eq!(
            state.process_key(KeyEvent::pressed(Key::Tab, windows), settings),
            HookOutcome {
                suppress: true,
                actions: [Some(InputAction::Switch(1)), None],
            }
        );
        assert!(
            state
                .process_key(KeyEvent::released(Key::Tab, windows), settings)
                .suppress
        );
        assert!(
            state
                .process_key(
                    KeyEvent::released(windows_key, Modifiers::default()),
                    settings
                )
                .suppress
        );
    }
}

#[test]
fn win_tab_repeats_remain_owned_without_replaying_windows_input() {
    for (windows_key, windows) in [
        (
            Key::LeftWindows,
            Modifiers {
                left_windows: true,
                ..Modifiers::default()
            },
        ),
        (
            Key::RightWindows,
            Modifiers {
                right_windows: true,
                ..Modifiers::default()
            },
        ),
    ] {
        let mut state = HookState::default();
        let settings = HookSettings::default();

        for _ in 0..2 {
            assert!(
                state
                    .process_key(KeyEvent::pressed(windows_key, windows), settings)
                    .suppress
            );
        }
        for _ in 0..2 {
            assert_eq!(
                state.process_key(KeyEvent::pressed(Key::Tab, windows), settings),
                HookOutcome {
                    suppress: true,
                    actions: [Some(InputAction::Switch(1)), None],
                }
            );
        }
        assert!(
            state
                .process_key(KeyEvent::pressed(windows_key, windows), settings)
                .suppress
        );
        assert!(
            state
                .process_key(KeyEvent::released(Key::Tab, windows), settings)
                .suppress
        );
        assert!(
            state
                .process_key(
                    KeyEvent::released(windows_key, Modifiers::default()),
                    settings
                )
                .suppress
        );
        assert_eq!(state.take_replayed_key_events(), [None; 3]);
    }
}

#[test]
fn a_windows_key_repress_during_the_owned_gesture_does_not_open_start() {
    for (windows_key, windows) in [
        (
            Key::LeftWindows,
            Modifiers {
                left_windows: true,
                ..Modifiers::default()
            },
        ),
        (
            Key::RightWindows,
            Modifiers {
                right_windows: true,
                ..Modifiers::default()
            },
        ),
    ] {
        let mut state = HookState::default();
        let settings = HookSettings::default();
        assert!(
            state
                .process_key(KeyEvent::pressed(windows_key, windows), settings)
                .suppress
        );
        assert!(
            state
                .process_key(KeyEvent::pressed(Key::Tab, windows), settings)
                .suppress
        );
        assert!(
            state
                .process_key(KeyEvent::released(Key::Tab, windows), settings)
                .suppress
        );
        assert!(
            state
                .process_key(
                    KeyEvent::released(windows_key, Modifiers::default()),
                    settings
                )
                .suppress
        );

        assert!(
            state
                .process_key(KeyEvent::pressed(windows_key, windows), settings)
                .suppress
        );
        assert!(
            state
                .process_key(
                    KeyEvent::released(windows_key, Modifiers::default()),
                    settings
                )
                .suppress
        );
        assert_eq!(state.take_replayed_key_events(), [None; 3]);
    }
}

#[test]
fn win_tab_release_pairs_remain_owned_in_either_physical_order() {
    for (windows_key, windows) in [
        (
            Key::LeftWindows,
            Modifiers {
                left_windows: true,
                ..Modifiers::default()
            },
        ),
        (
            Key::RightWindows,
            Modifiers {
                right_windows: true,
                ..Modifiers::default()
            },
        ),
    ] {
        for windows_released_first in [false, true] {
            let mut state = HookState::default();
            let settings = HookSettings::default();
            assert!(
                state
                    .process_key(KeyEvent::pressed(windows_key, windows), settings)
                    .suppress
            );
            assert!(
                state
                    .process_key(KeyEvent::pressed(Key::Tab, windows), settings)
                    .suppress
            );

            let windows_released = KeyEvent::released(windows_key, Modifiers::default());
            let tab_released = KeyEvent::released(Key::Tab, Modifiers::default());
            let releases = if windows_released_first {
                [windows_released, tab_released]
            } else {
                [tab_released, windows_released]
            };
            for release in releases {
                assert!(state.process_key(release, settings).suppress);
            }
            assert_eq!(state.take_replayed_key_events(), [None; 3]);
        }
    }
}

#[test]
fn a_preheld_windows_key_is_not_claimed_as_a_new_win_tab_gesture() {
    for (windows_key, windows) in [
        (
            Key::LeftWindows,
            Modifiers {
                left_windows: true,
                ..Modifiers::default()
            },
        ),
        (
            Key::RightWindows,
            Modifiers {
                right_windows: true,
                ..Modifiers::default()
            },
        ),
    ] {
        let mut state = HookState::default();
        let disabled = HookSettings {
            replace_win_tab: false,
            ..HookSettings::default()
        };
        assert_eq!(
            state.process_key(KeyEvent::pressed(windows_key, windows), disabled),
            HookOutcome::default()
        );

        let settings = HookSettings::default();
        assert_eq!(
            state.process_key(KeyEvent::pressed(Key::Tab, windows), settings),
            HookOutcome::default()
        );
        assert_eq!(
            state.process_key(KeyEvent::released(Key::Tab, windows), settings),
            HookOutcome::default()
        );
        assert_eq!(
            state.process_key(
                KeyEvent::released(windows_key, Modifiers::default()),
                settings
            ),
            HookOutcome::default()
        );
        assert_eq!(state.take_replayed_key_events(), [None; 3]);
    }
}

#[test]
fn windows_key_alone_is_replayed_as_a_complete_pair() {
    for windows_key in [Key::LeftWindows, Key::RightWindows] {
        let mut state = HookState::default();
        let settings = HookSettings::default();

        assert!(
            state
                .process_key(
                    KeyEvent::pressed(windows_key, Modifiers::default()),
                    settings
                )
                .suppress
        );
        assert!(
            state
                .process_key(
                    KeyEvent::released(windows_key, Modifiers::default()),
                    settings
                )
                .suppress
        );
        assert_eq!(
            state.take_replayed_key_events(),
            [
                Some(ReplayedKeyEvent::pressed(windows_key)),
                Some(ReplayedKeyEvent::released(windows_key)),
                None,
            ]
        );
    }
}

#[test]
fn unrelated_windows_shortcuts_are_replayed_and_released_to_windows() {
    for (windows_key, windows) in [
        (
            Key::LeftWindows,
            Modifiers {
                left_windows: true,
                ..Modifiers::default()
            },
        ),
        (
            Key::RightWindows,
            Modifiers {
                right_windows: true,
                ..Modifiers::default()
            },
        ),
    ] {
        for shortcut_key in [Key::Digit(1), Key::Other(u16::from(b'R'))] {
            let mut state = HookState::default();
            let settings = HookSettings {
                search_active: true,
                ..HookSettings::default()
            };

            assert!(
                state
                    .process_key(KeyEvent::pressed(windows_key, windows), settings)
                    .suppress
            );
            let shortcut = state.process_key(
                KeyEvent::pressed(shortcut_key, windows).with_text('r'),
                settings,
            );
            assert!(shortcut.suppress);
            assert_eq!(shortcut.actions().into_iter().next(), None);
            assert_eq!(
                state.take_replayed_key_events(),
                [
                    Some(ReplayedKeyEvent::pressed(windows_key)),
                    Some(ReplayedKeyEvent::pressed(shortcut_key)),
                    None,
                ]
            );
            assert_eq!(
                state.process_key(KeyEvent::released(shortcut_key, windows), settings),
                HookOutcome::default()
            );
            assert_eq!(
                state.process_key(
                    KeyEvent::released(windows_key, Modifiers::default()),
                    settings
                ),
                HookOutcome::default()
            );
        }
    }
}

#[test]
fn win_tab_owns_armed_gesture_input_instead_of_the_background_window() {
    let mut state = HookState::default();
    let settings = HookSettings::default();
    let windows = Modifiers {
        left_windows: true,
        ..Modifiers::default()
    };

    assert!(
        state
            .process_key(KeyEvent::pressed(Key::LeftWindows, windows), settings)
            .suppress
    );
    let trigger = state.process_key(KeyEvent::pressed(Key::Tab, windows), settings);
    let tab_released = state.process_key(KeyEvent::released(Key::Tab, windows), settings);
    let arrow_pressed = state.process_key(
        KeyEvent::pressed(Key::LeftArrow, Modifiers::default()),
        settings,
    );
    state.reset_gestures();
    let windows_released = state.process_key(
        KeyEvent::released(Key::LeftWindows, Modifiers::default()),
        settings,
    );
    let arrow_released = state.process_key(
        KeyEvent::released(Key::LeftArrow, Modifiers::default()),
        settings,
    );
    let background_key = state.process_key(
        KeyEvent::pressed(Key::Other(0x42), Modifiers::default()),
        settings,
    );

    assert_eq!(
        trigger,
        HookOutcome {
            suppress: true,
            actions: [Some(InputAction::Switch(1)), None],
        }
    );
    assert_eq!(
        arrow_pressed,
        HookOutcome {
            suppress: true,
            actions: [Some(InputAction::Navigate(-1)), None],
        }
    );
    assert_eq!(
        [
            tab_released.suppress,
            windows_released.suppress,
            arrow_pressed.suppress,
            arrow_released.suppress,
        ],
        [true; 4]
    );
    assert_eq!(tab_released.actions().into_iter().next(), None);
    assert_eq!(arrow_released.actions().into_iter().next(), None);
    assert_eq!(background_key, HookOutcome::default());
}

#[test]
fn alt_number_activates_visible_position_and_cancels_alt_release() {
    let mut state = HookState::default();
    let settings = HookSettings {
        search_active: true,
        ..HookSettings::default()
    };
    assert!(
        state
            .process_key(KeyEvent::pressed(Key::Tab, ALT), settings)
            .suppress
    );

    assert_eq!(
        state.process_key(KeyEvent::pressed(Key::NumpadDigit(9), ALT), settings),
        HookOutcome {
            suppress: true,
            actions: [Some(InputAction::ActivateVisiblePosition(9)), None],
        }
    );
    assert_eq!(
        state.process_key(KeyEvent::released(Key::Alt, Modifiers::default()), settings),
        HookOutcome::default()
    );
    assert!(
        state
            .process_key(
                KeyEvent::released(Key::NumpadDigit(9), Modifiers::default()),
                settings
            )
            .suppress
    );
}

#[test]
fn alt_number_without_switcher_passes_through() {
    let mut state = HookState::default();
    assert_eq!(
        state.process_key(
            KeyEvent::pressed(Key::Digit(1), ALT),
            HookSettings::default()
        ),
        HookOutcome::default()
    );
}

#[test]
fn either_shift_key_reverses_alt_tab_until_released() {
    for shift in [Key::LeftShift, Key::RightShift] {
        let mut state = HookState::default();
        let settings = HookSettings::default();
        assert_eq!(
            state.process_key(KeyEvent::pressed(shift, Modifiers::default()), settings),
            HookOutcome::default()
        );
        assert_eq!(
            state
                .process_key(KeyEvent::pressed(Key::Tab, ALT), settings)
                .actions()
                .into_iter().next(),
            Some(InputAction::Switch(-1))
        );

        assert_eq!(
            state.process_key(KeyEvent::released(shift, Modifiers::default()), settings),
            HookOutcome::default()
        );
        assert_eq!(
            state
                .process_key(KeyEvent::pressed(Key::Tab, ALT), settings)
                .actions()
                .into_iter().next(),
            Some(InputAction::Switch(1))
        );
    }
}

#[test]
fn shift_is_suppressed_during_alt_tab_gesture_to_prevent_language_change() {
    for shift in [Key::LeftShift, Key::RightShift] {
        let mut state = HookState::default();
        let settings = HookSettings::default();
        assert!(
            state
                .process_key(KeyEvent::pressed(Key::Tab, ALT), settings)
                .suppress
        );

        assert!(
            state
                .process_key(KeyEvent::pressed(shift, ALT), settings)
                .suppress
        );
        assert!(
            state
                .process_key(KeyEvent::released(shift, ALT), settings)
                .suppress
        );
    }
}

#[test]
fn search_keys_pass_through_when_search_is_inactive() {
    let mut state = HookState::default();
    let settings = HookSettings::default();

    assert_eq!(
        state.process_key(
            KeyEvent::pressed(Key::Other(u16::from(b'A')), Modifiers::default()).with_text('a'),
            settings
        ),
        HookOutcome::default()
    );
    assert_eq!(
        state.process_key(
            KeyEvent::pressed(Key::Backspace, Modifiers::default()),
            settings
        ),
        HookOutcome::default()
    );
}

#[test]
fn active_search_posts_text_and_suppresses_paired_transitions() {
    let mut state = HookState::default();
    let settings = HookSettings {
        search_active: true,
        ..HookSettings::default()
    };
    let key = Key::Other(u16::from(b'A'));

    assert_eq!(
        state.process_key(
            KeyEvent::pressed(key, Modifiers::default()).with_text('a'),
            settings
        ),
        HookOutcome {
            suppress: true,
            actions: [Some(InputAction::AppendSearchCharacter('a')), None],
        }
    );
    assert_eq!(
        state.process_key(KeyEvent::released(key, Modifiers::default()), settings),
        HookOutcome {
            suppress: true,
            actions: [None, None],
        }
    );
}

#[test]
fn active_search_backspace_is_handled_without_leaking() {
    let mut state = HookState::default();
    let settings = HookSettings {
        search_active: true,
        ..HookSettings::default()
    };

    assert_eq!(
        state.process_key(
            KeyEvent::pressed(Key::Backspace, Modifiers::default()),
            settings
        ),
        HookOutcome {
            suppress: true,
            actions: [Some(InputAction::BackspaceSearch), None],
        }
    );
    assert!(
        state
            .process_key(
                KeyEvent::released(Key::Backspace, Modifiers::default()),
                settings
            )
            .suppress
    );
}

#[test]
fn active_search_preserves_non_text_shortcuts() {
    let mut state = HookState::default();
    let settings = HookSettings {
        search_active: true,
        ..HookSettings::default()
    };
    let print_screen = Key::PrintScreen;

    assert_eq!(
        state.process_key(
            KeyEvent::pressed(print_screen, Modifiers::default()),
            settings
        ),
        HookOutcome::default()
    );
    assert_eq!(
        state.process_key(
            KeyEvent::released(print_screen, Modifiers::default()),
            settings
        ),
        HookOutcome::default()
    );
}

#[test]
fn active_search_preserves_windows_modified_text() {
    let mut state = HookState::default();
    let settings = HookSettings {
        search_active: true,
        ..HookSettings::default()
    };
    let windows = Modifiers {
        left_windows: true,
        ..Modifiers::default()
    };

    assert_eq!(
        state.process_key(
            KeyEvent::pressed(Key::Other(u16::from(b'R')), windows).with_text('r'),
            settings
        ),
        HookOutcome::default()
    );
}

#[test]
fn ctrl_print_screen_passes_through_while_resident() {
    for control in [Key::Control, Key::LeftControl, Key::RightControl] {
        let mut state = HookState::default();
        let settings = HookSettings::default();

        for event in [
            KeyEvent::pressed(control, Modifiers::default()),
            KeyEvent::pressed(Key::PrintScreen, Modifiers::default()),
            KeyEvent::released(Key::PrintScreen, Modifiers::default()),
            KeyEvent::released(control, Modifiers::default()),
        ] {
            assert_eq!(state.process_key(event, settings), HookOutcome::default());
        }
    }
}

#[test]
fn win_tab_then_ctrl_print_screen_passes_through_without_mutating_owned_releases() {
    for control in [Key::Control, Key::LeftControl, Key::RightControl] {
        for print_screen_released_first in [true, false] {
            let mut state = HookState::default();
            let settings = HookSettings {
                search_active: true,
                ..HookSettings::default()
            };
            let windows = Modifiers {
                left_windows: true,
                ..Modifiers::default()
            };
            assert!(
                state
                    .process_key(KeyEvent::pressed(Key::LeftWindows, windows), settings)
                    .suppress
            );
            assert!(
                state
                    .process_key(KeyEvent::pressed(Key::Tab, windows), settings)
                    .suppress
            );
            state.set_overlay_active(true);

            assert_eq!(
                state.process_key(KeyEvent::pressed(control, Modifiers::default()), settings),
                HookOutcome::default()
            );
            assert_eq!(
                state.process_key(
                    KeyEvent::pressed(Key::PrintScreen, Modifiers::default()),
                    settings
                ),
                HookOutcome::default()
            );

            let releases = if print_screen_released_first {
                [
                    KeyEvent::released(Key::PrintScreen, Modifiers::default()),
                    KeyEvent::released(control, Modifiers::default()),
                ]
            } else {
                [
                    KeyEvent::released(control, Modifiers::default()),
                    KeyEvent::released(Key::PrintScreen, Modifiers::default()),
                ]
            };
            for event in releases {
                assert_eq!(state.process_key(event, settings), HookOutcome::default());
            }
            assert!(
                state
                    .process_key(KeyEvent::released(Key::Tab, windows), settings)
                    .suppress
            );
            assert!(
                state
                    .process_key(
                        KeyEvent::released(Key::LeftWindows, Modifiers::default()),
                        settings
                    )
                    .suppress
            );
            assert_eq!(state.take_replayed_key_events(), [None; 3]);
            assert_eq!(
                state.process_key(
                    KeyEvent::pressed(Key::Other(u16::from(b'Q')), Modifiers::default())
                        .with_text('q'),
                    settings
                ),
                HookOutcome {
                    suppress: true,
                    actions: [Some(InputAction::AppendSearchCharacter('q')), None],
                }
            );
        }
    }
}

#[test]
fn typing_search_text_cancels_release_to_activate() {
    let mut state = HookState::default();
    let settings = HookSettings {
        search_active: true,
        ..HookSettings::default()
    };
    assert!(
        state
            .process_key(KeyEvent::pressed(Key::Tab, ALT), settings)
            .suppress
    );
    assert!(
        state
            .process_key(
                KeyEvent::pressed(Key::Other(u16::from(b'K')), ALT).with_text('k'),
                settings
            )
            .suppress
    );

    assert_eq!(
        state.process_key(KeyEvent::released(Key::Alt, Modifiers::default()), settings),
        HookOutcome::default()
    );
}

#[test]
fn arrows_navigate_directionally_and_suppress_paired_transitions() {
    for (key, delta) in [
        (Key::LeftArrow, -1),
        (Key::UpArrow, -1),
        (Key::RightArrow, 1),
        (Key::DownArrow, 1),
    ] {
        let mut state = HookState::default();
        let settings = HookSettings::default();
        assert!(
            state
                .process_key(KeyEvent::pressed(Key::Tab, ALT), settings)
                .suppress
        );

        assert_eq!(
            state.process_key(KeyEvent::pressed(key, ALT), settings),
            HookOutcome {
                suppress: true,
                actions: [Some(InputAction::Navigate(delta)), None],
            }
        );
        assert_eq!(
            state.process_key(KeyEvent::released(Key::Alt, Modifiers::default()), settings),
            HookOutcome {
                suppress: false,
                actions: [Some(InputAction::AltReleased), None],
            }
        );
        assert_eq!(
            state.process_key(KeyEvent::released(key, Modifiers::default()), settings),
            HookOutcome {
                suppress: true,
                ..HookOutcome::default()
            }
        );
    }
}

#[test]
fn enter_outside_a_switch_gesture_passes_through() {
    let mut state = HookState::default();
    let settings = HookSettings::default();

    assert_eq!(
        state.process_key(
            KeyEvent::pressed(Key::Enter, Modifiers::default()),
            settings
        ),
        HookOutcome::default()
    );
    assert_eq!(
        state.process_key(
            KeyEvent::released(Key::Enter, Modifiers::default()),
            settings
        ),
        HookOutcome::default()
    );
}

#[test]
fn enter_activates_selected_once_and_suppresses_the_complete_key_sequence() {
    let mut state = HookState::default();
    let settings = HookSettings::default();
    assert!(
        state
            .process_key(KeyEvent::pressed(Key::Tab, ALT), settings)
            .suppress
    );

    assert_eq!(
        state.process_key(KeyEvent::pressed(Key::Enter, ALT), settings),
        HookOutcome {
            suppress: true,
            actions: [Some(InputAction::ActivateSelected), None],
        }
    );
    assert_eq!(
        state.process_key(KeyEvent::pressed(Key::Enter, ALT), settings),
        HookOutcome {
            suppress: true,
            ..HookOutcome::default()
        }
    );
    assert_eq!(
        state.process_key(KeyEvent::released(Key::Enter, ALT), settings),
        HookOutcome {
            suppress: true,
            ..HookOutcome::default()
        }
    );
    assert_eq!(
        state.process_key(KeyEvent::released(Key::Alt, Modifiers::default()), settings),
        HookOutcome::default()
    );
}

#[test]
fn arrows_pass_through_without_an_active_switch_gesture() {
    let mut state = HookState::default();
    let settings = HookSettings::default();

    for key in [
        Key::LeftArrow,
        Key::UpArrow,
        Key::RightArrow,
        Key::DownArrow,
    ] {
        assert_eq!(
            state.process_key(KeyEvent::pressed(key, Modifiers::default()), settings),
            HookOutcome::default()
        );
        assert_eq!(
            state.process_key(KeyEvent::released(key, Modifiers::default()), settings),
            HookOutcome::default()
        );
    }
}

#[test]
fn home_and_end_are_suppressed_and_dispatched_during_switch_gesture() {
    for (key, action) in [
        (Key::Home, InputAction::SelectFirst),
        (Key::End, InputAction::SelectLast),
    ] {
        let mut state = HookState::default();
        let settings = HookSettings::default();
        assert!(
            state
                .process_key(KeyEvent::pressed(Key::Tab, ALT), settings)
                .suppress
        );

        assert_eq!(
            state.process_key(KeyEvent::pressed(key, ALT), settings),
            HookOutcome {
                suppress: true,
                actions: [Some(action), None],
            }
        );
        assert_eq!(
            state.process_key(KeyEvent::released(Key::Alt, Modifiers::default()), settings),
            HookOutcome {
                suppress: false,
                actions: [Some(InputAction::AltReleased), None],
            }
        );
        assert_eq!(
            state.process_key(KeyEvent::released(key, Modifiers::default()), settings),
            HookOutcome {
                suppress: true,
                ..HookOutcome::default()
            }
        );
    }
}

#[test]
fn home_and_end_pass_through_without_switch_gesture() {
    for key in [Key::Home, Key::End] {
        let mut state = HookState::default();
        let settings = HookSettings::default();

        assert_eq!(
            state.process_key(KeyEvent::pressed(key, ALT), settings),
            HookOutcome::default()
        );
        assert_eq!(
            state.process_key(KeyEvent::released(key, Modifiers::default()), settings),
            HookOutcome::default()
        );
    }
}

#[test]
fn escape_dismisses_active_switcher_without_activation_or_delayed_leak() {
    let mut state = HookState::default();
    let settings = HookSettings::default();
    assert!(
        state
            .process_key(KeyEvent::pressed(Key::Tab, ALT), settings)
            .suppress
    );
    state.set_overlay_active(true);

    assert_eq!(
        state.process_key(KeyEvent::pressed(Key::Escape, ALT), settings),
        HookOutcome {
            suppress: true,
            actions: [Some(InputAction::DismissOverlay), None],
        }
    );
    state.set_overlay_active(false);
    assert_eq!(
        state.process_key(KeyEvent::pressed(Key::Escape, ALT), settings),
        HookOutcome {
            suppress: true,
            ..HookOutcome::default()
        }
    );
    assert_eq!(
        state.process_key(KeyEvent::released(Key::Escape, ALT), settings),
        HookOutcome {
            suppress: true,
            ..HookOutcome::default()
        }
    );
    assert_eq!(
        state.process_key(KeyEvent::released(Key::Alt, Modifiers::default()), settings),
        HookOutcome::default()
    );
}

#[test]
fn escape_passes_through_when_overlay_is_inactive() {
    let mut state = HookState::default();
    let settings = HookSettings::default();

    assert_eq!(
        state.process_key(
            KeyEvent::pressed(Key::Escape, Modifiers::default()),
            settings
        ),
        HookOutcome::default()
    );
    assert_eq!(
        state.process_key(
            KeyEvent::released(Key::Escape, Modifiers::default()),
            settings
        ),
        HookOutcome::default()
    );
}

#[test]
fn escape_dismisses_overlay_without_an_alt_tab_gesture() {
    let mut state = HookState::default();
    let settings = HookSettings::default();
    state.set_overlay_active(true);

    assert_eq!(
        state.process_key(
            KeyEvent::pressed(Key::Escape, Modifiers::default()),
            settings
        ),
        HookOutcome {
            suppress: true,
            actions: [Some(InputAction::DismissOverlay), None],
        }
    );
    state.set_overlay_active(false);
    assert!(
        state
            .process_key(
                KeyEvent::released(Key::Escape, Modifiers::default()),
                settings
            )
            .suppress
    );
}

#[test]
fn f4_closes_once_and_suppresses_repeat_and_key_up_during_switch_gesture() {
    let mut state = HookState::default();
    let settings = HookSettings::default();
    assert!(
        state
            .process_key(KeyEvent::pressed(Key::Tab, ALT), settings)
            .suppress
    );

    assert_eq!(
        state.process_key(KeyEvent::pressed(Key::F4, ALT), settings),
        HookOutcome {
            suppress: true,
            actions: [Some(InputAction::CloseSelected), None],
        }
    );
    assert_eq!(
        state.process_key(KeyEvent::pressed(Key::F4, ALT), settings),
        HookOutcome {
            suppress: true,
            ..HookOutcome::default()
        }
    );
    assert!(
        state
            .process_key(KeyEvent::released(Key::F4, ALT), settings)
            .suppress
    );
}

#[test]
fn alt_f4_outside_switch_gesture_passes_through() {
    let mut state = HookState::default();
    let settings = HookSettings::default();

    assert_eq!(
        state.process_key(KeyEvent::pressed(Key::F4, ALT), settings),
        HookOutcome::default()
    );
    assert_eq!(
        state.process_key(KeyEvent::released(Key::F4, ALT), settings),
        HookOutcome::default()
    );
}

#[test]
fn f4_key_up_remains_suppressed_after_alt_is_released() {
    let mut state = HookState::default();
    let settings = HookSettings::default();
    assert!(
        state
            .process_key(KeyEvent::pressed(Key::Tab, ALT), settings)
            .suppress
    );
    assert!(
        state
            .process_key(KeyEvent::pressed(Key::F4, ALT), settings)
            .suppress
    );
    assert_eq!(
        state.process_key(KeyEvent::released(Key::Alt, Modifiers::default()), settings),
        HookOutcome {
            suppress: false,
            actions: [Some(InputAction::AltReleased), None],
        }
    );
    assert!(
        state
            .process_key(KeyEvent::released(Key::F4, Modifiers::default()), settings)
            .suppress
    );
}

#[test]
fn f5_through_f9_execute_exact_commands_and_suppress_paired_transitions() {
    let shortcuts = [
        (Key::Function(5), WindowCommand::Minimize),
        (Key::Function(6), WindowCommand::Maximize),
        (Key::Function(7), WindowCommand::Restore),
        (Key::Function(8), WindowCommand::Terminate),
        (Key::Function(9), WindowCommand::Run),
    ];

    for (key, command) in shortcuts {
        let mut state = HookState::default();
        let settings = HookSettings::default();
        assert!(
            state
                .process_key(KeyEvent::pressed(Key::Tab, ALT), settings)
                .suppress
        );

        assert_eq!(
            state.process_key(KeyEvent::pressed(key, ALT), settings),
            HookOutcome {
                suppress: true,
                actions: [Some(InputAction::WindowCommand(command)), None],
            }
        );
        assert_eq!(
            state.process_key(KeyEvent::pressed(key, ALT), settings),
            HookOutcome {
                suppress: true,
                ..HookOutcome::default()
            }
        );
        assert_eq!(
            state.process_key(KeyEvent::released(Key::Alt, Modifiers::default()), settings),
            HookOutcome {
                suppress: false,
                actions: [Some(InputAction::AltReleased), None],
            }
        );
        assert!(
            state
                .process_key(KeyEvent::released(key, Modifiers::default()), settings)
                .suppress
        );
    }
}

#[test]
fn function_key_pressed_before_switch_gesture_keeps_its_release_pair() {
    let mut state = HookState::default();
    let settings = HookSettings::default();
    assert_eq!(
        state.process_key(
            KeyEvent::pressed(Key::Function(5), Modifiers::default()),
            settings
        ),
        HookOutcome::default()
    );
    assert!(
        state
            .process_key(KeyEvent::pressed(Key::Tab, ALT), settings)
            .suppress
    );
    assert_eq!(
        state.process_key(KeyEvent::released(Key::Function(5), ALT), settings),
        HookOutcome::default()
    );
}

#[test]
fn win_tab_uses_semantic_navigation_commands_then_allows_typed_search() {
    let mut state = HookState::default();
    let settings = HookSettings {
        search_active: true,
        ..HookSettings::default()
    };
    let windows = Modifiers {
        left_windows: true,
        ..Modifiers::default()
    };

    assert!(
        state
            .process_key(KeyEvent::pressed(Key::LeftWindows, windows), settings)
            .suppress
    );
    assert!(
        state
            .process_key(KeyEvent::pressed(Key::Tab, windows), settings)
            .suppress
    );
    assert!(
        state
            .process_key(KeyEvent::released(Key::Tab, windows), settings)
            .suppress
    );
    assert!(
        state
            .process_key(
                KeyEvent::released(Key::LeftWindows, Modifiers::default()),
                settings
            )
            .suppress
    );
    assert_eq!(
        state.process_key(
            KeyEvent::pressed(Key::RightArrow, Modifiers::default()),
            settings
        ),
        HookOutcome {
            suppress: true,
            actions: [Some(InputAction::Navigate(1)), None],
        }
    );
    assert!(
        state
            .process_key(
                KeyEvent::released(Key::RightArrow, Modifiers::default()),
                settings
            )
            .suppress
    );
    assert_eq!(
        state.process_key(
            KeyEvent::pressed(Key::Other(u16::from(b'A')), Modifiers::default()).with_text('a'),
            settings
        ),
        HookOutcome {
            suppress: true,
            actions: [Some(InputAction::AppendSearchCharacter('a')), None],
        }
    );
    state.reset_gestures();
    assert!(
        state
            .process_key(
                KeyEvent::released(Key::Other(u16::from(b'A')), Modifiers::default()),
                settings
            )
            .suppress
    );
}

#[test]
fn resetting_gestures_preserves_owned_release_pairs() {
    let mut state = HookState::default();
    let settings = HookSettings::default();
    assert!(
        state
            .process_key(KeyEvent::pressed(Key::Tab, ALT), settings)
            .suppress
    );
    assert!(
        state
            .process_key(KeyEvent::pressed(Key::Function(9), ALT), settings)
            .suppress
    );

    state.reset_gestures();

    assert!(
        state
            .process_key(
                KeyEvent::released(Key::Function(9), Modifiers::default()),
                settings
            )
            .suppress
    );
}

#[test]
fn rejected_open_reset_allows_a_later_alt_tab_gesture() {
    let mut state = HookState::default();
    let settings = HookSettings::default();

    assert!(
        state
            .process_key(KeyEvent::pressed(Key::Alt, ALT), settings)
            .suppress
    );
    assert_eq!(
        state.process_key(KeyEvent::pressed(Key::Tab, ALT), settings),
        HookOutcome {
            suppress: true,
            actions: [Some(InputAction::Switch(1)), None],
        }
    );

    state.set_overlay_active(true);
    state.set_overlay_active(false);
    state.reset_gestures();

    assert_eq!(
        state.process_key(KeyEvent::released(Key::Tab, ALT), settings),
        HookOutcome {
            suppress: true,
            ..HookOutcome::default()
        }
    );
    assert_eq!(
        state.process_key(KeyEvent::released(Key::Alt, Modifiers::default()), settings),
        HookOutcome {
            suppress: true,
            ..HookOutcome::default()
        }
    );

    assert!(
        state
            .process_key(KeyEvent::pressed(Key::Alt, ALT), settings)
            .suppress
    );
    assert_eq!(
        state.process_key(KeyEvent::pressed(Key::Tab, ALT), settings),
        HookOutcome {
            suppress: true,
            actions: [Some(InputAction::Switch(1)), None],
        }
    );
    state.set_overlay_active(true);
    assert_eq!(
        state.process_key(KeyEvent::released(Key::Tab, ALT), settings),
        HookOutcome {
            suppress: true,
            ..HookOutcome::default()
        }
    );
    assert_eq!(
        state.process_key(KeyEvent::released(Key::Alt, Modifiers::default()), settings),
        HookOutcome {
            suppress: true,
            actions: [Some(InputAction::AltReleased), None],
        }
    );
}

#[test]
fn overlay_numbers_produce_semantic_activation_actions() {
    assert_eq!(
        overlay_key_action(OverlayKeyEvent::pressed(Key::Digit(3))),
        Some(InputAction::ActivateVisiblePosition(3))
    );
    assert_eq!(
        overlay_key_action(OverlayKeyEvent::pressed(Key::NumpadDigit(9))),
        Some(InputAction::ActivateVisiblePosition(9))
    );
}

#[test]
fn overlay_navigation_keys_produce_semantic_actions() {
    assert_eq!(
        overlay_key_action(OverlayKeyEvent::pressed(Key::Tab)),
        Some(InputAction::Switch(1))
    );
    assert_eq!(
        overlay_key_action(OverlayKeyEvent {
            key: Key::Tab,
            repeated: true,
            shift: true,
        }),
        Some(InputAction::Switch(-1))
    );
    assert_eq!(
        overlay_key_action(OverlayKeyEvent::pressed(Key::LeftArrow)),
        Some(InputAction::Navigate(-1))
    );
    assert_eq!(
        overlay_key_action(OverlayKeyEvent::pressed(Key::RightArrow)),
        Some(InputAction::Navigate(1))
    );
    assert_eq!(
        overlay_key_action(OverlayKeyEvent::pressed(Key::Home)),
        Some(InputAction::SelectFirst)
    );
    assert_eq!(
        overlay_key_action(OverlayKeyEvent::pressed(Key::End)),
        Some(InputAction::SelectLast)
    );
}

#[test]
fn overlay_one_shot_keys_ignore_repeated_messages() {
    let cases = [
        (Key::Enter, InputAction::ActivateSelected),
        (Key::Escape, InputAction::DismissOverlay),
        (Key::F4, InputAction::CloseSelected),
        (
            Key::Function(5),
            InputAction::WindowCommand(WindowCommand::Minimize),
        ),
        (
            Key::Function(9),
            InputAction::WindowCommand(WindowCommand::Run),
        ),
    ];

    for (key, action) in cases {
        assert_eq!(
            overlay_key_action(OverlayKeyEvent::pressed(key)),
            Some(action)
        );
        assert_eq!(
            overlay_key_action(OverlayKeyEvent {
                key,
                repeated: true,
                shift: false,
            }),
            None
        );
    }
}
