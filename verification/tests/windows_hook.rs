//! The Windows input hook: virtual keys, action messages, the modal flag word and the observed
//! keyboard.

use alttabio::hook::{
    action_message, action_wparam, decode_action, decode_virtual_key, generation_of_epoch,
    is_extended_virtual_key, is_own_replayed_input, replay_inputs, replay_progress,
    noted_boundary, replayed_key_input, shell_escape_events, timestamp_at_or_after, callback_end, CallbackEnd,
    HookFlags, KeyboardInput, KEYEVENTF_EXTENDEDKEY, KEYEVENTF_KEYUP, SHELL_ESCAPE_GUARDS,
    HookInterceptionGuard, KeyboardState, ACTION_ACTIVATE_SELECTED, ACTION_CLOSE_SELECTED,
    ACTION_CODE_MASK, ACTION_DISMISS_OVERLAY, ACTION_EPOCH_MASK, ACTION_NAVIGATE,
    ACTION_SELECT_FIRST, ACTION_SELECT_LAST, ACTION_WINDOW_COMMAND, INTERCEPTION_SUSPENDED,
    OVERLAY_ACTIVE, OVERLAY_FLAGS, REPLAYED_INPUT_MARKER, SEARCH_ACTIVE,
};
use alttabio::hook::{
    interception_changed, interception_flags, keyboard_settings, posting_failed, posting_step,
    record_error, PostingStep,
    registered_outcome_message, registered_switch_dispatch, registered_switch_started,
    registered_switch_step, route_thread_message, RegisteredDispatch, RegisteredSwitchAction, RegisteredSwitchEvent, RegisteredSwitchState, ThreadMessage,
    HOOK_ERROR_POST_ACTION, HOOK_ERROR_REPLAY_INPUT, TAB_KEY, WM_HOOK_ACTION,
    WM_HOOK_HOTKEY_ACTION, WM_HOTKEY,
    WM_RECONCILE_KEYBOARD, WM_REPORT_HOOK_ERRORS, WM_RESET_GESTURES, WM_TIMER,
};
use alttabio::input::HookOutcome;
use alttabio::input::{
    HookSettings, HookState, InputAction, Key, KeyEvent, KeyTransition, Modifiers, ReplayedKeyEvent,
    WindowCommand,
};

const VK_BACK: u16 = 0x08;
const VK_TAB: u16 = 0x09;
const VK_RETURN: u16 = 0x0D;
const VK_SHIFT: u16 = 0x10;
const VK_CONTROL: u16 = 0x11;
const VK_MENU: u16 = 0x12;
const VK_CAPITAL: u16 = 0x14;
const VK_ESCAPE: u16 = 0x1B;
const VK_END: u16 = 0x23;
const VK_HOME: u16 = 0x24;
const VK_LEFT: u16 = 0x25;
const VK_UP: u16 = 0x26;
const VK_RIGHT: u16 = 0x27;
const VK_DOWN: u16 = 0x28;
const VK_SNAPSHOT: u16 = 0x2C;
const VK_LWIN: u16 = 0x5B;
const VK_RWIN: u16 = 0x5C;
const VK_F4: u16 = 0x73;
const VK_F5: u16 = 0x74;
const VK_F6: u16 = 0x75;
const VK_F7: u16 = 0x76;
const VK_F8: u16 = 0x77;
const VK_F9: u16 = 0x78;
const VK_NUMLOCK: u16 = 0x90;
const VK_SCROLL: u16 = 0x91;
const VK_LSHIFT: u16 = 0xA0;
const VK_RSHIFT: u16 = 0xA1;
const VK_LCONTROL: u16 = 0xA2;
const VK_RCONTROL: u16 = 0xA3;
const VK_LMENU: u16 = 0xA4;
const VK_RMENU: u16 = 0xA5;

/// Hands out generations the way the hook's epoch counter does.
struct Generations(usize);

impl Generations {
    fn next(&mut self) -> usize {
        let generation = generation_of_epoch(self.0);
        self.0 += 1;
        generation
    }
}

#[test]
fn only_alttabios_exact_replay_marker_bypasses_hook_processing() {
    assert!(is_own_replayed_input(REPLAYED_INPUT_MARKER));
    assert!(!is_own_replayed_input(0));
    assert!(!is_own_replayed_input(REPLAYED_INPUT_MARKER + 1));
}

#[test]
fn action_epoch_encoding_and_validation_use_the_same_wrap_mask() {
    for generation in [0, 8, ACTION_EPOCH_MASK << 3, usize::MAX & !7] {
        let flags = HookFlags::with_value(generation);
        let action = action_wparam(ACTION_CLOSE_SELECTED, generation);
        assert_eq!(action & ACTION_CODE_MASK, ACTION_CLOSE_SELECTED);
        assert_eq!(action >> 8, (generation >> 3) & ACTION_EPOCH_MASK);
        assert!(flags.action_is_current(action));
        assert_eq!(decode_action(action, 0), Some(InputAction::CloseSelected));
    }
}

#[test]
fn scoped_suspension_restores_every_flag_combination_with_new_generations() {
    let mut generations = Generations(1);
    for saved_flags in 0..=7 {
        let mut flags = HookFlags::with_value(saved_flags);
        let initial_generation = flags.load() & !7;
        let guard = HookInterceptionGuard::new(&mut flags, generations.next());
        let suspended = flags.load();
        assert_eq!(suspended & 7, INTERCEPTION_SUSPENDED);
        assert_ne!(suspended & !7, initial_generation);
        assert!(!flags.update_overlay(initial_generation, true, true));
        flags.set(SEARCH_ACTIVE, true);
        flags.set(OVERLAY_ACTIVE, true);
        guard.restore(&mut flags, generations.next());
        assert_eq!(flags.load() & 7, saved_flags);
        assert_ne!(flags.load() & !7, suspended & !7);
        assert!(!flags.update_overlay(suspended & !OVERLAY_FLAGS, true, true));
    }
}

#[test]
fn nested_scoped_suspension_restores_outer_state_without_resuming_it() {
    let mut generations = Generations(1);
    let mut flags = HookFlags::with_value(OVERLAY_FLAGS);
    let outer = HookInterceptionGuard::new(&mut flags, generations.next());
    flags.set(SEARCH_ACTIVE, true);
    {
        let inner = HookInterceptionGuard::new(&mut flags, generations.next());
        assert_eq!(flags.load() & 7, INTERCEPTION_SUSPENDED);
        flags.set(OVERLAY_ACTIVE, true);
        inner.restore(&mut flags, generations.next());
    }
    assert_eq!(flags.load() & 7, INTERCEPTION_SUSPENDED | SEARCH_ACTIVE);
    outer.restore(&mut flags, generations.next());
    assert_eq!(flags.load() & 7, OVERLAY_FLAGS);
}

#[test]
fn observed_modifiers_combine_both_sides_and_toggle_only_on_first_press() {
    let mut state = KeyboardState::default();
    for (aggregate, left, right) in [
        (VK_SHIFT, VK_LSHIFT, VK_RSHIFT),
        (VK_CONTROL, VK_LCONTROL, VK_RCONTROL),
        (VK_MENU, VK_LMENU, VK_RMENU),
    ] {
        state.observe(u32::from(left), KeyTransition::Pressed);
        state.observe(u32::from(right), KeyTransition::Pressed);
        state.observe(u32::from(left), KeyTransition::Released);
        assert_eq!(state.keys[usize::from(aggregate)], 0x80);
        state.observe(u32::from(right), KeyTransition::Released);
        assert_eq!(state.keys[usize::from(aggregate)], 0);
    }
    for key in [VK_CAPITAL, VK_NUMLOCK, VK_SCROLL] {
        state.observe(u32::from(key), KeyTransition::Pressed);
        state.commit_forwarded(u32::from(key), KeyTransition::Pressed);
        state.observe(u32::from(key), KeyTransition::Pressed);
        state.commit_forwarded(u32::from(key), KeyTransition::Pressed);
        assert_eq!(state.keys[usize::from(key)], 0x81);
        state.observe(u32::from(key), KeyTransition::Released);
        state.commit_forwarded(u32::from(key), KeyTransition::Released);
        assert_eq!(state.keys[usize::from(key)], 1);
        state.observe(u32::from(key), KeyTransition::Pressed);
        state.commit_forwarded(u32::from(key), KeyTransition::Pressed);
        assert_eq!(state.keys[usize::from(key)], 0x80);
    }
}

#[test]
fn arrow_virtual_keys_map_to_directional_hook_keys() {
    assert_eq!(decode_virtual_key(u32::from(VK_LEFT)), Key::LeftArrow);
    assert_eq!(decode_virtual_key(u32::from(VK_UP)), Key::UpArrow);
    assert_eq!(decode_virtual_key(u32::from(VK_RIGHT)), Key::RightArrow);
    assert_eq!(decode_virtual_key(u32::from(VK_DOWN)), Key::DownArrow);
}

#[test]
fn windows_virtual_keys_preserve_their_physical_side() {
    assert_eq!(decode_virtual_key(u32::from(VK_LWIN)), Key::LeftWindows);
    assert_eq!(decode_virtual_key(u32::from(VK_RWIN)), Key::RightWindows);
}

#[test]
fn control_and_print_screen_virtual_keys_map_to_passthrough_hook_keys() {
    assert_eq!(decode_virtual_key(u32::from(VK_CONTROL)), Key::Control);
    assert_eq!(decode_virtual_key(u32::from(VK_LCONTROL)), Key::LeftControl);
    assert_eq!(decode_virtual_key(u32::from(VK_RCONTROL)), Key::RightControl);
    assert_eq!(decode_virtual_key(u32::from(VK_SNAPSHOT)), Key::PrintScreen);
}

#[test]
fn navigation_actions_decode_in_both_directions() {
    assert_eq!(
        decode_action(ACTION_NAVIGATE, -1),
        Some(InputAction::Navigate(-1))
    );
    assert_eq!(
        decode_action(ACTION_NAVIGATE, 1),
        Some(InputAction::Navigate(1))
    );
}

#[test]
fn enter_virtual_key_and_activation_message_map_to_the_new_input_event() {
    assert_eq!(decode_virtual_key(u32::from(VK_RETURN)), Key::Enter);
    assert_eq!(
        decode_action(ACTION_ACTIVATE_SELECTED, 0),
        Some(InputAction::ActivateSelected)
    );
}

#[test]
fn home_and_end_virtual_keys_map_to_boundary_keys() {
    assert_eq!(decode_virtual_key(u32::from(VK_HOME)), Key::Home);
    assert_eq!(decode_virtual_key(u32::from(VK_END)), Key::End);
}

#[test]
fn boundary_actions_round_trip_through_hook_message_payloads() {
    assert_eq!(
        decode_action(ACTION_SELECT_FIRST, 0),
        Some(InputAction::SelectFirst)
    );
    assert_eq!(
        decode_action(ACTION_SELECT_LAST, 0),
        Some(InputAction::SelectLast)
    );
}

#[test]
fn escape_virtual_key_maps_to_escape_input() {
    assert_eq!(decode_virtual_key(u32::from(VK_ESCAPE)), Key::Escape);
}

#[test]
fn dismiss_overlay_action_decodes_for_the_ui_thread() {
    assert_eq!(
        decode_action(ACTION_DISMISS_OVERLAY, 0),
        Some(InputAction::DismissOverlay)
    );
}

#[test]
fn f4_maps_to_close_selected_across_the_hook_message_boundary() {
    assert_eq!(decode_virtual_key(u32::from(VK_F4)), Key::F4);
    assert_eq!(
        decode_action(ACTION_CLOSE_SELECTED, 0),
        Some(InputAction::CloseSelected)
    );
}

#[test]
fn f5_through_f9_map_to_semantic_function_keys() {
    for (virtual_key, function_key) in
        [(VK_F5, 5), (VK_F6, 6), (VK_F7, 7), (VK_F8, 8), (VK_F9, 9)]
    {
        assert_eq!(
            decode_virtual_key(u32::from(virtual_key)),
            Key::Function(function_key)
        );
    }
}

#[test]
fn window_command_actions_round_trip_through_hook_message_payloads() {
    for command in [
        WindowCommand::Minimize,
        WindowCommand::Maximize,
        WindowCommand::Restore,
        WindowCommand::Terminate,
        WindowCommand::Run,
    ] {
        assert_eq!(
            decode_action(
                ACTION_WINDOW_COMMAND,
                isize::from(command.function_key())
            ),
            Some(InputAction::WindowCommand(command))
        );
    }
}

#[test]
fn every_posted_action_decodes_as_itself_under_any_generation() {
    let actions = [
        InputAction::Switch(-3),
        InputAction::Navigate(i32::MAX),
        InputAction::ActivateSelected,
        InputAction::SelectFirst,
        InputAction::SelectLast,
        InputAction::DismissOverlay,
        InputAction::CloseSelected,
        InputAction::WindowCommand(WindowCommand::Close),
        InputAction::ActivateVisiblePosition(4),
        InputAction::AltReleased,
        InputAction::RightButtonPressed,
        InputAction::RightButtonReleased,
        InputAction::MouseWheel(-120),
        InputAction::AppendSearchCharacter('é'),
        InputAction::BackspaceSearch,
    ];
    for generation in [0, 8, 0x1234_5678 & !7] {
        for action in actions {
            let (code, value) = action_message(action);
            assert_eq!(
                decode_action(action_wparam(code, generation), value),
                Some(action)
            );
        }
    }
}

#[test]
fn app_commands_and_malformed_payloads_do_not_decode() {
    let (code, value) = action_message(InputAction::WindowCommand(WindowCommand::Hide));
    assert_eq!(decode_action(code, value), None);
    assert_eq!(decode_action(ACTION_NAVIGATE, isize::MAX), None);
    assert_eq!(decode_action(0x08, 0xD800), None);
    assert_eq!(decode_action(0x08, 0x41), Some(InputAction::AppendSearchCharacter('A')));
    assert_eq!(decode_action(0x02, -1), None);
    assert_eq!(decode_action(0x07, 0), None);
}

#[test]
fn every_named_key_and_digit_decodes_back_from_its_code() {
    for key in [
        Key::Tab,
        Key::Backspace,
        Key::Alt,
        Key::LeftAlt,
        Key::RightAlt,
        Key::LeftShift,
        Key::RightShift,
        Key::Digit(1),
        Key::Digit(9),
        Key::NumpadDigit(1),
        Key::NumpadDigit(9),
        Key::Other(0x41),
    ] {
        assert_eq!(decode_virtual_key(u32::from(key_code(key))), key);
    }
    assert_eq!(decode_virtual_key(0x30), Key::Other(0x30));
    assert_eq!(decode_virtual_key(0x1_0000), Key::Other(0));
    assert_eq!(decode_virtual_key(u32::from(VK_BACK)), Key::Backspace);
    assert_eq!(decode_virtual_key(u32::from(VK_TAB)), Key::Tab);
}

fn key_code(key: Key) -> u16 {
    alttabio::input::virtual_key(key)
}

#[test]
fn extended_keys_and_tick_order_follow_the_hook_rules() {
    assert!(is_extended_virtual_key(VK_LEFT));
    assert!(is_extended_virtual_key(VK_LWIN));
    assert!(is_extended_virtual_key(VK_RCONTROL));
    assert!(!is_extended_virtual_key(VK_LCONTROL));
    assert!(!is_extended_virtual_key(VK_TAB));
    assert!(timestamp_at_or_after(10, 10));
    assert!(timestamp_at_or_after(5, u32::MAX - 5));
    assert!(!timestamp_at_or_after(u32::MAX - 5, 5));
}

#[test]
fn suspension_refuses_window_flags_and_a_stale_generation() {
    let mut generations = Generations(1);
    let first = generations.next();
    let mut flags = HookFlags::with_value(first);
    assert!(flags.update_overlay(first, true, true));
    assert_eq!(flags.load() & OVERLAY_FLAGS, OVERLAY_FLAGS);
    let action = action_wparam(ACTION_CLOSE_SELECTED, first);
    assert!(flags.action_is_current(action));
    flags.suspend(true, generations.next());
    assert!(!flags.update_overlay(first, false, false));
    assert!(!flags.action_is_current(action));
    flags.suspend(false, generations.next());
    assert_eq!(flags.load() & 7, 0);
    assert!(!flags.action_is_current(action));
    flags.set_recovery_pending(true);
    assert!(flags.recovery_pending());
    assert!(!flags.update_overlay(flags.load() & !OVERLAY_FLAGS, true, false));
}

#[test]
fn typed_search_ignores_alt_on_either_side() {
    let mut state = KeyboardState::default();
    state.observe(u32::from(VK_LMENU), KeyTransition::Pressed);
    state.observe(u32::from(VK_LSHIFT), KeyTransition::Pressed);
    state.observe_at(u32::from(VK_RMENU), KeyTransition::Pressed, 7);
    let search = state.search_state();
    assert_eq!(search[usize::from(VK_MENU)], 0);
    assert_eq!(search[usize::from(VK_LMENU)], 0);
    assert_eq!(search[usize::from(VK_RMENU)], 0);
    assert_eq!(search[usize::from(VK_SHIFT)], 0x80);
    assert_eq!(state.modifier_observations[5].time, Some(7));
    assert_eq!(state.modifier_observations[5].sequence, 1);
}

#[test]
fn the_starting_keyboard_keeps_queue_toggles_and_takes_down_bits_from_the_live_keys() {
    let mut queued = [0u8; 256];
    let mut down = [false; 256];
    queued[usize::from(VK_CAPITAL)] = 0x01;
    queued[usize::from(VK_SHIFT)] = 0x80;
    queued[0x90] = 0x81;
    down[0x91] = true;
    down[0x41] = true;

    let state = KeyboardState::from_snapshot(queued, down);

    assert_eq!(state.keys[usize::from(VK_CAPITAL)], 0x01);
    assert_eq!(state.keys[usize::from(VK_SHIFT)], 0);
    assert_eq!(state.keys[0x90], 0x01);
    assert_eq!(state.keys[0x91], 0x80);
    assert_eq!(state.keys[0x41], 0x80);
    assert_eq!(state.forwarded_toggle_keys, 4);
    assert!(state
        .modifier_observations
        .iter()
        .all(|observation| observation.time.is_none() && observation.sequence == 0));

    down[usize::from(VK_CAPITAL)] = true;
    down[0x90] = true;
    let held = KeyboardState::from_snapshot(queued, down);
    assert_eq!(held.keys[usize::from(VK_CAPITAL)], 0x81);
    assert_eq!(held.forwarded_toggle_keys, 7);
}

/// Sends `events` through `sender` as the hook does: a partial send is retried from where it
/// stopped, and a failed replay gives the physical event back to Windows.
fn replay_with(
    events: &[Option<ReplayedKeyEvent>],
    suppress: &mut bool,
    mut sender: impl FnMut(&[KeyboardInput]) -> u32,
) -> bool {
    let inputs = replay_inputs(events);
    let mut sent = 0;
    while sent < inputs.len() {
        match replay_progress(sent, inputs.len(), sender(&inputs[sent..])) {
            Some(now) => sent = now,
            None => {
                *suppress = false;
                return false;
            }
        }
    }
    true
}

#[test]
fn replayed_windows_events_are_tagged_extended_keyboard_input() {
    for (event, expected_key_up) in [
        (ReplayedKeyEvent::pressed(Key::LeftWindows), false),
        (ReplayedKeyEvent::released(Key::RightWindows), true),
    ] {
        let input = replayed_key_input(event);
        assert_eq!(input.virtual_key, event.virtual_key());
        assert!(input.flags & KEYEVENTF_EXTENDEDKEY != 0);
        assert_eq!(input.flags & KEYEVENTF_KEYUP != 0, expected_key_up);
        assert_eq!(input.extra_info, REPLAYED_INPUT_MARKER);
    }
}

#[test]
fn replayed_plain_keys_carry_no_extended_flag() {
    let input = replayed_key_input(ReplayedKeyEvent::pressed(Key::Other(u16::from(b'R'))));
    assert_eq!(
        input,
        KeyboardInput {
            virtual_key: u16::from(b'R'),
            flags: 0,
            extra_info: REPLAYED_INPUT_MARKER,
        }
    );
    let release = replayed_key_input(ReplayedKeyEvent::released(Key::LeftAlt));
    assert_eq!(release.flags, KEYEVENTF_KEYUP);
    assert!(is_own_replayed_input(release.extra_info));
}

#[test]
fn replay_retries_partial_send_input_and_releases_the_physical_fallback_on_failure() {
    let events = [
        Some(ReplayedKeyEvent::pressed(Key::LeftWindows)),
        Some(ReplayedKeyEvent::pressed(Key::Other(u16::from(b'R')))),
        None,
    ];
    let mut suppress = true;
    let mut calls = 0;
    let replayed = replay_with(&events, &mut suppress, |inputs| {
        calls += 1;
        assert_eq!(inputs.len(), 3_usize.saturating_sub(calls));
        1
    });
    assert!(replayed);
    assert!(suppress);
    assert_eq!(calls, 2);

    let mut suppress = true;
    let mut calls = 0;
    let replayed = replay_with(&events, &mut suppress, |_| {
        calls += 1;
        u32::from(calls == 1)
    });
    assert!(!replayed);
    assert!(!suppress);
    assert_eq!(calls, 2);
}

#[test]
fn a_replay_refuses_a_claim_of_more_records_than_were_given() {
    assert_eq!(replay_progress(0, 3, 3), Some(3));
    assert_eq!(replay_progress(1, 3, 1), Some(2));
    assert_eq!(replay_progress(1, 3, 3), None);
    assert_eq!(replay_progress(2, 3, 0), None);
}

#[test]
fn shell_escape_clears_suppressed_alt_context_before_escape() {
    for held_alt in [VK_LMENU, VK_RMENU] {
        let mut alt_context = true;
        let mut escapes = Vec::new();
        let Some(events) = shell_escape_events([false; 4]) else {
            panic!("nothing held must allow dismissal");
        };
        let mut suppress = true;
        assert!(replay_with(&events, &mut suppress, |inputs| {
            for input in inputs {
                assert_eq!(input.extra_info, REPLAYED_INPUT_MARKER);
                if input.virtual_key == held_alt && input.flags & KEYEVENTF_KEYUP != 0 {
                    alt_context = false;
                }
                if input.virtual_key == VK_ESCAPE {
                    escapes.push((input.flags & KEYEVENTF_KEYUP != 0, alt_context));
                }
            }
            u32::try_from(inputs.len()).unwrap_or_default()
        }));
        assert_eq!(
            escapes,
            [(false, false), (true, false)],
            "Start must receive plain Escape, even when suppressed Alt is absent from async state"
        );
    }
}

#[test]
fn shell_escape_preserves_forwarded_system_modifiers() {
    assert_eq!(SHELL_ESCAPE_GUARDS, [VK_MENU, VK_CONTROL, VK_LWIN, VK_RWIN]);
    for held in [VK_MENU, VK_CONTROL, VK_LWIN, VK_RWIN] {
        let down = SHELL_ESCAPE_GUARDS.map(|key| key == held);
        assert!(shell_escape_events(down).is_none());
    }
}

#[test]
fn failed_ui_delivery_forwards_the_suppressed_key_to_windows() {
    let mut state = HookState::default();
    let outcome = state.process_key(
        KeyEvent::pressed(
            Key::Tab,
            Modifiers {
                alt: true,
                ..Modifiers::default()
            },
        ),
        HookSettings {
            replace_alt_tab: true,
            ..HookSettings::default()
        },
    );
    assert!(outcome.suppress);

    assert_eq!(callback_end(outcome.suppress, false), CallbackEnd::ResetAndPassOn);
}

#[test]
fn a_suppressed_event_is_swallowed_only_after_its_actions_reach_the_ui() {
    assert_eq!(callback_end(true, true), CallbackEnd::Swallow);
    assert_eq!(callback_end(false, true), CallbackEnd::PassOn);
    assert_eq!(callback_end(false, false), CallbackEnd::ResetAndPassOn);
}

#[test]
fn desktop_rebase_preserves_observations_during_snapshot_and_timestamp_wrap() {
    let mut keyboard_state = KeyboardState::default();
    keyboard_state.observe_at(u32::from(VK_LSHIFT), KeyTransition::Pressed, 100);
    let before = keyboard_state.modifier_observations;
    keyboard_state.observe_at(u32::from(VK_LSHIFT), KeyTransition::Released, 400);
    keyboard_state.observe_at(u32::from(VK_RSHIFT), KeyTransition::Pressed, 20);
    let rebased = keyboard_state.rebase_keys(u32::MAX - 10, before, [true; 8]);
    assert_eq!(keyboard_state.keys[usize::from(VK_LSHIFT)], 0);
    assert_eq!(keyboard_state.keys[usize::from(VK_RSHIFT)], 0x80);
    assert!(timestamp_at_or_after(20, u32::MAX - 10));
    assert!(!timestamp_at_or_after(u32::MAX - 10, 20));
    assert!(!rebased[0]);
    assert!(!rebased[1]);
}

#[test]
fn desktop_rebase_takes_unseen_modifiers_from_the_sample() {
    let mut keyboard_state = KeyboardState::default();
    keyboard_state.observe_at(u32::from(VK_LCONTROL), KeyTransition::Pressed, 100);
    keyboard_state.observe_at(u32::from(VK_LMENU), KeyTransition::Pressed, 120);
    let before = keyboard_state.modifier_observations;
    let mut down = [false; 8];
    down[5] = true;
    let rebased = keyboard_state.rebase_keys(300, before, down);
    assert_eq!(rebased, [true; 8]);
    assert_eq!(keyboard_state.keys[usize::from(VK_LCONTROL)], 0);
    assert_eq!(keyboard_state.keys[usize::from(VK_CONTROL)], 0);
    assert_eq!(keyboard_state.keys[usize::from(VK_LMENU)], 0);
    assert_eq!(keyboard_state.keys[usize::from(VK_RMENU)], 0x80);
    assert_eq!(keyboard_state.keys[usize::from(VK_MENU)], 0x80);
}

#[test]
fn desktop_boundaries_coalesce_to_the_latest() {
    let mut pending = None;
    for time in [200, 300, 250] {
        pending = noted_boundary(pending, time);
    }
    assert_eq!(pending, Some(300));
    assert_eq!(noted_boundary(Some(u32::MAX - 5), 3), Some(3));
}

#[test]
fn every_modal_boundary_starts_a_new_generation() {
    let mut generations = Generations(1);
    let first = generations.next();
    let mut flags = HookFlags::with_value(first | OVERLAY_ACTIVE);
    flags.suspend(true, generations.next());
    let suspended = flags.load();
    assert_ne!(suspended & !7, first);
    assert_eq!(suspended & 7, INTERCEPTION_SUSPENDED);
    flags.suspend(true, generations.next());
    assert_eq!(flags.load(), suspended);
    flags.set(SEARCH_ACTIVE, true);
    flags.suspend(false, generations.next());
    assert_ne!(flags.load() & !7, suspended & !7);
    assert_eq!(flags.load() & 7, SEARCH_ACTIVE);
}

#[test]
fn keyboard_settings_follow_the_bypass_and_the_live_flags() {
    let base = HookSettings::default();
    let bypassed = keyboard_settings(base, true, SEARCH_ACTIVE | OVERLAY_ACTIVE);
    assert!(!bypassed.replace_alt_tab);
    assert!(!bypassed.replace_win_tab);
    assert!(bypassed.search_active);
    assert_eq!(bypassed.typed_search, base.typed_search);
    let local = keyboard_settings(base, false, OVERLAY_ACTIVE);
    assert!(local.replace_alt_tab && local.replace_win_tab);
    assert!(!local.search_active);

    assert_eq!(interception_flags(8 | SEARCH_ACTIVE | OVERLAY_ACTIVE, false), OVERLAY_FLAGS);
    assert_eq!(interception_flags(8 | INTERCEPTION_SUSPENDED, false), 0);
    assert_eq!(interception_flags(8 | OVERLAY_ACTIVE, true), 0);
    assert!(!interception_changed(8 | OVERLAY_ACTIVE, false, 8, false));
    assert!(interception_changed(16, false, 8, false));
    assert!(interception_changed(8 | INTERCEPTION_SUSPENDED, false, 8, false));
    assert!(interception_changed(8, true, 8, false));
}

#[test]
fn hook_errors_wake_the_thread_once_each() {
    assert_eq!(record_error(0, HOOK_ERROR_REPLAY_INPUT), (1, true));
    assert_eq!(record_error(1, HOOK_ERROR_REPLAY_INPUT), (1, false));
    assert_eq!(record_error(1, HOOK_ERROR_POST_ACTION), (3, true));
}

#[test]
fn thread_messages_route_to_their_work() {
    assert_eq!(route_thread_message(WM_HOTKEY, 5, true, 9), ThreadMessage::RegisteredSwitch(5));
    assert_eq!(route_thread_message(WM_HOTKEY, 5, false, 9), ThreadMessage::Dispatch);
    assert_eq!(route_thread_message(WM_RECONCILE_KEYBOARD, 0, false, 9), ThreadMessage::RecoverKeyboard);
    assert_eq!(route_thread_message(WM_TIMER, 9, false, 9), ThreadMessage::RecoverKeyboard);
    assert_eq!(route_thread_message(WM_TIMER, 3, false, 9), ThreadMessage::Dispatch);
    assert_eq!(route_thread_message(WM_RESET_GESTURES, 0, false, 9), ThreadMessage::ResetGestures);
    assert_eq!(route_thread_message(WM_REPORT_HOOK_ERRORS, 0, false, 9), ThreadMessage::ReportErrors);
    assert_eq!(route_thread_message(0x0100, 0, false, 9), ThreadMessage::Dispatch);
}

fn switch_outcome() -> HookOutcome {
    HookOutcome {
        suppress: true,
        actions: [Some(InputAction::Switch(1)), None],
    }
}

fn tab_event(transition: KeyTransition, outcome: HookOutcome, queue_accepts: bool) -> RegisteredSwitchEvent {
    RegisteredSwitchEvent {
        outcome,
        virtual_key: TAB_KEY,
        transition,
        injected: false,
        flags_word: 8,
        shell_in_front: true,
        queue_accepts,
    }
}

#[test]
fn a_physical_alt_tab_over_the_shell_waits_for_its_hotkey() {
    let mut state = RegisteredSwitchState {
        pending: false,
        tab_down: false,
        generation: 8,
    };
    let actions = registered_switch_step(&mut state, tab_event(KeyTransition::Pressed, switch_outcome(), true));
    assert_eq!(actions, [RegisteredSwitchAction::TryStart(switch_outcome())]);
    let started = registered_switch_started(&mut state, switch_outcome(), true, true, true);
    assert_eq!(started, [RegisteredSwitchAction::Answer(HookOutcome::default())]);
    assert!(state.pending && state.tab_down);

    let release = HookOutcome {
        suppress: true,
        actions: [None, None],
    };
    let actions = registered_switch_step(&mut state, tab_event(KeyTransition::Released, release, true));
    assert_eq!(
        actions,
        [
            RegisteredSwitchAction::QueueOutcome(HookOutcome::default()),
            RegisteredSwitchAction::Answer(HookOutcome::default()),
        ]
    );
    assert!(!state.tab_down);
}

#[test]
fn a_full_queue_or_a_new_generation_drops_the_waiting_switch() {
    let mut state = RegisteredSwitchState {
        pending: true,
        tab_down: false,
        generation: 8,
    };
    let actions = registered_switch_step(&mut state, tab_event(KeyTransition::Pressed, switch_outcome(), false));
    assert_eq!(
        actions,
        [
            RegisteredSwitchAction::ClearPending,
            RegisteredSwitchAction::ResetGestures,
            RegisteredSwitchAction::ClearOverlay,
            RegisteredSwitchAction::PostDismissOverlay,
            RegisteredSwitchAction::RecordError,
            RegisteredSwitchAction::Answer(HookOutcome {
                suppress: true,
                actions: [None, None],
            }),
        ]
    );
    assert!(!state.pending);

    let mut state = RegisteredSwitchState {
        pending: true,
        tab_down: false,
        generation: 16,
    };
    let actions = registered_switch_step(&mut state, tab_event(KeyTransition::Pressed, switch_outcome(), true));
    assert_eq!(
        actions,
        [RegisteredSwitchAction::ClearPending, RegisteredSwitchAction::Answer(switch_outcome())]
    );
    assert!(!state.pending);

    let mut state = RegisteredSwitchState {
        pending: false,
        tab_down: false,
        generation: 8,
    };
    let started = registered_switch_started(&mut state, switch_outcome(), false, false, false);
    assert_eq!(
        started,
        [RegisteredSwitchAction::RecordError, RegisteredSwitchAction::Answer(switch_outcome())]
    );
    assert!(!state.pending);
}

#[test]
fn a_waiting_switch_is_handed_over_on_its_hotkey_or_once_its_wait_expires() {
    let waiting = RegisteredSwitchState {
        pending: true,
        tab_down: true,
        generation: 16,
    };

    let mut state = waiting;
    assert_eq!(registered_switch_dispatch(&mut state, None, false, false), None);
    assert_eq!(state, waiting);
    assert_eq!(registered_switch_dispatch(&mut state, Some(3), true, false), None);
    assert_eq!(state, waiting);

    let plan = registered_switch_dispatch(&mut state, Some(3), false, true).unwrap();
    assert_eq!(
        plan,
        RegisteredDispatch {
            native: true,
            message: WM_HOOK_HOTKEY_ACTION,
            generation: 16,
        }
    );
    assert!(!state.pending && state.tab_down);
    assert_eq!(registered_switch_dispatch(&mut state, Some(3), true, true), None);

    let mut state = waiting;
    let plan = registered_switch_dispatch(&mut state, None, true, false).unwrap();
    assert_eq!(plan.message, WM_HOOK_ACTION);
    assert!(!plan.native);
    assert_eq!(registered_outcome_message(&plan, 16), Some(WM_HOOK_ACTION));
    assert_eq!(registered_outcome_message(&plan, 24), None);
}

#[test]
fn posting_an_outcome_publishes_the_switcher_before_a_switch_and_stops_on_a_stale_generation() {
    let mut flags = HookFlags::with_value(16);
    assert_eq!(posting_step(&mut flags, 16, true, InputAction::Navigate(1)), PostingStep::Post);
    assert_eq!(flags.load(), 16);
    assert_eq!(posting_step(&mut flags, 16, true, InputAction::Switch(1)), PostingStep::Post);
    assert_eq!(flags.load(), 16 | OVERLAY_ACTIVE | SEARCH_ACTIVE);
    assert_eq!(
        posting_step(&mut flags, 8, false, InputAction::Switch(1)),
        PostingStep::Stop
    );
    assert_eq!(flags.load(), 16 | OVERLAY_ACTIVE | SEARCH_ACTIVE);

    let mut suspended = HookFlags::with_value(16 | INTERCEPTION_SUSPENDED);
    assert_eq!(
        posting_step(&mut suspended, 16, false, InputAction::RightButtonPressed),
        PostingStep::Stop
    );
    assert_eq!(suspended.load(), 16 | INTERCEPTION_SUSPENDED);

    let mut recovering = HookFlags::with_value(16);
    recovering.set_recovery_pending(true);
    assert_eq!(
        posting_step(&mut recovering, 16, false, InputAction::Navigate(1)),
        PostingStep::Stop
    );

    assert_eq!(posting_failed(&mut flags, 16, InputAction::Switch(1)), HOOK_ERROR_POST_ACTION);
    assert_eq!(flags.load(), 16);
    let mut open = HookFlags::with_value(16 | OVERLAY_ACTIVE);
    assert_eq!(posting_failed(&mut open, 16, InputAction::Navigate(1)), HOOK_ERROR_POST_ACTION);
    assert_eq!(open.load(), 16 | OVERLAY_ACTIVE);
}
