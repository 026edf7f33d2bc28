//! The decisions of the Windows input hook: virtual keys, the action messages it posts to the
//! switcher, the modal flag word it shares with the interface thread, and the keyboard state it
//! observes for typed search.

use crate::input::{
    bare_outcome, spec_virtual_key, HookOutcome, HookSettings, InputAction, Key, KeyTransition, ReplayedKeyEvent,
    WindowCommand,
};
use crate::passthrough::PassthroughPolicy;
use vstd::prelude::*;

verus! {

/// The key that a Windows virtual-key code stands for.
pub open spec fn decoded_key(virtual_key: u32) -> Key {
    if virtual_key == 0x09 {
        Key::Tab
    } else if virtual_key == 0x0D {
        Key::Enter
    } else if virtual_key == 0x24 {
        Key::Home
    } else if virtual_key == 0x23 {
        Key::End
    } else if virtual_key == 0x1B {
        Key::Escape
    } else if virtual_key == 0x73 {
        Key::F4
    } else if 0x74 <= virtual_key <= 0x78 {
        Key::Function((virtual_key - 0x6F) as u8)
    } else if virtual_key == 0x12 {
        Key::Alt
    } else if virtual_key == 0xA4 {
        Key::LeftAlt
    } else if virtual_key == 0xA5 {
        Key::RightAlt
    } else if virtual_key == 0x5B {
        Key::LeftWindows
    } else if virtual_key == 0x5C {
        Key::RightWindows
    } else if virtual_key == 0x11 {
        Key::Control
    } else if virtual_key == 0xA2 {
        Key::LeftControl
    } else if virtual_key == 0xA3 {
        Key::RightControl
    } else if virtual_key == 0xA0 {
        Key::LeftShift
    } else if virtual_key == 0xA1 {
        Key::RightShift
    } else if virtual_key == 0x2C {
        Key::PrintScreen
    } else if virtual_key == 0x08 {
        Key::Backspace
    } else if virtual_key == 0x25 {
        Key::LeftArrow
    } else if virtual_key == 0x26 {
        Key::UpArrow
    } else if virtual_key == 0x27 {
        Key::RightArrow
    } else if virtual_key == 0x28 {
        Key::DownArrow
    } else if 0x31 <= virtual_key <= 0x39 {
        Key::Digit((virtual_key - 0x30) as u8)
    } else if 0x61 <= virtual_key <= 0x69 {
        Key::NumpadDigit((virtual_key - 0x60) as u8)
    } else if virtual_key <= 0xFFFF {
        Key::Other(virtual_key as u16)
    } else {
        Key::Other(0)
    }
}

/// The key that a Windows virtual-key code stands for.
pub fn decode_virtual_key(virtual_key: u32) -> (key: Key)
    ensures
        key == decoded_key(virtual_key),
{
    match virtual_key {
        0x09 => Key::Tab,
        0x0D => Key::Enter,
        0x24 => Key::Home,
        0x23 => Key::End,
        0x1B => Key::Escape,
        0x73 => Key::F4,
        0x74..=0x78 => Key::Function((virtual_key - 0x6F) as u8),
        0x12 => Key::Alt,
        0xA4 => Key::LeftAlt,
        0xA5 => Key::RightAlt,
        0x5B => Key::LeftWindows,
        0x5C => Key::RightWindows,
        0x11 => Key::Control,
        0xA2 => Key::LeftControl,
        0xA3 => Key::RightControl,
        0xA0 => Key::LeftShift,
        0xA1 => Key::RightShift,
        0x2C => Key::PrintScreen,
        0x08 => Key::Backspace,
        0x25 => Key::LeftArrow,
        0x26 => Key::UpArrow,
        0x27 => Key::RightArrow,
        0x28 => Key::DownArrow,
        0x31..=0x39 => Key::Digit((virtual_key - 0x30) as u8),
        0x61..=0x69 => Key::NumpadDigit((virtual_key - 0x60) as u8),
        _ => {
            if virtual_key <= 0xFFFF {
                Key::Other(virtual_key as u16)
            } else {
                Key::Other(0)
            }
        },
    }
}

/// Whether `key` is the key that its own virtual-key code decodes to: F5 to F9, the digits one
/// to nine on either row, an `Other` code that names no key, and every named key.
pub open spec fn has_own_code(key: Key) -> bool {
    match key {
        Key::Function(number) => 5 <= number <= 9,
        Key::Digit(digit) => 1 <= digit <= 9,
        Key::NumpadDigit(digit) => 1 <= digit <= 9,
        Key::Other(code) => decoded_key(code as u32) == Key::Other(code),
        _ => true,
    }
}

/// A key's virtual-key code decodes to the key again.
pub proof fn law_virtual_key_decodes_back(key: Key)
    requires
        has_own_code(key),
    ensures
        decoded_key(spec_virtual_key(key) as u32) == key,
{
}

/// Every code that fits in sixteen bits decodes to a key whose code it is.
pub proof fn law_decoded_key_keeps_its_code(virtual_key: u32)
    requires
        virtual_key <= 0xFFFF,
    ensures
        spec_virtual_key(decoded_key(virtual_key)) == virtual_key,
        has_own_code(decoded_key(virtual_key)),
{
}

/// The extra information that marks the input events the hook replays itself.
pub const REPLAYED_INPUT_MARKER: usize = 0x0A17_AB10;

/// Whether an input event carries the switcher's own replay marker, and so bypasses the hook.
pub fn is_own_replayed_input(extra_info: usize) -> (own: bool)
    ensures
        own == (extra_info == REPLAYED_INPUT_MARKER),
{
    extra_info == REPLAYED_INPUT_MARKER
}

/// The virtual keys that Windows sends with the extended-key flag.
pub open spec fn extended_virtual_key(virtual_key: u16) -> bool {
    (0x21 <= virtual_key <= 0x28) || (0x2D <= virtual_key <= 0x2E) || (0x5B <= virtual_key <= 0x5D)
        || virtual_key == 0x6F || virtual_key == 0x90 || virtual_key == 0xA3 || virtual_key == 0xA5
}

/// Whether a replayed key must carry the extended-key flag.
pub fn is_extended_virtual_key(virtual_key: u16) -> (extended: bool)
    ensures
        extended == extended_virtual_key(virtual_key),
{
    (0x21 <= virtual_key && virtual_key <= 0x28) || (0x2D <= virtual_key && virtual_key <= 0x2E)
        || (0x5B <= virtual_key && virtual_key <= 0x5D) || virtual_key == 0x6F || virtual_key
        == 0x90 || virtual_key == 0xA3 || virtual_key == 0xA5
}

/// The flag of an injected key that Windows sends as an extended key.
pub const KEYEVENTF_EXTENDEDKEY: u32 = 0x0001;

/// The flag of an injected key release.
pub const KEYEVENTF_KEYUP: u32 = 0x0002;

/// A keyboard input record for Windows to inject: the virtual key, the event flags and the
/// extra information that comes back with the event to the hook.
#[derive(Clone, Copy, Debug, PartialEq, Eq, Structural)]
pub struct KeyboardInput {
    pub virtual_key: u16,
    pub flags: u32,
    pub extra_info: usize,
}

/// The input record that replays `event`: its virtual key, the extended-key flag where Windows
/// sends one, the release flag for a release, and the replay marker.
pub open spec fn replayed_input(event: ReplayedKeyEvent) -> KeyboardInput {
    let virtual_key = spec_virtual_key(event.key);
    KeyboardInput {
        virtual_key,
        flags: (if extended_virtual_key(virtual_key) {
            KEYEVENTF_EXTENDEDKEY
        } else {
            0
        }) | (if event.transition == KeyTransition::Released {
            KEYEVENTF_KEYUP
        } else {
            0
        }),
        extra_info: REPLAYED_INPUT_MARKER,
    }
}

/// The input record that replays `event`.
pub fn replayed_key_input(event: ReplayedKeyEvent) -> (input: KeyboardInput)
    ensures
        input == replayed_input(event),
{
    let virtual_key = event.virtual_key();
    let extended: u32 = if is_extended_virtual_key(virtual_key) {
        KEYEVENTF_EXTENDEDKEY
    } else {
        0
    };
    let released: u32 = if event.transition == KeyTransition::Released {
        KEYEVENTF_KEYUP
    } else {
        0
    };
    KeyboardInput { virtual_key, flags: extended | released, extra_info: REPLAYED_INPUT_MARKER }
}

/// The input records of the events present in `events`, in their order.
pub open spec fn replayed_inputs(events: Seq<Option<ReplayedKeyEvent>>) -> Seq<KeyboardInput>
    decreases events.len(),
{
    if events.len() == 0 {
        Seq::empty()
    } else {
        let rest = replayed_inputs(events.drop_last());
        match events.last() {
            Some(event) => rest.push(replayed_input(event)),
            None => rest,
        }
    }
}

/// The input records that replay the events present in `events`, in their order.
pub fn replay_inputs(events: &[Option<ReplayedKeyEvent>]) -> (inputs: Vec<KeyboardInput>)
    ensures
        inputs@ == replayed_inputs(events@),
{
    let mut inputs: Vec<KeyboardInput> = Vec::new();
    let mut index: usize = 0;
    while index < events.len()
        invariant
            index <= events.len(),
            inputs@ == replayed_inputs(events@.take(index as int)),
        decreases events.len() - index,
    {
        proof {
            assert(events@.take(index as int + 1).drop_last() == events@.take(index as int));
        }
        if let Some(event) = events[index] {
            inputs.push(replayed_key_input(event));
        }
        index = index + 1;
    }
    proof {
        assert(events@.take(events@.len() as int) == events@);
    }
    inputs
}

/// Where a replay stands after Windows took `inserted` of the `total - sent` input records that
/// were still to send: `None` when it took none or claims more than it was given.
pub open spec fn replay_advanced(sent: int, total: int, inserted: int) -> Option<int> {
    if inserted == 0 || inserted > total - sent {
        None
    } else {
        Some(sent + inserted)
    }
}

/// Where a replay of `total` input records stands after Windows took `inserted` of the last
/// `total - sent`: the new count sent, or `None` when the replay has failed. A replay goes on
/// until every record is sent, so a partial send is retried from where it stopped.
pub fn replay_progress(sent: usize, total: usize, inserted: u32) -> (progress: Option<usize>)
    requires
        sent < total,
    ensures
        match progress {
            Some(now) => replay_advanced(sent as int, total as int, inserted as int) == Some(
                now as int,
            ),
            None => replay_advanced(sent as int, total as int, inserted as int) is None,
        },
{
    let remaining = total - sent;
    if inserted == 0 || inserted as u64 > remaining as u64 {
        None
    } else {
        Some(sent + inserted as usize)
    }
}

/// The virtual keys that, held down and forwarded to another application, keep the switcher
/// from dismissing Start: Alt, Control and both Windows keys.
pub const SHELL_ESCAPE_GUARDS: [u16; 4] = [0x12, 0x11, 0x5B, 0x5C];

/// The events that dismiss Start before the switcher opens, unless one of the guard keys is
/// `held`: both Alt keys released first, so that Escape reaches Start without an Alt context,
/// then Escape pressed and released.
pub open spec fn shell_escape(held: Seq<bool>) -> Option<Seq<ReplayedKeyEvent>> {
    if held[0] || held[1] || held[2] || held[3] {
        None
    } else {
        Some(
            seq![
                ReplayedKeyEvent::spec_released(Key::LeftAlt),
                ReplayedKeyEvent::spec_released(Key::RightAlt),
                ReplayedKeyEvent::spec_pressed(Key::Escape),
                ReplayedKeyEvent::spec_released(Key::Escape),
            ],
        )
    }
}

/// The events that dismiss Start, where `held` says which of `SHELL_ESCAPE_GUARDS` are down;
/// `None` where any is, as the modifier belongs to another application's shortcut.
pub fn shell_escape_events(held: [bool; 4]) -> (events: Option<[Option<ReplayedKeyEvent>; 4]>)
    ensures
        match (events, shell_escape(held@)) {
            (Some(events), Some(expected)) => events@ == expected.map_values(
                |event: ReplayedKeyEvent| Some(event),
            ),
            (None, None) => true,
            _ => false,
        },
{
    if held[0] || held[1] || held[2] || held[3] {
        return None;
    }
    let events = [
        Some(ReplayedKeyEvent::released(Key::LeftAlt)),
        Some(ReplayedKeyEvent::released(Key::RightAlt)),
        Some(ReplayedKeyEvent::pressed(Key::Escape)),
        Some(ReplayedKeyEvent::released(Key::Escape)),
    ];
    proof {
        let expected = shell_escape(held@)->0;
        assert(events@ =~= expected.map_values(|event: ReplayedKeyEvent| Some(event)));
    }
    Some(events)
}

/// How a hook callback ends once its actions were handed to the UI thread.
#[derive(Clone, Copy, Debug, PartialEq, Eq, Structural)]
pub enum CallbackEnd {
    /// Swallow the event: the UI thread has its actions.
    Swallow,
    /// Pass the event on to the next hook.
    PassOn,
    /// Forget the gestures in progress, then pass the event on.
    ResetAndPassOn,
}

/// How a hook callback whose outcome asked to `suppress` the event ends, where `posted` says
/// whether its actions reached the UI thread: the event is swallowed only when they did, and a
/// failed delivery also forgets the gestures in progress.
pub fn callback_end(suppress: bool, posted: bool) -> (end: CallbackEnd)
    ensures
        end == if !posted {
            CallbackEnd::ResetAndPassOn
        } else if suppress {
            CallbackEnd::Swallow
        } else {
            CallbackEnd::PassOn
        },
{
    if !posted {
        CallbackEnd::ResetAndPassOn
    } else if suppress {
        CallbackEnd::Swallow
    } else {
        CallbackEnd::PassOn
    }
}

/// Every input record that the hook replays carries the replay marker, so the hook lets it pass
/// when it comes back; the records keep the order of the events.
pub proof fn law_replayed_inputs_pass_the_hook(events: Seq<Option<ReplayedKeyEvent>>)
    ensures
        forall|i: int|
            0 <= i < replayed_inputs(events).len() ==> replayed_inputs(events)[i].extra_info
                == REPLAYED_INPUT_MARKER,
        replayed_inputs(events).len() <= events.len(),
    decreases events.len(),
{
    if events.len() > 0 {
        law_replayed_inputs_pass_the_hook(events.drop_last());
    }
}

/// A replay that keeps going while Windows takes at least one record ends with every record
/// sent, after no more steps than there are records.
pub proof fn law_replay_progress_reaches_the_end(sent: int, total: int, inserted: int)
    requires
        0 <= sent < total,
        0 <= inserted,
        replay_advanced(sent, total, inserted) is Some,
    ensures
        sent < replay_advanced(sent, total, inserted)->0 <= total,
{
}

/// Whether the millisecond tick `time` lies at or after `boundary` on the wrapping clock: less
/// than half the clock's range ahead of it.
pub open spec fn at_or_after(time: u32, boundary: u32) -> bool {
    (if time >= boundary {
        time - boundary
    } else {
        time + 0x1_0000_0000 - boundary
    }) < 0x8000_0000
}

/// Whether the input tick `time` lies at or after `boundary`, across the wrap of the tick count.
pub fn timestamp_at_or_after(time: u32, boundary: u32) -> (after: bool)
    ensures
        after == at_or_after(time, boundary),
{
    time.wrapping_sub(boundary) < 0x8000_0000
}


/// The window message that carries a hook action to the switcher window.
pub const WM_HOOK_ACTION: u32 = 0x8001;

/// The window message that carries an action of the registered switch hotkey.
pub const WM_HOOK_HOTKEY_ACTION: u32 = 0x8015;

pub const ACTION_SWITCH: usize = 1;
pub const ACTION_ACTIVATE_POSITION: usize = 2;
pub const ACTION_ALT_RELEASED: usize = 3;
pub const ACTION_RIGHT_BUTTON_PRESSED: usize = 4;
pub const ACTION_RIGHT_BUTTON_RELEASED: usize = 5;
pub const ACTION_MOUSE_WHEEL: usize = 6;
pub const ACTION_APPEND_SEARCH_CHARACTER: usize = 8;
pub const ACTION_BACKSPACE_SEARCH: usize = 9;
pub const ACTION_NAVIGATE: usize = 10;
pub const ACTION_ACTIVATE_SELECTED: usize = 11;
pub const ACTION_SELECT_FIRST: usize = 12;
pub const ACTION_SELECT_LAST: usize = 13;
pub const ACTION_DISMISS_OVERLAY: usize = 14;
pub const ACTION_CLOSE_SELECTED: usize = 15;
pub const ACTION_WINDOW_COMMAND: usize = 16;

/// The low byte of a message's first parameter names the action.
pub const ACTION_CODE_MASK: usize = 0xFF;

/// The bits of a hook generation that the rest of the first parameter carries.
pub const ACTION_EPOCH_MASK: usize = !0usize >> 8;

/// The code under which `action` is posted.
pub open spec fn action_code(action: InputAction) -> usize {
    match action {
        InputAction::Switch(_) => ACTION_SWITCH,
        InputAction::Navigate(_) => ACTION_NAVIGATE,
        InputAction::ActivateSelected => ACTION_ACTIVATE_SELECTED,
        InputAction::SelectFirst => ACTION_SELECT_FIRST,
        InputAction::SelectLast => ACTION_SELECT_LAST,
        InputAction::DismissOverlay => ACTION_DISMISS_OVERLAY,
        InputAction::CloseSelected => ACTION_CLOSE_SELECTED,
        InputAction::WindowCommand(_) => ACTION_WINDOW_COMMAND,
        InputAction::ActivateVisiblePosition(_) => ACTION_ACTIVATE_POSITION,
        InputAction::AltReleased => ACTION_ALT_RELEASED,
        InputAction::RightButtonPressed => ACTION_RIGHT_BUTTON_PRESSED,
        InputAction::RightButtonReleased => ACTION_RIGHT_BUTTON_RELEASED,
        InputAction::MouseWheel(_) => ACTION_MOUSE_WHEEL,
        InputAction::AppendSearchCharacter(_) => ACTION_APPEND_SEARCH_CHARACTER,
        InputAction::BackspaceSearch => ACTION_BACKSPACE_SEARCH,
    }
}

/// The second parameter that `action` is posted with: its number, or zero.
pub open spec fn action_value(action: InputAction) -> isize {
    match action {
        InputAction::Switch(delta) => delta as isize,
        InputAction::Navigate(delta) => delta as isize,
        InputAction::WindowCommand(command) => crate::input::function_key_of(command) as isize,
        InputAction::ActivateVisiblePosition(position) => if position <= isize::MAX {
            position as isize
        } else {
            0
        },
        InputAction::MouseWheel(delta) => delta as isize,
        InputAction::AppendSearchCharacter(character) => (character as u32) as isize,
        _ => 0,
    }
}

/// The code and the second parameter under which `action` is posted to the switcher window.
pub fn action_message(action: InputAction) -> (message: (usize, isize))
    ensures
        message == (action_code(action), action_value(action)),
{
    match action {
        InputAction::Switch(delta) => (ACTION_SWITCH, delta as isize),
        InputAction::Navigate(delta) => (ACTION_NAVIGATE, delta as isize),
        InputAction::ActivateSelected => (ACTION_ACTIVATE_SELECTED, 0),
        InputAction::SelectFirst => (ACTION_SELECT_FIRST, 0),
        InputAction::SelectLast => (ACTION_SELECT_LAST, 0),
        InputAction::DismissOverlay => (ACTION_DISMISS_OVERLAY, 0),
        InputAction::CloseSelected => (ACTION_CLOSE_SELECTED, 0),
        InputAction::WindowCommand(command) => (
            ACTION_WINDOW_COMMAND,
            command.function_key() as isize,
        ),
        InputAction::ActivateVisiblePosition(position) => (
            ACTION_ACTIVATE_POSITION,
            if position <= isize::MAX as usize {
                position as isize
            } else {
                0
            },
        ),
        InputAction::AltReleased => (ACTION_ALT_RELEASED, 0),
        InputAction::RightButtonPressed => (ACTION_RIGHT_BUTTON_PRESSED, 0),
        InputAction::RightButtonReleased => (ACTION_RIGHT_BUTTON_RELEASED, 0),
        InputAction::MouseWheel(delta) => (ACTION_MOUSE_WHEEL, delta as isize),
        InputAction::AppendSearchCharacter(character) => (
            ACTION_APPEND_SEARCH_CHARACTER,
            (character as u32) as isize,
        ),
        InputAction::BackspaceSearch => (ACTION_BACKSPACE_SEARCH, 0),
    }
}

/// The first parameter of an action message: the generation's epoch above the action's code.
pub open spec fn action_parameter(code: usize, generation: usize) -> usize {
    (((generation >> 3usize) & ACTION_EPOCH_MASK) << 8usize) | (code & ACTION_CODE_MASK)
}

/// The first parameter of an action message: the generation's epoch above the action's code.
pub fn action_wparam(code: usize, generation: usize) -> (wparam: usize)
    ensures
        wparam == action_parameter(code, generation),
{
    (((generation >> 3usize) & ACTION_EPOCH_MASK) << 8usize) | (code & ACTION_CODE_MASK)
}

/// Whether `code` is the scalar value of a character: at most `0x10FFFF` and no surrogate.
pub open spec fn is_scalar_value(code: int) -> bool {
    (0 <= code <= 0xD7FF) || (0xE000 <= code <= 0x10FFFF)
}

/// `char::from_u32`: the character whose scalar value is `code`; `None` for a surrogate or a
/// code beyond `0x10FFFF`, as the standard library documents.
#[verifier::external_body]
fn char_from_code(code: u32) -> (character: Option<char>)
    ensures
        match character {
            Some(c) => code_of(c) == code as int,
            None => !is_scalar_value(code as int),
        },
{
    char::from_u32(code)
}

/// The scalar value of `c`.
pub open spec fn code_of(c: char) -> int {
    c as int
}

/// The character whose scalar value is `code`.
pub open spec fn char_with_code(code: int) -> char {
    choose|c: char| #[trigger] code_of(c) == code
}

/// The action that a message with parameters `wparam` and `lparam` carries, if any.
pub open spec fn decoded_action(wparam: usize, lparam: isize) -> Option<InputAction> {
    let code = wparam & ACTION_CODE_MASK;
    let fits_i32 = i32::MIN <= lparam <= i32::MAX;
    if code == ACTION_SWITCH {
        if fits_i32 {
            Some(InputAction::Switch(lparam as i32))
        } else {
            None
        }
    } else if code == ACTION_ACTIVATE_POSITION {
        if lparam >= 0 {
            Some(InputAction::ActivateVisiblePosition(lparam as usize))
        } else {
            None
        }
    } else if code == ACTION_ALT_RELEASED {
        Some(InputAction::AltReleased)
    } else if code == ACTION_RIGHT_BUTTON_PRESSED {
        Some(InputAction::RightButtonPressed)
    } else if code == ACTION_RIGHT_BUTTON_RELEASED {
        Some(InputAction::RightButtonReleased)
    } else if code == ACTION_MOUSE_WHEEL {
        if fits_i32 {
            Some(InputAction::MouseWheel(lparam as i32))
        } else {
            None
        }
    } else if code == ACTION_APPEND_SEARCH_CHARACTER {
        if is_scalar_value(lparam as int) {
            Some(InputAction::AppendSearchCharacter(char_with_code(lparam as int)))
        } else {
            None
        }
    } else if code == ACTION_BACKSPACE_SEARCH {
        Some(InputAction::BackspaceSearch)
    } else if code == ACTION_NAVIGATE {
        if fits_i32 {
            Some(InputAction::Navigate(lparam as i32))
        } else {
            None
        }
    } else if code == ACTION_ACTIVATE_SELECTED {
        Some(InputAction::ActivateSelected)
    } else if code == ACTION_SELECT_FIRST {
        Some(InputAction::SelectFirst)
    } else if code == ACTION_SELECT_LAST {
        Some(InputAction::SelectLast)
    } else if code == ACTION_DISMISS_OVERLAY {
        Some(InputAction::DismissOverlay)
    } else if code == ACTION_CLOSE_SELECTED {
        Some(InputAction::CloseSelected)
    } else if code == ACTION_WINDOW_COMMAND {
        if 0 <= lparam <= 255 {
            match crate::input::command_for_function_key(lparam as u8) {
                Some(command) => Some(InputAction::WindowCommand(command)),
                None => None,
            }
        } else {
            None
        }
    } else {
        None
    }
}

/// The action that a hook message with parameters `wparam` and `lparam` carries, if any.
pub fn decode_action(wparam: usize, lparam: isize) -> (action: Option<InputAction>)
    ensures
        action == decoded_action(wparam, lparam),
{
    let code = wparam & ACTION_CODE_MASK;
    let fits_i32 = i32::MIN as isize <= lparam && lparam <= i32::MAX as isize;
    if code == ACTION_SWITCH {
        if fits_i32 {
            Some(InputAction::Switch(lparam as i32))
        } else {
            None
        }
    } else if code == ACTION_ACTIVATE_POSITION {
        if lparam >= 0 {
            Some(InputAction::ActivateVisiblePosition(lparam as usize))
        } else {
            None
        }
    } else if code == ACTION_ALT_RELEASED {
        Some(InputAction::AltReleased)
    } else if code == ACTION_RIGHT_BUTTON_PRESSED {
        Some(InputAction::RightButtonPressed)
    } else if code == ACTION_RIGHT_BUTTON_RELEASED {
        Some(InputAction::RightButtonReleased)
    } else if code == ACTION_MOUSE_WHEEL {
        if fits_i32 {
            Some(InputAction::MouseWheel(lparam as i32))
        } else {
            None
        }
    } else if code == ACTION_APPEND_SEARCH_CHARACTER {
        if 0 <= lparam && lparam <= 0x10FFFF {
            match char_from_code(lparam as u32) {
                Some(character) => {
                    assert(code_of(character) == lparam as int);
                    assert(character == char_with_code(lparam as int));
                    Some(InputAction::AppendSearchCharacter(character))
                },
                None => None,
            }
        } else {
            None
        }
    } else if code == ACTION_BACKSPACE_SEARCH {
        Some(InputAction::BackspaceSearch)
    } else if code == ACTION_NAVIGATE {
        if fits_i32 {
            Some(InputAction::Navigate(lparam as i32))
        } else {
            None
        }
    } else if code == ACTION_ACTIVATE_SELECTED {
        Some(InputAction::ActivateSelected)
    } else if code == ACTION_SELECT_FIRST {
        Some(InputAction::SelectFirst)
    } else if code == ACTION_SELECT_LAST {
        Some(InputAction::SelectLast)
    } else if code == ACTION_DISMISS_OVERLAY {
        Some(InputAction::DismissOverlay)
    } else if code == ACTION_CLOSE_SELECTED {
        Some(InputAction::CloseSelected)
    } else if code == ACTION_WINDOW_COMMAND {
        if 0 <= lparam && lparam <= 255 {
            match WindowCommand::from_function_key(lparam as u8) {
                Some(command) => Some(InputAction::WindowCommand(command)),
                None => None,
            }
        } else {
            None
        }
    } else {
        None
    }
}

proof fn lemma_action_parameter_bits(code: usize, generation: usize)
    requires
        code < 256,
    ensures
        action_parameter(code, generation) & ACTION_CODE_MASK == code,
        action_parameter(code, generation) >> 8usize == (generation >> 3usize) & ACTION_EPOCH_MASK,
{
    assert(((((generation >> 3usize) & (!0usize >> 8usize)) << 8usize) | (code & 0xFFusize))
        & 0xFFusize == code) by (bit_vector)
        requires
            code < 256,
    ;
    assert(((((generation >> 3usize) & (!0usize >> 8usize)) << 8usize) | (code & 0xFFusize))
        >> 8usize == (generation >> 3usize) & (!0usize >> 8usize)) by (bit_vector)
        requires
            code < 256,
    ;
}

/// Whether `action` survives its trip through a hook message: every action but a visible
/// position beyond `isize::MAX` and an app command that no function key runs.
pub open spec fn has_message(action: InputAction) -> bool {
    match action {
        InputAction::ActivateVisiblePosition(position) => position <= isize::MAX,
        InputAction::WindowCommand(command) => crate::input::function_key_of(command) != 0,
        _ => true,
    }
}

/// An action posted by the hook under any generation is decoded as the same action.
pub proof fn law_action_message_round_trip(action: InputAction, generation: usize)
    requires
        has_message(action),
    ensures
        decoded_action(action_parameter(action_code(action), generation), action_value(action))
            == Some(action),
{
    lemma_action_parameter_bits(action_code(action), generation);
    match action {
        InputAction::AppendSearchCharacter(character) => {
            assert(is_scalar_value(character as int));
            assert(code_of(character) == (character as u32) as isize as int);
            assert(char_with_code((character as u32) as isize as int) == character);
        },
        _ => {},
    }
}


/// A modal window of the switcher has the hook stand aside.
pub const INTERCEPTION_SUSPENDED: usize = 1;

/// The switcher window takes typed search text.
pub const SEARCH_ACTIVE: usize = 2;

/// The switcher window is open.
pub const OVERLAY_ACTIVE: usize = 4;

/// The flags that the switcher window publishes.
pub const OVERLAY_FLAGS: usize = SEARCH_ACTIVE | OVERLAY_ACTIVE;

/// The generation of hook epoch `epoch`: the epoch's low bits above the three flag bits.
pub open spec fn epoch_generation(epoch: usize) -> usize {
    (epoch & ACTION_EPOCH_MASK) << 3usize
}

/// The generation of hook epoch `epoch`.
pub fn generation_of_epoch(epoch: usize) -> (generation: usize)
    ensures
        generation == epoch_generation(epoch),
        generation & 7 == 0,
{
    let generation = (epoch & ACTION_EPOCH_MASK) << 3usize;
    assert(((epoch & (!0usize >> 8usize)) << 3usize) & 7usize == 0usize) by (bit_vector);
    generation
}

/// A generation leaves the three flag bits clear.
pub open spec fn is_generation(generation: usize) -> bool {
    generation & 7 == 0
}

/// The flag word after the hook enters (`suspended`) or leaves a modal window: unchanged where
/// it already is in that state, else a new generation with the suspension flag or with the
/// published window flags.
pub open spec fn suspended_word(word: usize, suspended: bool, generation: usize) -> usize {
    if ((word & INTERCEPTION_SUSPENDED) != 0) == suspended {
        word
    } else if suspended {
        generation | INTERCEPTION_SUSPENDED
    } else {
        generation | (word & OVERLAY_FLAGS)
    }
}

/// The window flags that an open or closed switcher window publishes.
pub open spec fn overlay_bits(active: bool, typed_search: bool) -> usize {
    if active {
        if typed_search {
            OVERLAY_ACTIVE | SEARCH_ACTIVE
        } else {
            OVERLAY_ACTIVE
        }
    } else {
        0
    }
}

/// Whether the window flags of `generation` may still be published over `word`: no recovery is
/// pending, the generation is current and the hook is not suspended.
pub open spec fn overlay_publishable(word: usize, recovering: bool, generation: usize) -> bool {
    !recovering && word & !OVERLAY_FLAGS == generation && word & INTERCEPTION_SUSPENDED == 0
}

/// Whether an action message with first parameter `wparam` belongs to the current generation of
/// `word` and may still be acted on.
pub open spec fn action_current(word: usize, recovering: bool, wparam: usize) -> bool {
    !recovering && word & INTERCEPTION_SUSPENDED == 0 && (wparam >> 8usize) == ((word >> 3usize)
        & ACTION_EPOCH_MASK)
}

/// The flag word that the hook thread and the switcher window share: a generation above the
/// suspension, search and window flags, and whether a keyboard recovery is pending. Each method
/// is one atomic step of the shared word.
pub struct HookFlags {
    value: usize,
    recovery_pending: bool,
}

impl HookFlags {
    /// The flag word.
    pub closed spec fn word(&self) -> usize {
        self.value
    }

    /// Whether a keyboard recovery is pending.
    pub closed spec fn recovering(&self) -> bool {
        self.recovery_pending
    }

    /// Flags that hold `value` with no recovery pending.
    pub fn with_value(value: usize) -> (flags: Self)
        ensures
            flags.word() == value,
            !flags.recovering(),
    {
        HookFlags { value, recovery_pending: false }
    }

    /// The flag word.
    pub fn load(&self) -> (word: usize)
        ensures
            word == self.word(),
    {
        self.value
    }

    /// Whether a keyboard recovery is pending.
    pub fn recovery_pending(&self) -> (pending: bool)
        ensures
            pending == self.recovering(),
    {
        self.recovery_pending
    }

    /// Marks a keyboard recovery as pending or done.
    pub fn set_recovery_pending(&mut self, pending: bool)
        ensures
            final(self).recovering() == pending,
            final(self).word() == old(self).word(),
    {
        self.recovery_pending = pending;
    }

    /// Sets or clears `flag`.
    pub fn set(&mut self, flag: usize, active: bool)
        ensures
            final(self).word() == if active {
                old(self).word() | flag
            } else {
                old(self).word() & !flag
            },
            final(self).recovering() == old(self).recovering(),
    {
        if active {
            self.value = self.value | flag;
        } else {
            self.value = self.value & !flag;
        }
    }

    /// Enters or leaves a modal window; a change of state starts `generation`, a fresh one: the
    /// generation in force is refused.
    pub fn suspend(&mut self, suspended: bool, generation: usize)
        requires
            is_generation(generation),
            generation != old(self).word() & !7usize,
        ensures
            final(self).word() == suspended_word(old(self).word(), suspended, generation),
            final(self).recovering() == old(self).recovering(),
            ((old(self).word() & INTERCEPTION_SUSPENDED) != 0) == suspended ==> final(self).word()
                == old(self).word(),
            ((old(self).word() & INTERCEPTION_SUSPENDED) != 0) != suspended ==> {
                &&& final(self).word() & !7usize == generation
                &&& final(self).word() & !7usize != old(self).word() & !7usize
                &&& (final(self).word() & INTERCEPTION_SUSPENDED != 0) == suspended
            },
    {
        if ((self.value & INTERCEPTION_SUSPENDED) != 0) == suspended {
            return;
        }
        let flags = if suspended {
            INTERCEPTION_SUSPENDED
        } else {
            self.value & OVERLAY_FLAGS
        };
        let value = self.value;
        assert(2usize | 4usize == 6usize) by (bit_vector);
        assert(generation & 7usize == 0usize ==> (generation | 1usize) & !7usize == generation
            && (generation | 1usize) & 1usize != 0usize && (generation | (value & 6usize)) & !7usize
            == generation && (generation | (value & 6usize)) & 1usize == 0usize) by (bit_vector);
        self.value = generation | flags;
    }

    /// Starts `generation` with the three flags of `flags`, and gives back the three flags that
    /// held before.
    pub fn replace_modal_flags(&mut self, flags: usize, generation: usize) -> (saved: usize)
        requires
            is_generation(generation),
            generation != old(self).word() & !7usize,
        ensures
            final(self).word() == generation | (flags & 7),
            final(self).word() & !7usize == generation,
            final(self).word() & 7 == flags & 7,
            final(self).word() & !7usize != old(self).word() & !7usize,
            saved == old(self).word() & 7,
            final(self).recovering() == old(self).recovering(),
    {
        assert(generation & 7usize == 0usize ==> (generation | (flags & 7usize)) & !7usize
            == generation && (generation | (flags & 7usize)) & 7usize == flags & 7usize) by (
        bit_vector);
        let saved = self.value & 7;
        self.value = generation | (flags & 7);
        saved
    }

    /// Publishes whether the switcher window of `generation` is open and takes typed search;
    /// refused, and nothing changed, once the generation has passed or the hook is suspended.
    pub fn update_overlay(&mut self, generation: usize, active: bool, typed_search: bool) -> (published: bool)
        ensures
            published == overlay_publishable(old(self).word(), old(self).recovering(), generation),
            final(self).word() == if published {
                generation | overlay_bits(active, typed_search)
            } else {
                old(self).word()
            },
            final(self).recovering() == old(self).recovering(),
    {
        if self.recovery_pending || self.value & !OVERLAY_FLAGS != generation || self.value
            & INTERCEPTION_SUSPENDED != 0 {
            return false;
        }
        let flags = if active {
            if typed_search {
                OVERLAY_ACTIVE | SEARCH_ACTIVE
            } else {
                OVERLAY_ACTIVE
            }
        } else {
            0
        };
        self.value = generation | flags;
        true
    }

    /// Whether an action message with first parameter `wparam` may still be acted on.
    pub fn action_is_current(&self, wparam: usize) -> (current: bool)
        ensures
            current == action_current(self.word(), self.recovering(), wparam),
    {
        !self.recovery_pending && self.value & INTERCEPTION_SUSPENDED == 0 && (wparam >> 8usize)
            == ((self.value >> 3usize) & ACTION_EPOCH_MASK)
    }
}

/// The three flags that a modal scope found on entry, to be put back when it ends. Scopes must
/// end in reverse order of entry.
pub struct HookInterceptionGuard {
    saved_flags: usize,
}

impl HookInterceptionGuard {
    /// The three flags that the scope found on entry.
    pub closed spec fn saved(&self) -> usize {
        self.saved_flags
    }

    /// Enters a modal scope: suspends the hook in `generation` and keeps the flags found.
    pub fn new(flags: &mut HookFlags, generation: usize) -> (guard: Self)
        requires
            is_generation(generation),
            generation != old(flags).word() & !7usize,
        ensures
            guard.saved() == old(flags).word() & 7,
            final(flags).word() == generation | INTERCEPTION_SUSPENDED,
            final(flags).word() & 7 == INTERCEPTION_SUSPENDED,
            final(flags).word() & !7usize == generation,
            final(flags).word() & !7usize != old(flags).word() & !7usize,
            final(flags).recovering() == old(flags).recovering(),
    {
        let saved_flags = flags.replace_modal_flags(INTERCEPTION_SUSPENDED, generation);
        assert(1usize & 7usize == 1usize) by (bit_vector);
        HookInterceptionGuard { saved_flags }
    }

    /// The three flags that the scope found on entry.
    pub fn saved_flags(&self) -> (saved: usize)
        ensures
            saved == self.saved(),
    {
        self.saved_flags
    }

    /// Ends the scope: puts back the flags found on entry, in `generation`.
    pub fn restore(self, flags: &mut HookFlags, generation: usize)
        requires
            is_generation(generation),
            generation != old(flags).word() & !7usize,
        ensures
            final(flags).word() == generation | (self.saved() & 7),
            final(flags).word() & 7 == self.saved() & 7,
            final(flags).word() & !7usize == generation,
            final(flags).word() & !7usize != old(flags).word() & !7usize,
            final(flags).recovering() == old(flags).recovering(),
    {
        let _suspended = flags.replace_modal_flags(self.saved_flags, generation);
    }
}

/// Every modal boundary, entering or leaving a scope or a suspension, starts a generation other
/// than the one in force, whatever three flags it leaves: an action stamped with the old
/// generation is stale after it.
pub proof fn law_boundaries_start_new_generations(word: usize, generation: usize, flags: usize)
    requires
        is_generation(generation),
        generation != word & !7usize,
        flags <= 7,
    ensures
        (generation | flags) & !7usize == generation,
        (generation | flags) & !7usize != word & !7usize,
        (generation | flags) & 7 == flags,
{
    assert(generation & 7usize == 0usize && flags <= 7usize ==> (generation | flags) & !7usize
        == generation && (generation | flags) & 7usize == flags) by (bit_vector);
}

/// A modal scope ends with exactly the three flags it found on entry, whatever happened to the
/// word meanwhile, in the generation it ends in; while it lasts the hook is suspended with no
/// window flags, in the generation it began in.
pub proof fn law_modal_scope_restores_flags(entry: usize, entered: usize, exit: usize)
    requires
        is_generation(entered),
        is_generation(exit),
    ensures
        (entered | INTERCEPTION_SUSPENDED) & 7 == INTERCEPTION_SUSPENDED,
        (entered | INTERCEPTION_SUSPENDED) & !7usize == entered,
        (exit | ((entry & 7) & 7)) & 7 == entry & 7,
        (exit | ((entry & 7) & 7)) & !7usize == exit,
{
    assert((entered & 7usize == 0usize) ==> (entered | 1usize) & 7usize == 1usize
        && (entered | 1usize) & !7usize == entered) by (bit_vector);
    assert((exit & 7usize == 0usize) ==> (exit | ((entry & 7usize) & 7usize)) & 7usize == entry
        & 7usize && (exit | ((entry & 7usize) & 7usize)) & !7usize == exit) by (bit_vector);
}

/// While the hook is suspended no switcher window can publish its flags.
pub proof fn law_suspension_refuses_publication(word: usize, recovering: bool, generation: usize)
    requires
        word & INTERCEPTION_SUSPENDED != 0,
    ensures
        !overlay_publishable(word, recovering, generation),
{
}

/// An action posted in the current generation of an unsuspended word is acted on; once the word
/// moves to another epoch it is not.
pub proof fn law_current_generation_actions(word: usize, code: usize, generation: usize)
    requires
        is_generation(generation),
        word & !OVERLAY_FLAGS == generation,
    ensures
        action_current(word, false, action_parameter(code, generation)),
{
    assert(2usize | 4usize == 6usize) by (bit_vector);
    assert(((((generation >> 3usize) & (!0usize >> 8usize)) << 8usize) | (code & 0xFFusize))
        >> 8usize == (generation >> 3usize) & (!0usize >> 8usize)) by (bit_vector);
    assert((generation & 7usize == 0usize && word & !6usize == generation) ==> (word & 1usize
        == 0usize && (word >> 3usize) & (!0usize >> 8usize) == (generation >> 3usize) & (!0usize
        >> 8usize))) by (bit_vector);
}


/// When a modifier key was last seen by the hook, and how many times.
#[derive(Clone, Copy, Debug, PartialEq, Eq, Structural)]
pub struct ModifierObservation {
    pub time: Option<u32>,
    pub sequence: u64,
}

/// The keyboard as the hook has observed it, for translating typed search text: the state byte
/// of each virtual key (bit 7 down, bit 0 toggled), the toggle keys whose press was forwarded,
/// and when each of the eight side modifiers was last seen.
pub struct KeyboardState {
    pub keys: [u8; 256],
    pub forwarded_toggle_keys: u8,
    pub modifier_observations: [ModifierObservation; 8],
}

/// The state byte of a key after a press or release: its toggle bit kept, its down bit set on a
/// press.
pub open spec fn transitioned(state: u8, pressed: bool) -> u8 {
    (state & 1) | if pressed {
        0x80u8
    } else {
        0u8
    }
}

/// The down bit that an aggregate modifier takes from its two sides.
pub open spec fn either_side(left: u8, right: u8) -> u8 {
    (left | right) & 0x80
}

/// The aggregate modifier of a side modifier key and the other side: Shift, Control or Alt.
pub open spec fn aggregate_of(virtual_key: int) -> Option<(int, int, int)> {
    if virtual_key == 0xA0 || virtual_key == 0xA1 {
        Some((0x10, 0xA0, 0xA1))
    } else if virtual_key == 0xA2 || virtual_key == 0xA3 {
        Some((0x11, 0xA2, 0xA3))
    } else if virtual_key == 0xA4 || virtual_key == 0xA5 {
        Some((0x12, 0xA4, 0xA5))
    } else {
        None
    }
}

/// The key states after the hook observes `virtual_key` go down or up: the key's down bit, and
/// for a side modifier the aggregate modifier's down bit from both sides.
pub open spec fn observed_keys(keys: Seq<u8>, virtual_key: u32, transition: KeyTransition) -> Seq<
    u8,
> {
    if virtual_key >= 256 {
        keys
    } else {
        let key = virtual_key as int;
        let after = keys.update(key, transitioned(keys[key], transition == KeyTransition::Pressed));
        match aggregate_of(key) {
            Some((aggregate, left, right)) => after.update(
                aggregate,
                either_side(after[left], after[right]),
            ),
            None => after,
        }
    }
}

/// The place of a side modifier among the eight whose last observation is kept.
pub open spec fn modifier_index(virtual_key: u32) -> Option<int> {
    if virtual_key == 0xA0 {
        Some(0)
    } else if virtual_key == 0xA1 {
        Some(1)
    } else if virtual_key == 0xA2 {
        Some(2)
    } else if virtual_key == 0xA3 {
        Some(3)
    } else if virtual_key == 0xA4 {
        Some(4)
    } else if virtual_key == 0xA5 {
        Some(5)
    } else if virtual_key == 0x5B {
        Some(6)
    } else if virtual_key == 0x5C {
        Some(7)
    } else {
        None
    }
}

/// The observation after a modifier is seen again at `time`; the count wraps.
pub open spec fn seen_again(observation: ModifierObservation, time: u32) -> ModifierObservation {
    ModifierObservation {
        time: Some(time),
        sequence: if observation.sequence == u64::MAX {
            0
        } else {
            (observation.sequence + 1) as u64
        },
    }
}

/// The bit of a toggle key (Caps Lock, Num Lock, Scroll Lock) among the forwarded toggle keys.
pub open spec fn toggle_mask(virtual_key: u32) -> u8 {
    if virtual_key == 0x14 {
        1
    } else if virtual_key == 0x90 {
        2
    } else if virtual_key == 0x91 {
        4
    } else {
        0
    }
}

/// The key states that typed search translates with: Alt, which belongs to the switch gesture,
/// is up on both sides.
pub open spec fn search_keys(keys: Seq<u8>) -> Seq<u8> {
    keys.update(0x12, 0).update(0xA4, 0).update(0xA5, 0)
}

/// The key states and forwarded toggle keys after the press or release of `virtual_key` reached
/// Windows: the first forwarded press of a toggle key flips its toggle bit, its release ends
/// that press, and any other key changes nothing.
pub open spec fn committed(
    keys: Seq<u8>,
    forwarded: u8,
    virtual_key: u32,
    transition: KeyTransition,
) -> (Seq<u8>, u8) {
    let mask = toggle_mask(virtual_key);
    if mask == 0 {
        (keys, forwarded)
    } else if transition == KeyTransition::Pressed {
        (
            if forwarded & mask == 0 {
                keys.update(virtual_key as int, keys[virtual_key as int] ^ 1)
            } else {
                keys
            },
            forwarded | mask,
        )
    } else {
        (keys, forwarded & !mask)
    }
}

/// The toggle keys (Caps Lock, Num Lock, Scroll Lock) held down in `down`, as forwarded presses.
pub open spec fn snapshot_toggles(down: Seq<bool>) -> u8 {
    (if down[0x14] {
        1u8
    } else {
        0u8
    }) | (if down[0x90] {
        2u8
    } else {
        0u8
    }) | (if down[0x91] {
        4u8
    } else {
        0u8
    })
}

proof fn lemma_down_bit(state: u8, pressed: bool)
    ensures
        (transitioned(state, pressed) & 0x80 != 0) == pressed,
{
    if pressed {
        assert(((state & 1) | 0x80u8) & 0x80 != 0) by (bit_vector);
    } else {
        assert(((state & 1) | 0u8) & 0x80 == 0) by (bit_vector);
    }
}

impl Default for KeyboardState {
    /// A keyboard with every key up and untoggled and no modifier seen.
    fn default() -> (state: Self)
        ensures
            forall|i: int| 0 <= i < 256 ==> state.keys@[i] == 0,
            state.forwarded_toggle_keys == 0,
            forall|i: int|
                0 <= i < 8 ==> state.modifier_observations@[i] == (ModifierObservation {
                    time: None,
                    sequence: 0,
                }),
    {
        KeyboardState {
            keys: [0u8; 256],
            forwarded_toggle_keys: 0,
            modifier_observations: [ModifierObservation { time: None, sequence: 0 }; 8],
        }
    }

}

impl KeyboardState {
    /// Notes that `virtual_key` went down or up.
    pub fn observe(&mut self, virtual_key: u32, transition: KeyTransition)
        ensures
            final(self).keys@ == observed_keys(old(self).keys@, virtual_key, transition),
            final(self).forwarded_toggle_keys == old(self).forwarded_toggle_keys,
            final(self).modifier_observations == old(self).modifier_observations,
    {
        if virtual_key >= 256 {
            return;
        }
        let key = virtual_key as usize;
        let pressed = transition == KeyTransition::Pressed;
        let state = self.keys[key];
        self.keys[key] = (state & 1) | if pressed {
            0x80u8
        } else {
            0u8
        };
        if key == 0xA0 || key == 0xA1 {
            self.keys[0x10] = (self.keys[0xA0] | self.keys[0xA1]) & 0x80;
        } else if key == 0xA2 || key == 0xA3 {
            self.keys[0x11] = (self.keys[0xA2] | self.keys[0xA3]) & 0x80;
        } else if key == 0xA4 || key == 0xA5 {
            self.keys[0x12] = (self.keys[0xA4] | self.keys[0xA5]) & 0x80;
        }
    }

    /// Notes that `virtual_key` went down or up at input tick `time`; a side modifier records
    /// the time and counts the observation.
    pub fn observe_at(&mut self, virtual_key: u32, transition: KeyTransition, time: u32)
        ensures
            final(self).keys@ == observed_keys(old(self).keys@, virtual_key, transition),
            final(self).forwarded_toggle_keys == old(self).forwarded_toggle_keys,
            final(self).modifier_observations@ == match modifier_index(virtual_key) {
                Some(index) => old(self).modifier_observations@.update(
                    index,
                    seen_again(old(self).modifier_observations@[index], time),
                ),
                None => old(self).modifier_observations@,
            },
    {
        self.observe(virtual_key, transition);
        let index: usize = if virtual_key == 0xA0 {
            0
        } else if virtual_key == 0xA1 {
            1
        } else if virtual_key == 0xA2 {
            2
        } else if virtual_key == 0xA3 {
            3
        } else if virtual_key == 0xA4 {
            4
        } else if virtual_key == 0xA5 {
            5
        } else if virtual_key == 0x5B {
            6
        } else if virtual_key == 0x5C {
            7
        } else {
            return;
        };
        let observation = self.modifier_observations[index];
        self.modifier_observations[index] = ModifierObservation {
            time: Some(time),
            sequence: observation.sequence.wrapping_add(1),
        };
    }

    /// Notes that the press or release of `virtual_key` reached Windows: the first forwarded
    /// press of a toggle key flips its toggle bit; its release ends that press.
    pub fn commit_forwarded(&mut self, virtual_key: u32, transition: KeyTransition)
        ensures
            (final(self).keys@, final(self).forwarded_toggle_keys) == committed(
                old(self).keys@,
                old(self).forwarded_toggle_keys,
                virtual_key,
                transition,
            ),
            final(self).modifier_observations == old(self).modifier_observations,
    {
        let mask: u8 = if virtual_key == 0x14 {
            1
        } else if virtual_key == 0x90 {
            2
        } else if virtual_key == 0x91 {
            4
        } else {
            return;
        };
        if transition == KeyTransition::Pressed {
            if self.forwarded_toggle_keys & mask == 0 {
                let key = virtual_key as usize;
                self.keys[key] = self.keys[key] ^ 1;
            }
            self.forwarded_toggle_keys = self.forwarded_toggle_keys | mask;
        } else {
            self.forwarded_toggle_keys = self.forwarded_toggle_keys & !mask;
        }
    }

    /// The keyboard as it stands when the hook starts, from the thread's key states `queued`
    /// (whose toggle bits are kept) and from which keys are `down` now: every key's down bit is
    /// set from `down`, and the toggle keys held down count as forwarded presses.
    pub fn from_snapshot(queued: [u8; 256], down: [bool; 256]) -> (state: Self)
        ensures
            forall|i: int| 0 <= i < 256 ==> state.keys@[i] == transitioned(queued@[i], down@[i]),
            state.forwarded_toggle_keys == snapshot_toggles(down@),
            forall|i: int|
                0 <= i < 8 ==> state.modifier_observations@[i] == (ModifierObservation {
                    time: None,
                    sequence: 0,
                }),
    {
        let mut keys = queued;
        let mut index: usize = 0;
        while index < 256
            invariant
                index <= 256,
                keys@.len() == 256,
                forall|i: int| 0 <= i < index ==> keys@[i] == transitioned(queued@[i], down@[i]),
                forall|i: int| index <= i < 256 ==> keys@[i] == queued@[i],
            decreases 256 - index,
        {
            let state = keys[index];
            keys[index] = (state & 1) | if down[index] {
                0x80u8
            } else {
                0u8
            };
            index = index + 1;
        }
        let caps: u8 = if keys[0x14] & 0x80 != 0 {
            1
        } else {
            0
        };
        let num: u8 = if keys[0x90] & 0x80 != 0 {
            2
        } else {
            0
        };
        let scroll: u8 = if keys[0x91] & 0x80 != 0 {
            4
        } else {
            0
        };
        proof {
            lemma_down_bit(queued@[0x14], down@[0x14]);
            lemma_down_bit(queued@[0x90], down@[0x90]);
            lemma_down_bit(queued@[0x91], down@[0x91]);
        }
        KeyboardState {
            keys,
            forwarded_toggle_keys: caps | num | scroll,
            modifier_observations: [ModifierObservation { time: None, sequence: 0 }; 8],
        }
    }

    /// The key states that typed search translates with.
    pub fn search_state(&self) -> (keys: [u8; 256])
        ensures
            keys@ == search_keys(self.keys@),
    {
        let mut keys = self.keys;
        keys[0x12] = 0;
        keys[0xA4] = 0;
        keys[0xA5] = 0;
        keys
    }
}

/// The virtual keys of the eight side modifiers whose last observation is kept, in the order of
/// `KeyboardState::modifier_observations`.
pub const MODIFIER_KEYS: [u16; 8] = [0xA0, 0xA1, 0xA2, 0xA3, 0xA4, 0xA5, 0x5B, 0x5C];

/// The virtual key of the side modifier at `index` of the kept observations.
pub open spec fn modifier_key(index: int) -> int {
    if index == 0 {
        0xA0
    } else if index == 1 {
        0xA1
    } else if index == 2 {
        0xA2
    } else if index == 3 {
        0xA3
    } else if index == 4 {
        0xA4
    } else if index == 5 {
        0xA5
    } else if index == 6 {
        0x5B
    } else {
        0x5C
    }
}

/// Whether the side modifier at `index` takes its state from a fresh sample after a desktop
/// switch at `boundary`: the hook has not seen it since `before` was taken, nor at or after the
/// boundary.
pub open spec fn rebases(
    now: ModifierObservation,
    before: ModifierObservation,
    boundary: u32,
) -> bool {
    now.sequence == before.sequence && match now.time {
        Some(time) => !at_or_after(time, boundary),
        None => true,
    }
}

/// The key states after a desktop switch at `boundary`: each side modifier that `rebases` takes
/// its down bit from `down`, and the aggregate modifiers follow their sides again.
pub open spec fn rebased_keys(
    keys: Seq<u8>,
    observations: Seq<ModifierObservation>,
    before: Seq<ModifierObservation>,
    boundary: u32,
    down: Seq<bool>,
) -> Seq<u8> {
    let sides = Seq::new(
        256,
        |key: int|
            if exists|i: int| 0 <= i < 8 && modifier_key(i) == key && rebases(
                observations[i],
                before[i],
                boundary,
            ) {
                let i = choose|i: int| 0 <= i < 8 && modifier_key(i) == key;
                if down[i] {
                    0x80u8
                } else {
                    0u8
                }
            } else {
                keys[key]
            },
    );
    sides.update(0x10, either_side(sides[0xA0], sides[0xA1])).update(
        0x11,
        either_side(sides[0xA2], sides[0xA3]),
    ).update(0x12, either_side(sides[0xA4], sides[0xA5]))
}

/// The desktop-switch boundary to keep after one at `time`: the later of the two on the
/// wrapping clock, or `time` where none is pending.
pub fn noted_boundary(pending: Option<u32>, time: u32) -> (boundary: Option<u32>)
    ensures
        boundary == match pending {
            Some(previous) => if at_or_after(time, previous) {
                Some(time)
            } else {
                pending
            },
            None => Some(time),
        },
{
    match pending {
        Some(previous) => if timestamp_at_or_after(time, previous) {
            Some(time)
        } else {
            pending
        },
        None => Some(time),
    }
}

impl KeyboardState {
    /// After a desktop switch at `boundary`, takes the down state of each side modifier from
    /// `down`, sampled once the desktop is reachable again, unless the hook has seen the key
    /// since `before` was taken or at or after the boundary; the aggregate modifiers follow
    /// their sides again. Gives back which side modifiers took the sample.
    pub fn rebase_keys(
        &mut self,
        boundary: u32,
        before: [ModifierObservation; 8],
        down: [bool; 8],
    ) -> (rebased: [bool; 8])
        ensures
            forall|i: int|
                0 <= i < 8 ==> rebased@[i] == rebases(
                    old(self).modifier_observations@[i],
                    before@[i],
                    boundary,
                ),
            final(self).keys@ == rebased_keys(
                old(self).keys@,
                old(self).modifier_observations@,
                before@,
                boundary,
                down@,
            ),
            final(self).modifier_observations == old(self).modifier_observations,
            final(self).forwarded_toggle_keys == old(self).forwarded_toggle_keys,
    {
        let ghost keys = self.keys@;
        let mut rebased = [false; 8];
        let mut index: usize = 0;
        while index < 8
            invariant
                index <= 8,
                self.modifier_observations == old(self).modifier_observations,
                self.forwarded_toggle_keys == old(self).forwarded_toggle_keys,
                keys == old(self).keys@,
                self.keys@.len() == 256,
                forall|i: int|
                    0 <= i < index ==> rebased@[i] == rebases(
                        old(self).modifier_observations@[i],
                        before@[i],
                        boundary,
                    ),
                forall|i: int| index <= i < 8 ==> !rebased@[i],
                forall|key: int|
                    0 <= key < 256 ==> self.keys@[key] == if exists|i: int|
                        0 <= i < index && modifier_key(i) == key && rebases(
                            old(self).modifier_observations@[i],
                            before@[i],
                            boundary,
                        ) {
                        let i = choose|i: int| 0 <= i < 8 && modifier_key(i) == key;
                        if down@[i] {
                            0x80u8
                        } else {
                            0u8
                        }
                    } else {
                        keys[key]
                    },
            decreases 8 - index,
        {
            let observed = self.modifier_observations[index];
            let seen = observed.sequence != before[index].sequence || match observed.time {
                Some(time) => timestamp_at_or_after(time, boundary),
                None => false,
            };
            let key = MODIFIER_KEYS[index] as usize;
            proof {
                assert(key == modifier_key(index as int)) by {
                    assert(MODIFIER_KEYS@[index as int] == modifier_key(index as int));
                }
                assert forall|i: int| 0 <= i < 8 && modifier_key(i) == key implies i == index by {}
            }
            if !seen {
                rebased[index] = true;
                self.keys[key] = if down[index] {
                    0x80u8
                } else {
                    0u8
                };
            }
            index = index + 1;
        }
        self.keys[0x10] = (self.keys[0xA0] | self.keys[0xA1]) & 0x80;
        self.keys[0x11] = (self.keys[0xA2] | self.keys[0xA3]) & 0x80;
        self.keys[0x12] = (self.keys[0xA4] | self.keys[0xA5]) & 0x80;
        proof {
            let expected = rebased_keys(
                keys,
                old(self).modifier_observations@,
                before@,
                boundary,
                down@,
            );
            assert(self.keys@ =~= expected);
        }
        rebased
    }
}

/// After the hook sees a side modifier go down or up, the aggregate modifier is down exactly
/// while either side is, and carries no other bit.
pub proof fn law_aggregate_follows_either_side(
    keys: Seq<u8>,
    virtual_key: u32,
    transition: KeyTransition,
)
    requires
        keys.len() == 256,
        aggregate_of(virtual_key as int) is Some,
    ensures
        ({
            let after = observed_keys(keys, virtual_key, transition);
            let (aggregate, left, right) = aggregate_of(virtual_key as int)->0;
            &&& (after[aggregate] & 0x80 != 0) == (after[left] & 0x80 != 0 || after[right] & 0x80
                != 0)
            &&& after[aggregate] & 0x7F == 0
        }),
{
    let after = observed_keys(keys, virtual_key, transition);
    let (aggregate, left, right) = aggregate_of(virtual_key as int)->0;
    let l = after[left];
    let r = after[right];
    assert(((l | r) & 0x80u8 & 0x80u8 != 0u8) == (l & 0x80u8 != 0u8 || r & 0x80u8 != 0u8)
        && (l | r) & 0x80u8 & 0x7Fu8 == 0u8) by (bit_vector);
}

/// A toggle key flips once per forwarded press: a repeated press, forwarded before its release,
/// changes nothing more; after the release the next press flips it again.
pub proof fn law_toggle_flips_once_per_press(keys: Seq<u8>, forwarded: u8, virtual_key: u32)
    requires
        toggle_mask(virtual_key) != 0,
        keys.len() == 256,
    ensures
        ({
            let pressed = committed(keys, forwarded, virtual_key, KeyTransition::Pressed);
            let repeated = committed(pressed.0, pressed.1, virtual_key, KeyTransition::Pressed);
            let released = committed(pressed.0, pressed.1, virtual_key, KeyTransition::Released);
            let again = committed(released.0, released.1, virtual_key, KeyTransition::Pressed);
            &&& repeated == pressed
            &&& again.0[virtual_key as int] == pressed.0[virtual_key as int] ^ 1
        }),
{
    let mask = toggle_mask(virtual_key);
    assert(mask != 0u8 ==> (forwarded | mask) & mask != 0u8 && ((forwarded | mask) | mask) == (
    forwarded | mask) && ((forwarded | mask) & !mask) & mask == 0u8) by (bit_vector);
}


/// The window flags that the hook works with after reading the shared `word`: none while the
/// hook is suspended or a keyboard recovery is pending, else the search and window flags.
pub open spec fn live_flags(word: usize, recovering: bool) -> usize {
    if word & INTERCEPTION_SUSPENDED != 0 || recovering {
        0
    } else {
        word & OVERLAY_FLAGS
    }
}

/// The window flags that the hook works with after reading the shared `word`.
pub fn interception_flags(word: usize, recovering: bool) -> (flags: usize)
    ensures
        flags == live_flags(word, recovering),
{
    if word & INTERCEPTION_SUSPENDED != 0 || recovering {
        0
    } else {
        word & OVERLAY_FLAGS
    }
}

/// Whether the hook must take up a new interception state: the generation of `word` or the
/// recovery state differs from the ones it holds.
pub fn interception_changed(
    word: usize,
    recovering: bool,
    held_generation: usize,
    held_recovering: bool,
) -> (changed: bool)
    ensures
        changed == (word & !OVERLAY_FLAGS != held_generation || recovering != held_recovering),
{
    word & !OVERLAY_FLAGS != held_generation || recovering != held_recovering
}

/// The settings that decide one keyboard event: the hook's own `base` settings under the
/// remote-desktop policy that `bypass` names, with typed search active exactly where the live
/// window flags say so.
pub open spec fn event_settings(base: HookSettings, bypass: bool, live: usize) -> HookSettings {
    HookSettings {
        search_active: live & SEARCH_ACTIVE != 0,
        ..PassthroughPolicy::flag_policy(bypass).applied(base)
    }
}

/// The settings that decide one keyboard event.
pub fn keyboard_settings(base: HookSettings, bypass: bool, live: usize) -> (settings: HookSettings)
    ensures
        settings == event_settings(base, bypass, live),
{
    let mut settings = PassthroughPolicy::from_bypass_flag(bypass).apply(base);
    settings.search_active = live & SEARCH_ACTIVE != 0;
    settings
}

/// The error bit of a replay that failed.
pub const HOOK_ERROR_REPLAY_INPUT: u8 = 1;

/// The error bit of an action that could not be posted.
pub const HOOK_ERROR_POST_ACTION: u8 = 2;

/// The error bit of a physical Tab that could not be routed through the registered hotkey.
pub const HOOK_ERROR_REGISTERED_SWITCH: u8 = 4;

/// The pending errors after `error` is recorded, and whether the hook thread must be woken to
/// report them: only for an error not already pending.
pub fn record_error(pending: u8, error: u8) -> (recorded: (u8, bool))
    ensures
        recorded == if pending & error != 0 {
            (pending, false)
        } else {
            ((pending | error) as u8, true)
        },
{
    if pending & error != 0 {
        (pending, false)
    } else {
        (pending | error, true)
    }
}

/// The message that asks the hook thread to forget the gestures under way.
pub const WM_RESET_GESTURES: u32 = 0x8002;

/// The message that wakes the hook thread to report its pending errors.
pub const WM_REPORT_HOOK_ERRORS: u32 = 0x8003;

/// The message that asks the hook thread to reconcile the keyboard after a desktop switch.
pub const WM_RECONCILE_KEYBOARD: u32 = 0x8014;

/// A registered hotkey went off.
pub const WM_HOTKEY: u32 = 0x0312;

/// A timer of the thread went off.
pub const WM_TIMER: u32 = 0x0113;

/// What the hook thread does with one message of its queue, after the registered switch whose
/// wait is over has been dispatched.
#[derive(Clone, Copy, Debug, PartialEq, Eq, Structural)]
pub enum ThreadMessage {
    /// The registered switch hotkey `id` went off: dispatch its queued actions as native ones.
    RegisteredSwitch(usize),
    /// Reconcile the keyboard with the desktop after a switch, at the message's time.
    RecoverKeyboard,
    /// Forget the gestures under way.
    ResetGestures,
    /// Nothing more: the pending errors were reported before.
    ReportErrors,
    /// Translate and dispatch the message as usual.
    Dispatch,
}

/// What the hook thread does with a message `message` with first parameter `wparam`, where
/// `owns_hotkey` says whether `wparam` names its registered switch hotkey and `recovery_timer`
/// is its keyboard recovery timer.
pub open spec fn routed(message: u32, wparam: usize, owns_hotkey: bool, recovery_timer: usize) -> ThreadMessage {
    if message == WM_HOTKEY && owns_hotkey {
        ThreadMessage::RegisteredSwitch(wparam)
    } else if message == WM_RECONCILE_KEYBOARD || (message == WM_TIMER && wparam == recovery_timer) {
        ThreadMessage::RecoverKeyboard
    } else if message == WM_RESET_GESTURES {
        ThreadMessage::ResetGestures
    } else if message == WM_REPORT_HOOK_ERRORS {
        ThreadMessage::ReportErrors
    } else {
        ThreadMessage::Dispatch
    }
}

/// What the hook thread does with one message of its queue.
pub fn route_thread_message(
    message: u32,
    wparam: usize,
    owns_hotkey: bool,
    recovery_timer: usize,
) -> (route: ThreadMessage)
    ensures
        route == routed(message, wparam, owns_hotkey, recovery_timer),
{
    if message == WM_HOTKEY && owns_hotkey {
        ThreadMessage::RegisteredSwitch(wparam)
    } else if message == WM_RECONCILE_KEYBOARD || (message == WM_TIMER && wparam == recovery_timer) {
        ThreadMessage::RecoverKeyboard
    } else if message == WM_RESET_GESTURES {
        ThreadMessage::ResetGestures
    } else if message == WM_REPORT_HOOK_ERRORS {
        ThreadMessage::ReportErrors
    } else {
        ThreadMessage::Dispatch
    }
}

/// Under a remote-desktop bypass neither Tab replacement is on, whatever the hook's settings;
/// typed search is active only while the switcher window shows with search.
pub proof fn law_event_settings_follow_policy_and_flags(base: HookSettings, bypass: bool, word: usize, recovering: bool)
    ensures
        bypass ==> !event_settings(base, bypass, live_flags(word, recovering)).replace_alt_tab
            && !event_settings(base, bypass, live_flags(word, recovering)).replace_win_tab,
        !bypass ==> event_settings(base, bypass, live_flags(word, recovering)).replace_alt_tab
            == base.replace_alt_tab,
        (word & INTERCEPTION_SUSPENDED != 0 || recovering) ==> !event_settings(
            base,
            bypass,
            live_flags(word, recovering),
        ).search_active,
{
    assert(0usize & 2usize == 0usize) by (bit_vector);
}


/// Whether posting `action` opens the switcher window, so that its flags must be published
/// first.
pub open spec fn opens_switcher(action: InputAction) -> bool {
    action is Switch || action is RightButtonPressed
}

/// What the hook thread does next while it posts the actions of one outcome to the switcher
/// window.
#[derive(Clone, Copy, Debug, PartialEq, Eq, Structural)]
pub enum PostingStep {
    /// Stop, keeping the key's release owned: the hook is recovering the keyboard, the
    /// generation has passed, or the hook is suspended.
    Stop,
    /// The action would open the switcher window but its flags could not be published, the word
    /// having changed under another thread since it was read: forget the gestures under way and
    /// stop.
    ResetAndStop,
    /// Post the action; where it opens the switcher window, its flags are published.
    Post,
}

/// Decides whether the action `action` of an outcome is posted in the interception generation
/// `generation`, publishing the switcher window's flags, with typed search as `typed_search`
/// says, where the action opens it.
pub fn posting_step(
    flags: &mut HookFlags,
    generation: usize,
    typed_search: bool,
    action: InputAction,
) -> (step: PostingStep)
    ensures
        old(flags).recovering() || old(flags).word() & !OVERLAY_FLAGS != generation || generation
            & INTERCEPTION_SUSPENDED != 0 ==> step == PostingStep::Stop && *final(flags) == *old(
            flags,
        ),
        !(old(flags).recovering() || old(flags).word() & !OVERLAY_FLAGS != generation || generation
            & INTERCEPTION_SUSPENDED != 0) && !opens_switcher(action) ==> step == PostingStep::Post
            && *final(flags) == *old(flags),
        !(old(flags).recovering() || old(flags).word() & !OVERLAY_FLAGS != generation || generation
            & INTERCEPTION_SUSPENDED != 0) && opens_switcher(action) ==> {
            let published = overlay_publishable(old(flags).word(), old(flags).recovering(), generation);
            &&& step == if published {
                PostingStep::Post
            } else {
                PostingStep::ResetAndStop
            }
            &&& final(flags).word() == if published {
                generation | overlay_bits(true, typed_search)
            } else {
                old(flags).word()
            }
            &&& final(flags).recovering() == old(flags).recovering()
        },
{
    if flags.recovery_pending() || flags.load() & !OVERLAY_FLAGS != generation || generation
        & INTERCEPTION_SUSPENDED != 0 {
        return PostingStep::Stop;
    }
    let opens = match action {
        InputAction::Switch(_) => true,
        InputAction::RightButtonPressed => true,
        _ => false,
    };
    if !opens {
        return PostingStep::Post;
    }
    if flags.update_overlay(generation, true, typed_search) {
        PostingStep::Post
    } else {
        PostingStep::ResetAndStop
    }
}

/// After posting `action` in `generation` failed: the error to record, and, where the action
/// opened the switcher window, its flags cleared again (as far as the generation allows).
pub fn posting_failed(flags: &mut HookFlags, generation: usize, action: InputAction) -> (error: u8)
    ensures
        error == HOOK_ERROR_POST_ACTION,
        !opens_switcher(action) ==> *final(flags) == *old(flags),
        opens_switcher(action) ==> final(flags).word() == if overlay_publishable(
            old(flags).word(),
            old(flags).recovering(),
            generation,
        ) {
            generation | overlay_bits(false, false)
        } else {
            old(flags).word()
        } && final(flags).recovering() == old(flags).recovering(),
{
    let opens = match action {
        InputAction::Switch(_) => true,
        InputAction::RightButtonPressed => true,
        _ => false,
    };
    if opens {
        let _cleared = flags.update_overlay(generation, false, false);
    }
    HOOK_ERROR_POST_ACTION
}

/// The virtual key of Tab.
pub const TAB_KEY: u32 = 0x09;

/// A physical Alt+Tab routed through a registered hotkey, so that the switch that opens from
/// the shell's menu runs with the foreground permission Windows grants a hotkey: whether such a
/// switch is waiting for its hotkey, whether the Tab press that started it is still down, and
/// the interception generation in use.
#[derive(Clone, Copy, Debug, PartialEq, Eq, Structural)]
pub struct RegisteredSwitchState {
    pub pending: bool,
    pub tab_down: bool,
    pub generation: usize,
}

impl View for RegisteredSwitchState {
    type V = RegisteredSwitchState;

    open spec fn view(&self) -> RegisteredSwitchState {
        *self
    }
}

/// One keyboard event as the registered switch sees it: what the hook decided, the key and its
/// transition, whether the event was injected, the shared flag word now, whether the shell's
/// window is in front, and whether the waiting switch's queue takes one more outcome.
#[derive(Clone, Copy, Debug, PartialEq, Eq)]
pub struct RegisteredSwitchEvent {
    pub outcome: HookOutcome,
    pub virtual_key: u32,
    pub transition: KeyTransition,
    pub injected: bool,
    pub flags_word: usize,
    pub shell_in_front: bool,
    pub queue_accepts: bool,
}

/// What the hook thread does for the registered switch, in order.
#[derive(Clone, Copy, Debug, PartialEq, Eq)]
pub enum RegisteredSwitchAction {
    /// Drop the waiting switch and its hotkey registration.
    ClearPending,
    /// Forget the gestures under way.
    ResetGestures,
    /// Publish that the switcher window is closed.
    ClearOverlay,
    /// Post `DismissOverlay` to the switcher window.
    PostDismissOverlay,
    /// Record that a physical Tab could not be routed through the hotkey.
    RecordError,
    /// Add this outcome to the waiting switch's queue.
    QueueOutcome(HookOutcome),
    /// Try to start a registered switch for this outcome: register the hotkey, publish the
    /// switcher window's flags, queue the outcome, and report with `registered_switch_started`.
    TryStart(HookOutcome),
    /// Answer the keyboard event with this outcome.
    Answer(HookOutcome),
}

/// Whether `outcome` posts `DismissOverlay`.
pub open spec fn dismisses(outcome: HookOutcome) -> bool {
    outcome.actions[0] == Some(InputAction::DismissOverlay) || outcome.actions[1] == Some(
        InputAction::DismissOverlay,
    )
}

/// Whether `outcome` posts a switch.
pub open spec fn switches(outcome: HookOutcome) -> bool {
    outcome.actions[0] matches Some(InputAction::Switch(_)) || outcome.actions[1] matches Some(
        InputAction::Switch(_),
    )
}

/// The registered switch after `event`, and what the hook thread does. A Tab release that
/// balances the registered press is given to Windows; a passed generation or a dismissal drops
/// the waiting switch; while a switch waits every outcome joins its queue and the key is only
/// swallowed, and a full queue drops the switch, closes the switcher and records the error; a
/// physical, not injected Tab press that switches while the shell is in front tries to start a
/// registered switch; any other event keeps its outcome.
pub open spec fn registered_switch_next(
    state: RegisteredSwitchState,
    event: RegisteredSwitchEvent,
) -> (RegisteredSwitchState, Seq<RegisteredSwitchAction>) {
    let balances = event.virtual_key == TAB_KEY && event.transition == KeyTransition::Released
        && state.tab_down;
    let state1 = if balances {
        RegisteredSwitchState { tab_down: false, ..state }
    } else {
        state
    };
    let outcome = if balances {
        HookOutcome { suppress: false, ..event.outcome }
    } else {
        event.outcome
    };
    if event.flags_word & !OVERLAY_FLAGS != state.generation || dismisses(outcome) {
        (
            RegisteredSwitchState { pending: false, ..state1 },
            seq![RegisteredSwitchAction::ClearPending, RegisteredSwitchAction::Answer(outcome)],
        )
    } else if state1.pending {
        let answer = RegisteredSwitchAction::Answer(bare_outcome(outcome.suppress));
        if event.queue_accepts {
            (state1, seq![RegisteredSwitchAction::QueueOutcome(outcome), answer])
        } else {
            (
                RegisteredSwitchState { pending: false, ..state1 },
                seq![
                    RegisteredSwitchAction::ClearPending,
                    RegisteredSwitchAction::ResetGestures,
                    RegisteredSwitchAction::ClearOverlay,
                    RegisteredSwitchAction::PostDismissOverlay,
                    RegisteredSwitchAction::RecordError,
                    answer,
                ],
            )
        }
    } else if event.virtual_key != TAB_KEY || event.transition != KeyTransition::Pressed
        || event.injected || !switches(outcome) || !event.shell_in_front {
        (state1, seq![RegisteredSwitchAction::Answer(outcome)])
    } else {
        (state1, seq![RegisteredSwitchAction::TryStart(outcome)])
    }
}

/// Steps the registered switch with one keyboard event.
pub fn registered_switch_step(
    state: &mut RegisteredSwitchState,
    event: RegisteredSwitchEvent,
) -> (actions: Vec<RegisteredSwitchAction>)
    ensures
        (final(state)@, actions@) == registered_switch_next(old(state)@, event),
{
    let balances = event.virtual_key == TAB_KEY && event.transition == KeyTransition::Released
        && state.tab_down;
    let mut outcome = event.outcome;
    if balances {
        state.tab_down = false;
        outcome.suppress = false;
    }
    let mut actions: Vec<RegisteredSwitchAction> = Vec::new();
    let dismissed = outcome.actions[0] == Some(InputAction::DismissOverlay) || outcome.actions[1]
        == Some(InputAction::DismissOverlay);
    if event.flags_word & !OVERLAY_FLAGS != state.generation || dismissed {
        state.pending = false;
        actions.push(RegisteredSwitchAction::ClearPending);
        actions.push(RegisteredSwitchAction::Answer(outcome));
        proof {
            assert(actions@ =~= seq![
                RegisteredSwitchAction::ClearPending,
                RegisteredSwitchAction::Answer(outcome),
            ]);
        }
        return actions;
    }
    if state.pending {
        let answer = RegisteredSwitchAction::Answer(HookOutcome {
            suppress: outcome.suppress,
            actions: [None, None],
        });
        if event.queue_accepts {
            actions.push(RegisteredSwitchAction::QueueOutcome(outcome));
            actions.push(answer);
            proof {
                assert(actions@ =~= seq![RegisteredSwitchAction::QueueOutcome(outcome), answer]);
            }
        } else {
            state.pending = false;
            actions.push(RegisteredSwitchAction::ClearPending);
            actions.push(RegisteredSwitchAction::ResetGestures);
            actions.push(RegisteredSwitchAction::ClearOverlay);
            actions.push(RegisteredSwitchAction::PostDismissOverlay);
            actions.push(RegisteredSwitchAction::RecordError);
            actions.push(answer);
            proof {
                assert(actions@ =~= seq![
                    RegisteredSwitchAction::ClearPending,
                    RegisteredSwitchAction::ResetGestures,
                    RegisteredSwitchAction::ClearOverlay,
                    RegisteredSwitchAction::PostDismissOverlay,
                    RegisteredSwitchAction::RecordError,
                    answer,
                ]);
            }
        }
        return actions;
    }
    let switched = match outcome.actions[0] {
        Some(InputAction::Switch(_)) => true,
        _ => match outcome.actions[1] {
            Some(InputAction::Switch(_)) => true,
            _ => false,
        },
    };
    if event.virtual_key != TAB_KEY || event.transition != KeyTransition::Pressed || event.injected
        || !switched || !event.shell_in_front {
        actions.push(RegisteredSwitchAction::Answer(outcome));
        proof {
            assert(actions@ =~= seq![RegisteredSwitchAction::Answer(outcome)]);
        }
    } else {
        actions.push(RegisteredSwitchAction::TryStart(outcome));
        proof {
            assert(actions@ =~= seq![RegisteredSwitchAction::TryStart(outcome)]);
        }
    }
    actions
}

/// The registered switch after an attempt to start one for `outcome`, and the outcome the key
/// event is answered with: a failed registration is recorded and keeps the outcome; where the
/// switcher window's flags could not be published or the queue refused the outcome, the outcome
/// is kept and nothing waits; else the switch waits with the Tab press down and the key event
/// is answered with nothing, the queue holding the outcome.
pub open spec fn registered_switch_start_next(
    state: RegisteredSwitchState,
    outcome: HookOutcome,
    registered: bool,
    published: bool,
    queued: bool,
) -> (RegisteredSwitchState, Seq<RegisteredSwitchAction>) {
    if !registered {
        (state, seq![RegisteredSwitchAction::RecordError, RegisteredSwitchAction::Answer(outcome)])
    } else if !published || !queued {
        (state, seq![RegisteredSwitchAction::ClearPending, RegisteredSwitchAction::Answer(outcome)])
    } else {
        (
            RegisteredSwitchState { pending: true, tab_down: true, ..state },
            seq![RegisteredSwitchAction::Answer(bare_outcome(false))],
        )
    }
}

/// Finishes an attempt to start a registered switch for `outcome`: whether the hotkey was
/// `registered`, the switcher window's flags `published`, and the outcome `queued`.
pub fn registered_switch_started(
    state: &mut RegisteredSwitchState,
    outcome: HookOutcome,
    registered: bool,
    published: bool,
    queued: bool,
) -> (actions: Vec<RegisteredSwitchAction>)
    ensures
        (final(state)@, actions@) == registered_switch_start_next(
            old(state)@,
            outcome,
            registered,
            published,
            queued,
        ),
{
    let mut actions: Vec<RegisteredSwitchAction> = Vec::new();
    if !registered {
        actions.push(RegisteredSwitchAction::RecordError);
        actions.push(RegisteredSwitchAction::Answer(outcome));
        proof {
            assert(actions@ =~= seq![
                RegisteredSwitchAction::RecordError,
                RegisteredSwitchAction::Answer(outcome),
            ]);
        }
    } else if !published || !queued {
        actions.push(RegisteredSwitchAction::ClearPending);
        actions.push(RegisteredSwitchAction::Answer(outcome));
        proof {
            assert(actions@ =~= seq![
                RegisteredSwitchAction::ClearPending,
                RegisteredSwitchAction::Answer(outcome),
            ]);
        }
    } else {
        state.pending = true;
        state.tab_down = true;
        let nothing = HookOutcome { suppress: false, actions: [None, None] };
        actions.push(RegisteredSwitchAction::Answer(nothing));
        proof {
            assert(actions@ =~= seq![RegisteredSwitchAction::Answer(bare_outcome(false))]);
        }
    }
    actions
}

/// How the queued outcomes of a registered switch are handed to the switcher window once the
/// switch is due: whether its hotkey arrived (`native`), the message that carries its actions,
/// and the interception generation it was started in.
#[derive(Clone, Copy, Debug, PartialEq, Eq)]
pub struct RegisteredDispatch {
    pub native: bool,
    pub message: u32,
    pub generation: usize,
}

/// Whether the waiting switch is due on a pass of the hook thread's message loop: on its own
/// hotkey when one arrived (`hotkey` is the hotkey's id, `id_matches` whether it is the waiting
/// switch's), else once its wait has `expired`.
pub open spec fn registered_switch_due(
    state: RegisteredSwitchState,
    hotkey: Option<usize>,
    expired: bool,
    id_matches: bool,
) -> bool {
    state.pending && match hotkey {
        Some(_) => id_matches,
        None => expired,
    }
}

/// Takes the waiting switch where it is due, and says how to hand over its queued outcomes: by
/// `WM_HOOK_HOTKEY_ACTION` when its hotkey arrived, else by `WM_HOOK_ACTION`, under the
/// generation it was started in. Where nothing is due, the state stays as it was.
pub fn registered_switch_dispatch(
    state: &mut RegisteredSwitchState,
    hotkey: Option<usize>,
    expired: bool,
    id_matches: bool,
) -> (plan: Option<RegisteredDispatch>)
    ensures
        registered_switch_due(old(state)@, hotkey, expired, id_matches) ==> final(state)@
            == (RegisteredSwitchState { pending: false, ..old(state)@ }) && plan == Some(
            RegisteredDispatch {
                native: hotkey is Some,
                message: if hotkey is Some {
                    WM_HOOK_HOTKEY_ACTION
                } else {
                    WM_HOOK_ACTION
                },
                generation: old(state).generation,
            },
        ),
        !registered_switch_due(old(state)@, hotkey, expired, id_matches) ==> final(state)@
            == old(state)@ && plan is None,
{
    let due = state.pending && match hotkey {
        Some(_) => id_matches,
        None => expired,
    };
    if !due {
        return None;
    }
    state.pending = false;
    let native = hotkey.is_some();
    let message = if native {
        WM_HOOK_HOTKEY_ACTION
    } else {
        WM_HOOK_ACTION
    };
    Some(RegisteredDispatch { native, message, generation: state.generation })
}

/// The message that carries one queued outcome of a dispatched switch, or none where the
/// interception generation has moved on since the switch started and the outcome is dropped.
/// Where posting its actions fails, the hook thread forgets the gestures under way.
pub fn registered_outcome_message(plan: &RegisteredDispatch, interception_generation: usize) -> (message:
    Option<u32>)
    ensures
        message == if interception_generation == plan.generation {
            Some(plan.message)
        } else {
            None
        },
{
    if interception_generation == plan.generation {
        Some(plan.message)
    } else {
        None
    }
}

/// Every registered-switch step answers the key event exactly once, as its last action; the
/// switch that waits keeps waiting only while the generation holds and nothing dismissed it.
pub proof fn law_registered_switch_answers_once(
    state: RegisteredSwitchState,
    event: RegisteredSwitchEvent,
)
    ensures
        ({
            let (after, actions) = registered_switch_next(state, event);
            &&& actions.len() >= 1
            &&& (actions.last() is Answer || actions.last() is TryStart)
            &&& forall|i: int| 0 <= i < actions.len() - 1 ==> !(#[trigger] actions[i] is Answer)
                && !(actions[i] is TryStart)
            &&& after.pending ==> state.pending && event.flags_word & !OVERLAY_FLAGS
                == state.generation
            &&& after.generation == state.generation
        }),
{
}

} // verus!
