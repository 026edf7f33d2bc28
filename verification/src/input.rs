//! Pure state machines used by the low-level keyboard and mouse hook adapter.

use vstd::prelude::*;

verus! {

#[derive(Clone, Copy, Debug, PartialEq, Eq, Structural)]
pub enum Key {
    Tab,
    Enter,
    Home,
    End,
    Escape,
    F4,
    Function(u8),
    Alt,
    LeftAlt,
    RightAlt,
    LeftWindows,
    RightWindows,
    Control,
    LeftControl,
    RightControl,
    LeftShift,
    RightShift,
    PrintScreen,
    Backspace,
    LeftArrow,
    UpArrow,
    RightArrow,
    DownArrow,
    Digit(u8),
    NumpadDigit(u8),
    Other(u16),
}

/// The Windows virtual-key code of `key`.
pub open spec fn spec_virtual_key(key: Key) -> u16 {
    match key {
        Key::Tab => 0x09,
        Key::Enter => 0x0D,
        Key::Home => 0x24,
        Key::End => 0x23,
        Key::Escape => 0x1B,
        Key::F4 => 0x73,
        Key::Function(number) => (0x6F + number) as u16,
        Key::Alt => 0x12,
        Key::LeftAlt => 0xA4,
        Key::RightAlt => 0xA5,
        Key::LeftWindows => 0x5B,
        Key::RightWindows => 0x5C,
        Key::Control => 0x11,
        Key::LeftControl => 0xA2,
        Key::RightControl => 0xA3,
        Key::LeftShift => 0xA0,
        Key::RightShift => 0xA1,
        Key::PrintScreen => 0x2C,
        Key::Backspace => 0x08,
        Key::LeftArrow => 0x25,
        Key::UpArrow => 0x26,
        Key::RightArrow => 0x27,
        Key::DownArrow => 0x28,
        Key::Digit(value) => (0x30 + value) as u16,
        Key::NumpadDigit(value) => (0x60 + value) as u16,
        Key::Other(value) => value,
    }
}

pub fn virtual_key(key: Key) -> (code: u16)
    ensures
        code == spec_virtual_key(key),
{
    match key {
        Key::Tab => 0x09,
        Key::Enter => 0x0D,
        Key::Home => 0x24,
        Key::End => 0x23,
        Key::Escape => 0x1B,
        Key::F4 => 0x73,
        Key::Function(number) => 0x6F + number as u16,
        Key::Alt => 0x12,
        Key::LeftAlt => 0xA4,
        Key::RightAlt => 0xA5,
        Key::LeftWindows => 0x5B,
        Key::RightWindows => 0x5C,
        Key::Control => 0x11,
        Key::LeftControl => 0xA2,
        Key::RightControl => 0xA3,
        Key::LeftShift => 0xA0,
        Key::RightShift => 0xA1,
        Key::PrintScreen => 0x2C,
        Key::Backspace => 0x08,
        Key::LeftArrow => 0x25,
        Key::UpArrow => 0x26,
        Key::RightArrow => 0x27,
        Key::DownArrow => 0x28,
        Key::Digit(value) => 0x30 + value as u16,
        Key::NumpadDigit(value) => 0x60 + value as u16,
        Key::Other(value) => value,
    }
}


#[derive(Clone, Copy, Debug, PartialEq, Eq, Structural)]
pub struct HookSettings {
    pub replace_alt_tab: bool,
    pub replace_win_tab: bool,
    pub right_button_wheel_switching: bool,
    pub typed_search: bool,
    pub search_active: bool,
}

impl Default for HookSettings {
    fn default() -> (settings: Self)
        ensures
            settings.replace_alt_tab,
            settings.replace_win_tab,
            settings.right_button_wheel_switching,
            settings.typed_search,
            !settings.search_active,
    {
        Self {
            replace_alt_tab: true,
            replace_win_tab: true,
            right_button_wheel_switching: true,
            typed_search: true,
            search_active: false,
        }
    }
}

#[derive(Clone, Copy, Debug, Default, PartialEq, Eq, Structural)]
pub struct Modifiers {
    pub alt: bool,
    pub left_windows: bool,
    pub right_windows: bool,
}

#[derive(Clone, Copy, Debug, PartialEq, Eq, Structural)]
pub enum KeyTransition {
    Pressed,
    Released,
}

#[derive(Clone, Copy, Debug, PartialEq, Eq, Structural)]
pub struct KeyEvent {
    pub key: Key,
    pub transition: KeyTransition,
    pub modifiers: Modifiers,
    pub text: Option<char>,
}

impl KeyEvent {
    pub fn pressed(key: Key, modifiers: Modifiers) -> (event: Self)
        ensures
            event == (KeyEvent { key, transition: KeyTransition::Pressed, modifiers, text: None }),
    {
        Self { key, transition: KeyTransition::Pressed, modifiers, text: None }
    }

    pub fn released(key: Key, modifiers: Modifiers) -> (event: Self)
        ensures
            event == (KeyEvent { key, transition: KeyTransition::Released, modifiers, text: None }),
    {
        Self { key, transition: KeyTransition::Released, modifiers, text: None }
    }

    pub fn with_text(self, text: char) -> (event: Self)
        ensures
            event == (KeyEvent { text: Some(text), ..self }),
    {
        let mut event = self;
        event.text = Some(text);
        event
    }
}

#[derive(Clone, Copy, Debug, PartialEq, Eq, Structural)]
pub struct ReplayedKeyEvent {
    pub key: Key,
    pub transition: KeyTransition,
}

impl ReplayedKeyEvent {
    pub open spec fn spec_pressed(key: Key) -> Self {
        ReplayedKeyEvent { key, transition: KeyTransition::Pressed }
    }

    pub open spec fn spec_released(key: Key) -> Self {
        ReplayedKeyEvent { key, transition: KeyTransition::Released }
    }

    pub fn pressed(key: Key) -> (event: Self)
        ensures
            event == Self::spec_pressed(key),
    {
        Self { key, transition: KeyTransition::Pressed }
    }

    pub fn released(key: Key) -> (event: Self)
        ensures
            event == Self::spec_released(key),
    {
        Self { key, transition: KeyTransition::Released }
    }

    pub fn virtual_key(self) -> (code: u16)
        ensures
            code == spec_virtual_key(self.key),
    {
        virtual_key(self.key)
    }
}

#[derive(Clone, Copy, Debug, PartialEq, Eq, Structural)]
pub enum MouseEvent {
    RightButtonPressed,
    RightButtonReleased,
    Wheel(i16),
    Other,
}

#[derive(Clone, Copy, Debug, PartialEq, Eq, Structural)]
pub enum InputAction {
    Switch(i32),
    Navigate(i32),
    ActivateSelected,
    SelectFirst,
    SelectLast,
    DismissOverlay,
    CloseSelected,
    WindowCommand(WindowCommand),
    ActivateVisiblePosition(usize),
    AltReleased,
    RightButtonPressed,
    RightButtonReleased,
    MouseWheel(i32),
    AppendSearchCharacter(char),
    BackspaceSearch,
}

#[derive(Clone, Copy, Debug, PartialEq, Eq, Structural)]
pub struct OverlayKeyEvent {
    pub key: Key,
    pub repeated: bool,
    pub shift: bool,
}

impl OverlayKeyEvent {
    pub open spec fn spec_pressed(key: Key) -> Self {
        OverlayKeyEvent { key, repeated: false, shift: false }
    }

    pub fn pressed(key: Key) -> (event: Self)
        ensures
            event == Self::spec_pressed(key),
    {
        Self { key, repeated: false, shift: false }
    }
}

/// What a key pressed while the overlay has focus asks the switcher to do.
pub open spec fn overlay_action(event: OverlayKeyEvent) -> Option<InputAction> {
    match event.key {
        Key::Tab => Some(InputAction::Switch(if event.shift { -1i32 } else { 1i32 })),
        Key::LeftArrow | Key::UpArrow => Some(InputAction::Navigate(-1i32)),
        Key::RightArrow | Key::DownArrow => Some(InputAction::Navigate(1i32)),
        Key::Home => Some(InputAction::SelectFirst),
        Key::End => Some(InputAction::SelectLast),
        Key::Enter => if event.repeated { None } else { Some(InputAction::ActivateSelected) },
        Key::Escape => if event.repeated { None } else { Some(InputAction::DismissOverlay) },
        Key::F4 => if event.repeated { None } else { Some(InputAction::CloseSelected) },
        Key::Function(number) => if event.repeated {
            None
        } else {
            match command_for_function_key(number) {
                Some(command) => Some(InputAction::WindowCommand(command)),
                None => None,
            }
        },
        Key::Digit(position) | Key::NumpadDigit(position) => if !event.repeated && 1 <= position
            <= 9 {
            Some(InputAction::ActivateVisiblePosition(position as usize))
        } else {
            None
        },
        _ => None,
    }
}

pub fn overlay_key_action(event: OverlayKeyEvent) -> (action: Option<InputAction>)
    ensures
        action == overlay_action(event),
{
    match event.key {
        Key::Tab => Some(InputAction::Switch(if event.shift { -1 } else { 1 })),
        Key::LeftArrow | Key::UpArrow => Some(InputAction::Navigate(-1)),
        Key::RightArrow | Key::DownArrow => Some(InputAction::Navigate(1)),
        Key::Home => Some(InputAction::SelectFirst),
        Key::End => Some(InputAction::SelectLast),
        Key::Enter if !event.repeated => Some(InputAction::ActivateSelected),
        Key::Escape if !event.repeated => Some(InputAction::DismissOverlay),
        Key::F4 if !event.repeated => Some(InputAction::CloseSelected),
        Key::Function(number) if !event.repeated => {
            match WindowCommand::from_function_key(number) {
                Some(command) => Some(InputAction::WindowCommand(command)),
                None => None,
            }
        },
        Key::Digit(position) | Key::NumpadDigit(position) => {
            if !event.repeated && position >= 1 && position <= 9 {
                Some(InputAction::ActivateVisiblePosition(position as usize))
            } else {
                None
            }
        },
        _ => None,
    }
}

/// Commands on the selected window or its app.
///
/// `Hide` and `Quit` are app commands that no function key runs.
#[derive(Clone, Copy, Debug, PartialEq, Eq, Structural)]
pub enum WindowCommand {
    Close,
    Minimize,
    Maximize,
    Restore,
    Terminate,
    Run,
    Hide,
    Quit,
}

pub open spec fn command_for_function_key(number: u8) -> Option<WindowCommand> {
    match number {
        4 => Some(WindowCommand::Close),
        5 => Some(WindowCommand::Minimize),
        6 => Some(WindowCommand::Maximize),
        7 => Some(WindowCommand::Restore),
        8 => Some(WindowCommand::Terminate),
        9 => Some(WindowCommand::Run),
        _ => None,
    }
}

/// The function key that runs `command`; 0, which names no function key, for the commands
/// that none runs.
pub open spec fn function_key_of(command: WindowCommand) -> u8 {
    match command {
        WindowCommand::Close => 4,
        WindowCommand::Minimize => 5,
        WindowCommand::Maximize => 6,
        WindowCommand::Restore => 7,
        WindowCommand::Terminate => 8,
        WindowCommand::Run => 9,
        WindowCommand::Hide | WindowCommand::Quit => 0,
    }
}

impl WindowCommand {
    pub fn from_function_key(number: u8) -> (command: Option<Self>)
        ensures
            command == command_for_function_key(number),
    {
        match number {
            4 => Some(Self::Close),
            5 => Some(Self::Minimize),
            6 => Some(Self::Maximize),
            7 => Some(Self::Restore),
            8 => Some(Self::Terminate),
            9 => Some(Self::Run),
            _ => None,
        }
    }

    pub fn function_key(self) -> (number: u8)
        ensures
            number == function_key_of(self),
    {
        match self {
            Self::Close => 4,
            Self::Minimize => 5,
            Self::Maximize => 6,
            Self::Restore => 7,
            Self::Terminate => 8,
            Self::Run => 9,
            Self::Hide | Self::Quit => 0,
        }
    }
}

/// Whether the hook swallows the event, and up to two actions it posts to the switcher.
#[derive(Clone, Copy, Debug, Default, PartialEq, Eq)]
pub struct HookOutcome {
    pub suppress: bool,
    pub actions: [Option<InputAction>; 2],
}

/// An outcome that suppresses as `suppress` says and posts nothing.
pub open spec fn bare_outcome(suppress: bool) -> HookOutcome {
    HookOutcome { suppress, actions: [None, None] }
}

pub open spec fn outcome_one(suppress: bool, action: InputAction) -> HookOutcome {
    HookOutcome { suppress, actions: [Some(action), None] }
}

pub open spec fn outcome_two(suppress: bool, first: InputAction, second: InputAction) -> HookOutcome {
    HookOutcome { suppress, actions: [Some(first), Some(second)] }
}

/// The actions of `outcome` in posting order.
pub open spec fn outcome_actions(outcome: HookOutcome) -> Seq<InputAction> {
    let first = outcome.actions[0];
    let second = outcome.actions[1];
    let head = if first is Some { seq![first->0] } else { Seq::empty() };
    if second is Some { head.push(second->0) } else { head }
}

impl HookOutcome {
    fn none(suppress: bool) -> (outcome: Self)
        ensures
            outcome == bare_outcome(suppress),
    {
        Self { suppress, actions: [None, None] }
    }

    fn one(suppress: bool, action: InputAction) -> (outcome: Self)
        ensures
            outcome == outcome_one(suppress, action),
    {
        Self { suppress, actions: [Some(action), None] }
    }

    fn two(suppress: bool, first: InputAction, second: InputAction) -> (outcome: Self)
        ensures
            outcome == outcome_two(suppress, first, second),
    {
        Self { suppress, actions: [Some(first), Some(second)] }
    }

    /// The posted actions, in order.
    pub fn actions(&self) -> (actions: Vec<InputAction>)
        ensures
            actions@ == outcome_actions(*self),
    {
        let mut actions = Vec::new();
        if let Some(first) = self.actions[0] {
            actions.push(first);
        }
        if let Some(second) = self.actions[1] {
            actions.push(second);
        }
        actions
    }
}

/// Where the right mouse button stands in a wheel-switching gesture.
#[derive(Clone, Copy, Debug, Default, PartialEq, Eq, Structural)]
pub enum RightButtonState {
    #[default]
    Released,
    Pressed,
    WheelGesture,
}

/// The hook's memory of the keyboard and mouse, as the contracts speak of it.
///
/// Owned keys are named by their virtual-key codes below 256.
#[verifier::ext_equal]
pub struct HookModel {
    pub shift_keys: Set<Key>,
    pub pressed_owned_keys: Set<int>,
    pub suppressed_shift_keys: Set<Key>,
    pub suppressed_owned_key_releases: Set<int>,
    pub pending_alt_keys: Set<Key>,
    pub pending_windows_keys: Set<Key>,
    pub replayed_key_events: [Option<ReplayedKeyEvent>; 3],
    pub overlay_active: bool,
    pub alt_switch_gesture_active: bool,
    pub win_switch_gesture_active: bool,
    pub right_button: RightButtonState,
}

pub open spec fn empty_replay() -> [Option<ReplayedKeyEvent>; 3] {
    [None, None, None]
}

/// The state of a hook that has seen no input.
pub open spec fn initial_model() -> HookModel {
    HookModel {
        shift_keys: Set::empty(),
        pressed_owned_keys: Set::empty(),
        suppressed_shift_keys: Set::empty(),
        suppressed_owned_key_releases: Set::empty(),
        pending_alt_keys: Set::empty(),
        pending_windows_keys: Set::empty(),
        replayed_key_events: empty_replay(),
        overlay_active: false,
        alt_switch_gesture_active: false,
        win_switch_gesture_active: false,
        right_button: RightButtonState::Released,
    }
}

pub open spec fn is_alt_key(key: Key) -> bool {
    key == Key::Alt || key == Key::LeftAlt || key == Key::RightAlt
}

pub open spec fn is_windows_key(key: Key) -> bool {
    key == Key::LeftWindows || key == Key::RightWindows
}

pub open spec fn is_shift_key(key: Key) -> bool {
    key == Key::LeftShift || key == Key::RightShift
}

pub open spec fn passes_through(key: Key) -> bool {
    key == Key::Control || key == Key::LeftControl || key == Key::RightControl || key
        == Key::PrintScreen
}

/// Keys whose transitions the hook tracks: those with a virtual-key code below 256.
pub open spec fn is_owned_key(key: Key) -> bool {
    spec_virtual_key(key) < 256
}

pub open spec fn vk(key: Key) -> int {
    spec_virtual_key(key) as int
}

pub open spec fn owned_key_down(m: HookModel, key: Key) -> bool {
    is_owned_key(key) && m.pressed_owned_keys.contains(vk(key))
}

pub open spec fn release_pending(m: HookModel, key: Key) -> bool {
    is_owned_key(key) && m.suppressed_owned_key_releases.contains(vk(key))
}

/// Remembers that the release of `key` belongs to the switcher.
pub open spec fn suppress_release(m: HookModel, key: Key) -> HookModel {
    if is_owned_key(key) {
        HookModel {
            suppressed_owned_key_releases: m.suppressed_owned_key_releases.insert(vk(key)),
            ..m
        }
    } else {
        m
    }
}

/// Consumes a suppressed release of `key`; the flag says whether one was pending.
pub open spec fn take_release(m: HookModel, key: Key) -> (HookModel, bool) {
    if is_owned_key(key) {
        (
            HookModel {
                suppressed_owned_key_releases: m.suppressed_owned_key_releases.remove(vk(key)),
                ..m
            },
            m.suppressed_owned_key_releases.contains(vk(key)),
        )
    } else {
        (m, false)
    }
}

pub open spec fn update_owned(m: HookModel, event: KeyEvent) -> HookModel {
    if is_owned_key(event.key) {
        if event.transition == KeyTransition::Pressed {
            HookModel { pressed_owned_keys: m.pressed_owned_keys.insert(vk(event.key)), ..m }
        } else {
            HookModel { pressed_owned_keys: m.pressed_owned_keys.remove(vk(event.key)), ..m }
        }
    } else {
        m
    }
}

pub open spec fn update_shift(m: HookModel, event: KeyEvent) -> HookModel {
    if is_shift_key(event.key) {
        if event.transition == KeyTransition::Pressed {
            HookModel { shift_keys: m.shift_keys.insert(event.key), ..m }
        } else {
            HookModel { shift_keys: m.shift_keys.remove(event.key), ..m }
        }
    } else {
        m
    }
}

pub open spec fn shift_down(m: HookModel) -> bool {
    m.shift_keys.contains(Key::LeftShift) || m.shift_keys.contains(Key::RightShift)
}

pub open spec fn gesture_active(m: HookModel) -> bool {
    m.alt_switch_gesture_active || m.win_switch_gesture_active
}

pub open spec fn any_alt_down(m: HookModel) -> bool {
    owned_key_down(m, Key::Alt) || owned_key_down(m, Key::LeftAlt) || owned_key_down(
        m,
        Key::RightAlt,
    )
}

pub open spec fn alt_pending(m: HookModel) -> bool {
    m.pending_alt_keys.contains(Key::LeftAlt) || m.pending_alt_keys.contains(Key::RightAlt)
        || m.pending_alt_keys.contains(Key::Alt)
}

pub open spec fn windows_pending(m: HookModel) -> bool {
    m.pending_windows_keys.contains(Key::LeftWindows) || m.pending_windows_keys.contains(
        Key::RightWindows,
    )
}

/// The pending Alt keys in the order they are replayed.
pub open spec fn alt_key_order(keys: Set<Key>) -> Seq<Key> {
    let a = if keys.contains(Key::LeftAlt) { seq![Key::LeftAlt] } else { Seq::empty() };
    let b = if keys.contains(Key::RightAlt) { a.push(Key::RightAlt) } else { a };
    if keys.contains(Key::Alt) { b.push(Key::Alt) } else { b }
}

/// The pending Windows keys in the order they are replayed.
pub open spec fn windows_key_order(keys: Set<Key>) -> Seq<Key> {
    let a = if keys.contains(Key::LeftWindows) { seq![Key::LeftWindows] } else { Seq::empty() };
    if keys.contains(Key::RightWindows) { a.push(Key::RightWindows) } else { a }
}

/// Presses of `keys` and then of `last`, as many as the three replay slots hold.
pub open spec fn replay_presses(keys: Seq<Key>, last: Key) -> [Option<ReplayedKeyEvent>; 3] {
    [replay_slot(keys, last, 0), replay_slot(keys, last, 1), replay_slot(keys, last, 2)]
}

pub open spec fn replay_slot(keys: Seq<Key>, last: Key, slot: int) -> Option<ReplayedKeyEvent> {
    if slot < keys.len() {
        Some(ReplayedKeyEvent::spec_pressed(keys[slot]))
    } else if slot == keys.len() {
        Some(ReplayedKeyEvent::spec_pressed(last))
    } else {
        None
    }
}

/// A tap of `key`: its press and release.
pub open spec fn replay_tap(key: Key) -> [Option<ReplayedKeyEvent>; 3] {
    [Some(ReplayedKeyEvent::spec_pressed(key)), Some(ReplayedKeyEvent::spec_released(key)), None]
}

pub open spec fn alt_transition(m: HookModel, event: KeyEvent, settings: HookSettings) -> (
    HookModel,
    Option<HookOutcome>,
) {
    let key = event.key;
    if !is_alt_key(key) {
        (m, None)
    } else if event.transition == KeyTransition::Released {
        if m.alt_switch_gesture_active {
            (m, None)
        } else if m.pending_alt_keys.contains(key) {
            (
                HookModel {
                    pending_alt_keys: m.pending_alt_keys.remove(key),
                    replayed_key_events: replay_tap(key),
                    ..m
                },
                Some(bare_outcome(true)),
            )
        } else {
            (m, None)
        }
    } else if !settings.replace_alt_tab || m.win_switch_gesture_active || windows_pending(m) {
        (m, None)
    } else if m.alt_switch_gesture_active {
        (suppress_release(m, key), Some(bare_outcome(true)))
    } else if !release_pending(m, key) {
        (HookModel { pending_alt_keys: m.pending_alt_keys.insert(key), ..m }, Some(bare_outcome(true)))
    } else {
        (m, Some(bare_outcome(true)))
    }
}

pub open spec fn windows_transition(m: HookModel, event: KeyEvent, settings: HookSettings) -> (
    HookModel,
    Option<HookOutcome>,
) {
    let key = event.key;
    if !is_windows_key(key) {
        (m, None)
    } else if event.transition == KeyTransition::Released && m.pending_windows_keys.contains(key) {
        (
            HookModel {
                pending_windows_keys: m.pending_windows_keys.remove(key),
                replayed_key_events: replay_tap(key),
                ..m
            },
            Some(bare_outcome(true)),
        )
    } else if event.transition != KeyTransition::Pressed || !settings.replace_win_tab
        || m.alt_switch_gesture_active {
        (m, None)
    } else if m.win_switch_gesture_active {
        (suppress_release(m, key), Some(bare_outcome(true)))
    } else if !release_pending(m, key) {
        (
            HookModel { pending_windows_keys: m.pending_windows_keys.insert(key), ..m },
            Some(bare_outcome(true)),
        )
    } else {
        (m, Some(bare_outcome(true)))
    }
}

pub open spec fn pending_alt_shortcut(m: HookModel, event: KeyEvent, alt_tab: bool) -> (
    HookModel,
    Option<HookOutcome>,
) {
    if event.transition != KeyTransition::Pressed || !alt_pending(m) || alt_tab {
        (m, None)
    } else {
        let keys = alt_key_order(m.pending_alt_keys);
        (
            HookModel {
                pending_alt_keys: Set::empty(),
                replayed_key_events: replay_presses(keys, event.key),
                ..m
            },
            Some(bare_outcome(keys.len() < 3)),
        )
    }
}

pub open spec fn pending_windows_shortcut(m: HookModel, event: KeyEvent, windows_tab: bool) -> (
    HookModel,
    Option<HookOutcome>,
) {
    if event.transition != KeyTransition::Pressed || !windows_pending(m) || windows_tab {
        (m, None)
    } else {
        let keys = windows_key_order(m.pending_windows_keys);
        (
            HookModel {
                pending_windows_keys: Set::empty(),
                replayed_key_events: replay_presses(keys, event.key),
                ..m
            },
            Some(bare_outcome(true)),
        )
    }
}

pub open spec fn shift_suppression(m: HookModel, event: KeyEvent) -> (HookModel, bool) {
    if !is_shift_key(event.key) {
        (m, false)
    } else if event.transition == KeyTransition::Pressed {
        if m.alt_switch_gesture_active {
            (
                HookModel { suppressed_shift_keys: m.suppressed_shift_keys.insert(event.key), ..m },
                true,
            )
        } else {
            (m, false)
        }
    } else {
        (
            HookModel { suppressed_shift_keys: m.suppressed_shift_keys.remove(event.key), ..m },
            m.suppressed_shift_keys.contains(event.key),
        )
    }
}

/// An outcome that posts `action` after the state became `m`, if the overlay maps the key.
pub open spec fn posting(m: HookModel, action: Option<InputAction>) -> (
    HookModel,
    Option<HookOutcome>,
) {
    match action {
        Some(action) => (m, Some(outcome_one(true, action))),
        None => (m, None),
    }
}

pub open spec fn arrow_key(m: HookModel, event: KeyEvent) -> (HookModel, Option<HookOutcome>) {
    let action = overlay_action(OverlayKeyEvent { key: event.key, repeated: false, shift: shift_down(m) });
    if !(action matches Some(InputAction::Navigate(_))) {
        (m, None)
    } else if event.transition == KeyTransition::Pressed && gesture_active(m) {
        (suppress_release(m, event.key), Some(outcome_one(true, action->0)))
    } else {
        (m, None)
    }
}

pub open spec fn enter_key(m: HookModel, event: KeyEvent) -> (HookModel, Option<HookOutcome>) {
    if event.key != Key::Enter || event.transition != KeyTransition::Pressed {
        (m, None)
    } else if release_pending(m, event.key) {
        (m, Some(bare_outcome(true)))
    } else if !gesture_active(m) {
        (m, None)
    } else {
        let m2 = suppress_release(
            HookModel { alt_switch_gesture_active: false, win_switch_gesture_active: false, ..m },
            event.key,
        );
        posting(m2, overlay_action(OverlayKeyEvent::spec_pressed(event.key)))
    }
}

pub open spec fn f4_key(m: HookModel, event: KeyEvent) -> (HookModel, Option<HookOutcome>) {
    if event.key != Key::F4 || event.transition != KeyTransition::Pressed {
        (m, None)
    } else if release_pending(m, event.key) {
        (m, Some(bare_outcome(true)))
    } else if !gesture_active(m) {
        (m, None)
    } else {
        posting(
            suppress_release(m, event.key),
            overlay_action(OverlayKeyEvent::spec_pressed(event.key)),
        )
    }
}

pub open spec fn is_command_function_key(key: Key) -> bool {
    key matches Key::Function(number) && 5 <= number <= 9
}

pub open spec fn function_key(m: HookModel, event: KeyEvent) -> (HookModel, Option<HookOutcome>) {
    if !is_command_function_key(event.key) || event.transition != KeyTransition::Pressed {
        (m, None)
    } else if release_pending(m, event.key) {
        (m, Some(bare_outcome(true)))
    } else if !gesture_active(m) {
        (m, None)
    } else {
        posting(
            suppress_release(m, event.key),
            overlay_action(OverlayKeyEvent::spec_pressed(event.key)),
        )
    }
}

pub open spec fn escape_key(m: HookModel, event: KeyEvent) -> (HookModel, Option<HookOutcome>) {
    if event.key != Key::Escape {
        (m, None)
    } else if event.transition == KeyTransition::Released {
        let (m2, taken) = take_release(m, event.key);
        (m2, if taken { Some(bare_outcome(true)) } else { None })
    } else if release_pending(m, event.key) {
        (m, Some(bare_outcome(true)))
    } else if !m.overlay_active {
        (m, None)
    } else {
        let m2 = suppress_release(
            HookModel { alt_switch_gesture_active: false, win_switch_gesture_active: false, ..m },
            event.key,
        );
        posting(m2, overlay_action(OverlayKeyEvent::spec_pressed(event.key)))
    }
}

pub open spec fn boundary_key(m: HookModel, event: KeyEvent) -> (HookModel, Option<HookOutcome>) {
    let action = overlay_action(OverlayKeyEvent::spec_pressed(event.key));
    if !(action == Some(InputAction::SelectFirst) || action == Some(InputAction::SelectLast)) {
        (m, None)
    } else if event.transition == KeyTransition::Pressed && gesture_active(m) {
        (suppress_release(m, event.key), Some(outcome_one(true, action->0)))
    } else {
        (m, None)
    }
}

/// Whether `c` is a control character, general category Cc.
pub open spec fn is_control_char(c: char) -> bool {
    (c as u32) <= 0x1F || (0x7F <= (c as u32) && (c as u32) <= 0x9F)
}

pub open spec fn search_key(m: HookModel, event: KeyEvent, search_active: bool) -> (
    HookModel,
    Option<HookOutcome>,
) {
    if !is_owned_key(event.key) || event.transition == KeyTransition::Released {
        (m, None)
    } else if !search_active || event.modifiers.left_windows || event.modifiers.right_windows {
        (m, None)
    } else {
        let action = if event.key == Key::Backspace {
            Some(InputAction::BackspaceSearch)
        } else {
            match event.text {
                Some(c) => if is_control_char(c) {
                    None
                } else {
                    Some(InputAction::AppendSearchCharacter(c))
                },
                None => None,
            }
        };
        match action {
            Some(action) => (
                suppress_release(
                    HookModel {
                        alt_switch_gesture_active: false,
                        win_switch_gesture_active: false,
                        ..m
                    },
                    event.key,
                ),
                Some(outcome_one(true, action)),
            ),
            None => (m, None),
        }
    }
}

pub open spec fn number_shortcut(
    m: HookModel,
    event: KeyEvent,
    key_was_down: bool,
    alt_down: bool,
) -> (HookModel, Option<HookOutcome>) {
    let action = overlay_action(
        OverlayKeyEvent { key: event.key, repeated: key_was_down, shift: shift_down(m) },
    );
    if event.transition != KeyTransition::Pressed {
        (m, None)
    } else if !(action matches Some(InputAction::ActivateVisiblePosition(_))) {
        (m, None)
    } else if m.alt_switch_gesture_active && alt_down {
        (
            suppress_release(
                HookModel { alt_switch_gesture_active: false, win_switch_gesture_active: false, ..m },
                event.key,
            ),
            Some(outcome_one(true, action->0)),
        )
    } else if m.win_switch_gesture_active {
        (suppress_release(m, event.key), Some(outcome_one(true, action->0)))
    } else {
        (m, None)
    }
}

/// An Alt+Tab start takes over the releases of the pending Alt keys and of the Tab.
pub open spec fn claim_alt_presses(
    m: HookModel,
    key: Key,
    key_was_down: bool,
    pending_alt: Set<Key>,
) -> HookModel {
    let a = if pending_alt.contains(Key::LeftAlt) {
        suppress_release(m, Key::LeftAlt)
    } else {
        m
    };
    let b = if pending_alt.contains(Key::RightAlt) {
        suppress_release(a, Key::RightAlt)
    } else {
        a
    };
    let c = if pending_alt.contains(Key::Alt) {
        suppress_release(b, Key::Alt)
    } else {
        b
    };
    let d = HookModel { pending_alt_keys: Set::empty(), ..c };
    if !key_was_down {
        suppress_release(d, key)
    } else {
        d
    }
}

/// A Win+Tab start takes over the releases of the pending Windows keys and of the Tab.
pub open spec fn claim_windows_presses(m: HookModel, key: Key, pending_windows: Set<Key>) -> HookModel {
    let a = if pending_windows.contains(Key::LeftWindows) {
        suppress_release(m, Key::LeftWindows)
    } else {
        m
    };
    let b = if pending_windows.contains(Key::RightWindows) {
        suppress_release(a, Key::RightWindows)
    } else {
        a
    };
    suppress_release(
        HookModel { pending_windows_keys: b.pending_windows_keys.difference(pending_windows), ..b },
        key,
    )
}

pub open spec fn switch_start(
    m: HookModel,
    key: Key,
    alt_tab: bool,
    windows_tab: bool,
    key_was_down: bool,
    pending_alt: Set<Key>,
    pending_windows: Set<Key>,
) -> (HookModel, Option<HookOutcome>) {
    if !alt_tab && !windows_tab {
        (m, None)
    } else {
        let m1 = HookModel {
            alt_switch_gesture_active: alt_tab,
            win_switch_gesture_active: windows_tab,
            ..m
        };
        let m2 = if alt_tab { claim_alt_presses(m1, key, key_was_down, pending_alt) } else { m1 };
        let m3 = if windows_tab { claim_windows_presses(m2, key, pending_windows) } else { m2 };
        posting(
            m3,
            overlay_action(OverlayKeyEvent { key, repeated: key_was_down, shift: shift_down(m3) }),
        )
    }
}

pub open spec fn alt_gesture_release(m: HookModel, event: KeyEvent) -> (
    HookModel,
    Option<HookOutcome>,
) {
    if event.transition != KeyTransition::Released || !is_alt_key(event.key)
        || !m.alt_switch_gesture_active {
        (m, None)
    } else {
        let (m1, owned) = take_release(m, event.key);
        if any_alt_down(m1) {
            (m1, Some(bare_outcome(owned)))
        } else {
            (
                HookModel { alt_switch_gesture_active: false, ..m1 },
                Some(outcome_one(owned, InputAction::AltReleased)),
            )
        }
    }
}

/// Everything `process_key` does to the hook's state and what it answers.
pub open spec fn process_key_model(m: HookModel, event: KeyEvent, settings: HookSettings) -> (
    HookModel,
    HookOutcome,
) {
    if passes_through(event.key) {
        (m, bare_outcome(false))
    } else {
        let pressed = event.transition == KeyTransition::Pressed;
        let m1 = update_shift(m, event);
        let key_was_down = owned_key_down(m1, event.key);
        let (m2, o2) = alt_transition(update_owned(m1, event), event, settings);
        if o2 is Some {
            (m2, o2->0)
        } else {
            let pending_alt = m2.pending_alt_keys;
            let alt_down = event.modifiers.alt || alt_pending(m2) || is_alt_key(event.key);
            let alt_tab = settings.replace_alt_tab && pressed && event.key == Key::Tab && alt_down;
            let (m3, o3) = pending_alt_shortcut(m2, event, alt_tab);
            if o3 is Some {
                (m3, o3->0)
            } else {
                let (m4, o4) = windows_transition(m3, event, settings);
                if o4 is Some {
                    (m4, o4->0)
                } else {
                    let pending_windows = m4.pending_windows_keys;
                    let windows_tab = settings.replace_win_tab && pressed && event.key == Key::Tab
                        && (windows_pending(m4) || (m4.win_switch_gesture_active && (
                        event.modifiers.left_windows || event.modifiers.right_windows)));
                    let (m5, o5) = pending_windows_shortcut(m4, event, windows_tab);
                    if o5 is Some {
                        (m5, o5->0)
                    } else {
                        let (m6, o6) = escape_key(m5, event);
                        if o6 is Some {
                            (m6, o6->0)
                        } else {
                            let (m7, o7) = switch_start(
                                m6,
                                event.key,
                                alt_tab,
                                windows_tab,
                                key_was_down,
                                pending_alt,
                                pending_windows,
                            );
                            if o7 is Some {
                                (m7, o7->0)
                            } else {
                                process_key_late(m7, event, settings, key_was_down, alt_down)
                            }
                        }
                    }
                }
            }
        }
    }
}

/// The steps of `process_key` after no switch gesture started.
pub open spec fn process_key_late(
    m: HookModel,
    event: KeyEvent,
    settings: HookSettings,
    key_was_down: bool,
    alt_down: bool,
) -> (HookModel, HookOutcome) {
    let (m1, o1) = alt_gesture_release(m, event);
    if o1 is Some {
        (m1, o1->0)
    } else {
        let (m2, taken) = if event.transition == KeyTransition::Released {
            take_release(m1, event.key)
        } else {
            (m1, false)
        };
        if taken {
            (m2, bare_outcome(true))
        } else {
            let (m3, o3) = f4_key(m2, event);
            if o3 is Some {
                (m3, o3->0)
            } else {
                let (m4, o4) = function_key(m3, event);
                if o4 is Some {
                    (m4, o4->0)
                } else {
                    let (m5, o5) = enter_key(m4, event);
                    if o5 is Some {
                        (m5, o5->0)
                    } else {
                        let (m6, o6) = boundary_key(m5, event);
                        if o6 is Some {
                            (m6, o6->0)
                        } else {
                            let (m7, o7) = arrow_key(m6, event);
                            if o7 is Some {
                                (m7, o7->0)
                            } else {
                                let (m8, shift) = shift_suppression(m7, event);
                                if shift {
                                    (m8, bare_outcome(true))
                                } else {
                                    let (m9, o9) = number_shortcut(m8, event, key_was_down, alt_down);
                                    if o9 is Some {
                                        (m9, o9->0)
                                    } else {
                                        let (m10, o10) = search_key(m9, event, settings.search_active);
                                        if o10 is Some {
                                            (m10, o10->0)
                                        } else if event.transition == KeyTransition::Pressed
                                            && m10.win_switch_gesture_active {
                                            (suppress_release(m10, event.key), bare_outcome(true))
                                        } else {
                                            (m10, bare_outcome(false))
                                        }
                                    }
                                }
                            }
                        }
                    }
                }
            }
        }
    }
}

/// Everything `process_mouse` does to the hook's state and what it answers.
pub open spec fn process_mouse_model(m: HookModel, event: MouseEvent, settings: HookSettings) -> (
    HookModel,
    HookOutcome,
) {
    match event {
        MouseEvent::RightButtonPressed => if settings.right_button_wheel_switching {
            (HookModel { right_button: RightButtonState::Pressed, ..m }, bare_outcome(false))
        } else {
            (m, bare_outcome(false))
        },
        MouseEvent::RightButtonReleased => if m.right_button != RightButtonState::Released {
            let released = HookModel { right_button: RightButtonState::Released, ..m };
            if m.right_button == RightButtonState::WheelGesture {
                (released, outcome_one(true, InputAction::RightButtonReleased))
            } else {
                (released, bare_outcome(false))
            }
        } else {
            (m, bare_outcome(false))
        },
        MouseEvent::Wheel(delta) => if m.right_button != RightButtonState::Released
            && settings.right_button_wheel_switching {
            let wheel = InputAction::MouseWheel(signum(delta as int) as i32);
            if m.right_button == RightButtonState::WheelGesture {
                (m, outcome_one(true, wheel))
            } else {
                (
                    HookModel { right_button: RightButtonState::WheelGesture, ..m },
                    outcome_two(true, InputAction::RightButtonPressed, wheel),
                )
            }
        } else {
            (m, bare_outcome(false))
        },
        MouseEvent::Other => (m, bare_outcome(false)),
    }
}

pub open spec fn signum(value: int) -> int {
    if value > 0 {
        1
    } else if value < 0 {
        -1
    } else {
        0
    }
}

// ---------------------------------------------------------------------------------------------
// The hook state itself.

#[derive(Clone, Copy, Debug, Default)]
struct SideKeys {
    left: bool,
    right: bool,
}

#[derive(Clone, Copy, Debug, Default)]
struct AltKeys {
    left: bool,
    right: bool,
    either: bool,
}

spec fn side_set(keys: SideKeys, left: Key, right: Key) -> Set<Key> {
    Set::new(|key: Key| (key == left && keys.left) || (key == right && keys.right))
}

spec fn alt_set(keys: AltKeys) -> Set<Key> {
    Set::new(
        |key: Key|
            (key == Key::LeftAlt && keys.left) || (key == Key::RightAlt && keys.right) || (key
                == Key::Alt && keys.either),
    )
}

/// Whether bit `bit` of `word` is set.
pub open spec fn word_has(word: u64, bit: int) -> bool {
    word & (1u64 << (bit as u64)) != 0
}

/// The virtual-key codes a four-word bitset holds.
pub open spec fn bitset_view(words: [u64; 4]) -> Set<int> {
    Set::new(|code: int| 0 <= code < 256 && word_has(words[code / 64], code % 64))
}

proof fn lemma_bit_set(word: u64, bit: u64, other: u64)
    requires
        bit < 64,
        other < 64,
    ensures
        ((word | (1u64 << bit)) & (1u64 << other) != 0) == (bit == other || (word & (1u64 << other)
            != 0)),
{
    assert(((word | (1u64 << bit)) & (1u64 << other) != 0) == (bit == other || (word & (1u64
        << other) != 0))) by (bit_vector)
        requires
            bit < 64,
            other < 64,
    ;
}

proof fn lemma_bit_clear(word: u64, bit: u64, other: u64)
    requires
        bit < 64,
        other < 64,
    ensures
        ((word & !(1u64 << bit)) & (1u64 << other) != 0) == (bit != other && (word & (1u64
            << other) != 0)),
{
    assert(((word & !(1u64 << bit)) & (1u64 << other) != 0) == (bit != other && (word & (1u64
        << other) != 0))) by (bit_vector)
        requires
            bit < 64,
            other < 64,
    ;
}

proof fn lemma_zero_word(bit: u64)
    requires
        bit < 64,
    ensures
        0u64 & (1u64 << bit) == 0,
{
    assert(0u64 & (1u64 << bit) == 0) by (bit_vector);
}

/// The word and bit of `key` in a bitset of virtual keys, for keys below 256.
fn owned_key_slot(key: Key) -> (slot: Option<(usize, u64)>)
    ensures
        slot is Some <==> is_owned_key(key),
        slot is Some ==> slot.unwrap().0 == vk(key) / 64 && slot.unwrap().1 == (vk(key) % 64) as u64,
{
    let code = virtual_key(key);
    if code >= 256 {
        return None;
    }
    Some(((code / 64) as usize, (code % 64) as u64))
}

fn bitset_insert(words: &mut [u64; 4], index: usize, bit: u64, Ghost(code): Ghost<int>)
    requires
        0 <= code < 256,
        index == code / 64,
        bit == code % 64,
    ensures
        bitset_view(*final(words)) == bitset_view(*old(words)).insert(code),
{
    let word = words[index] | (1u64 << bit);
    words[index] = word;
    proof {
        assert forall|other: int| #![trigger bitset_view(*words).contains(other)]
            bitset_view(*words).contains(other) == bitset_view(*old(words)).insert(code).contains(
                other,
            ) by {
            if 0 <= other < 256 && other / 64 == index {
                lemma_bit_set(old(words)[index as int], bit, (other % 64) as u64);
            }
        }
    }
}

fn bitset_remove(words: &mut [u64; 4], index: usize, bit: u64, Ghost(code): Ghost<int>)
    requires
        0 <= code < 256,
        index == code / 64,
        bit == code % 64,
    ensures
        bitset_view(*final(words)) == bitset_view(*old(words)).remove(code),
{
    let word = words[index] & !(1u64 << bit);
    words[index] = word;
    proof {
        assert forall|other: int| #![trigger bitset_view(*words).contains(other)]
            bitset_view(*words).contains(other) == bitset_view(*old(words)).remove(code).contains(
                other,
            ) by {
            if 0 <= other < 256 && other / 64 == index {
                lemma_bit_clear(old(words)[index as int], bit, (other % 64) as u64);
            }
        }
    }
}

fn bitset_contains(words: &[u64; 4], index: usize, bit: u64, Ghost(code): Ghost<int>) -> (found:
    bool)
    requires
        0 <= code < 256,
        index == code / 64,
        bit == code % 64,
    ensures
        found == bitset_view(*words).contains(code),
{
    words[index] & (1u64 << bit) != 0
}

/// The keyboard and mouse memory of the low-level hooks.
#[derive(Debug)]
pub struct HookState {
    shift_keys: SideKeys,
    pressed_owned_keys: [u64; 4],
    suppressed_shift_keys: SideKeys,
    suppressed_owned_key_releases: [u64; 4],
    pending_alt_keys: AltKeys,
    pending_windows_keys: SideKeys,
    replayed_key_events: [Option<ReplayedKeyEvent>; 3],
    overlay_active: bool,
    alt_switch_gesture_active: bool,
    win_switch_gesture_active: bool,
    right_button: RightButtonState,
}

impl View for HookState {
    type V = HookModel;

    closed spec fn view(&self) -> HookModel {
        HookModel {
            shift_keys: side_set(self.shift_keys, Key::LeftShift, Key::RightShift),
            pressed_owned_keys: bitset_view(self.pressed_owned_keys),
            suppressed_shift_keys: side_set(
                self.suppressed_shift_keys,
                Key::LeftShift,
                Key::RightShift,
            ),
            suppressed_owned_key_releases: bitset_view(self.suppressed_owned_key_releases),
            pending_alt_keys: alt_set(self.pending_alt_keys),
            pending_windows_keys: side_set(
                self.pending_windows_keys,
                Key::LeftWindows,
                Key::RightWindows,
            ),
            replayed_key_events: self.replayed_key_events,
            overlay_active: self.overlay_active,
            alt_switch_gesture_active: self.alt_switch_gesture_active,
            win_switch_gesture_active: self.win_switch_gesture_active,
            right_button: self.right_button,
        }
    }
}

impl Default for HookState {
    fn default() -> (state: Self)
        ensures
            state@ == initial_model(),
    {
        let state = Self {
            shift_keys: SideKeys { left: false, right: false },
            pressed_owned_keys: [0, 0, 0, 0],
            suppressed_shift_keys: SideKeys { left: false, right: false },
            suppressed_owned_key_releases: [0, 0, 0, 0],
            pending_alt_keys: AltKeys { left: false, right: false, either: false },
            pending_windows_keys: SideKeys { left: false, right: false },
            replayed_key_events: [None, None, None],
            overlay_active: false,
            alt_switch_gesture_active: false,
            win_switch_gesture_active: false,
            right_button: RightButtonState::Released,
        };
        proof {
            let zero = state.pressed_owned_keys;
            assert forall|code: int| !#[trigger] bitset_view(zero).contains(code) by {
                if 0 <= code < 256 {
                    lemma_zero_word((code % 64) as u64);
                }
            }
            assert(bitset_view(zero) =~= Set::empty());
            assert(side_set(state.shift_keys, Key::LeftShift, Key::RightShift) =~= Set::empty());
            assert(side_set(state.pending_windows_keys, Key::LeftWindows, Key::RightWindows)
                =~= Set::empty());
            assert(alt_set(state.pending_alt_keys) =~= Set::empty());
        }
        state
    }
}

/// What `reset_gestures` leaves: no overlay, no gesture, the right button up.
pub open spec fn reset_model(m: HookModel) -> HookModel {
    HookModel {
        overlay_active: false,
        alt_switch_gesture_active: false,
        win_switch_gesture_active: false,
        right_button: RightButtonState::Released,
        ..m
    }
}

impl HookState {
    pub fn set_overlay_active(&mut self, active: bool)
        ensures
            final(self)@ == (HookModel { overlay_active: active, ..old(self)@ }),
    {
        self.overlay_active = active;
    }

    pub fn reset_gestures(&mut self)
        ensures
            final(self)@ == reset_model(old(self)@),
    {
        self.overlay_active = false;
        self.alt_switch_gesture_active = false;
        self.win_switch_gesture_active = false;
        self.right_button = RightButtonState::Released;
    }

    pub fn take_replayed_key_events(&mut self) -> (events: [Option<ReplayedKeyEvent>; 3])
        ensures
            events == old(self)@.replayed_key_events,
            final(self)@ == (HookModel { replayed_key_events: empty_replay(), ..old(self)@ }),
    {
        let events = self.replayed_key_events;
        self.replayed_key_events = [None, None, None];
        events
    }

    fn suppress_owned_key_release(&mut self, key: Key)
        ensures
            final(self)@ == suppress_release(old(self)@, key),
    {
        if let Some((index, bit)) = owned_key_slot(key) {
            bitset_insert(&mut self.suppressed_owned_key_releases, index, bit, Ghost(vk(key)));
        }
    }

    fn update_owned_key_state(&mut self, event: KeyEvent)
        ensures
            final(self)@ == update_owned(old(self)@, event),
    {
        if let Some((index, bit)) = owned_key_slot(event.key) {
            if event.transition == KeyTransition::Pressed {
                bitset_insert(&mut self.pressed_owned_keys, index, bit, Ghost(vk(event.key)));
            } else {
                bitset_remove(&mut self.pressed_owned_keys, index, bit, Ghost(vk(event.key)));
            }
        }
    }

    fn owned_key_is_down(&self, key: Key) -> (down: bool)
        ensures
            down == owned_key_down(self@, key),
    {
        match owned_key_slot(key) {
            Some((index, bit)) => bitset_contains(&self.pressed_owned_keys, index, bit, Ghost(vk(key))),
            None => false,
        }
    }

    fn any_alt_key_down(&self) -> (down: bool)
        ensures
            down == any_alt_down(self@),
    {
        self.owned_key_is_down(Key::Alt) || self.owned_key_is_down(Key::LeftAlt)
            || self.owned_key_is_down(Key::RightAlt)
    }

    fn take_suppressed_owned_key_release(&mut self, key: Key) -> (suppressed: bool)
        ensures
            (final(self)@, suppressed) == take_release(old(self)@, key),
    {
        match owned_key_slot(key) {
            Some((index, bit)) => {
                let suppressed = bitset_contains(
                    &self.suppressed_owned_key_releases,
                    index,
                    bit,
                    Ghost(vk(key)),
                );
                bitset_remove(&mut self.suppressed_owned_key_releases, index, bit, Ghost(vk(key)));
                suppressed
            },
            None => false,
        }
    }

    fn owned_key_release_pending(&self, key: Key) -> (pending: bool)
        ensures
            pending == release_pending(self@, key),
    {
        match owned_key_slot(key) {
            Some((index, bit)) => bitset_contains(
                &self.suppressed_owned_key_releases,
                index,
                bit,
                Ghost(vk(key)),
            ),
            None => false,
        }
    }

    fn shift_down(&self) -> (down: bool)
        ensures
            down == shift_down(self@),
    {
        self.shift_keys.left || self.shift_keys.right
    }

    fn switch_gesture_active(&self) -> (active: bool)
        ensures
            active == gesture_active(self@),
    {
        self.alt_switch_gesture_active || self.win_switch_gesture_active
    }

    fn update_shift_state(&mut self, event: KeyEvent)
        ensures
            final(self)@ == update_shift(old(self)@, event),
    {
        let pressed = event.transition == KeyTransition::Pressed;
        match event.key {
            Key::LeftShift => self.shift_keys.left = pressed,
            Key::RightShift => self.shift_keys.right = pressed,
            _ => {},
        }
    }

    fn should_suppress_shift(&mut self, event: KeyEvent) -> (suppress: bool)
        ensures
            (final(self)@, suppress) == shift_suppression(old(self)@, event),
    {
        if !is_shift(event.key) {
            return false;
        }
        let left = event.key == Key::LeftShift;
        if event.transition == KeyTransition::Pressed {
            if self.alt_switch_gesture_active {
                if left {
                    self.suppressed_shift_keys.left = true;
                } else {
                    self.suppressed_shift_keys.right = true;
                }
                return true;
            }
            return false;
        }
        let suppressed = if left {
            self.suppressed_shift_keys.left
        } else {
            self.suppressed_shift_keys.right
        };
        if left {
            self.suppressed_shift_keys.left = false;
        } else {
            self.suppressed_shift_keys.right = false;
        }
        suppressed
    }
}

fn is_shift(key: Key) -> (shift: bool)
    ensures
        shift == is_shift_key(key),
{
    matches!(key, Key::LeftShift | Key::RightShift)
}

fn is_alt(key: Key) -> (alt: bool)
    ensures
        alt == is_alt_key(key),
{
    matches!(key, Key::Alt | Key::LeftAlt | Key::RightAlt)
}

fn is_windows(key: Key) -> (windows: bool)
    ensures
        windows == is_windows_key(key),
{
    matches!(key, Key::LeftWindows | Key::RightWindows)
}

fn is_ctrl_or_print_screen(key: Key) -> (passes: bool)
    ensures
        passes == passes_through(key),
{
    matches!(key, Key::Control | Key::LeftControl | Key::RightControl | Key::PrintScreen)
}

impl HookState {
    fn process_alt_key_transition(&mut self, event: KeyEvent, settings: HookSettings) -> (outcome: Option<HookOutcome>)
        ensures
            (final(self)@, outcome) == alt_transition(old(self)@, event, settings),
    {
        let key = event.key;
        if !is_alt(key) {
            return None;
        }
        let held = match key {
            Key::LeftAlt => self.pending_alt_keys.left,
            Key::RightAlt => self.pending_alt_keys.right,
            _ => self.pending_alt_keys.either,
        };
        if event.transition == KeyTransition::Released {
            if self.alt_switch_gesture_active {
                return None;
            }
            if held {
                self.set_pending_alt(key, false);
                self.replayed_key_events = [
                    Some(ReplayedKeyEvent::pressed(key)),
                    Some(ReplayedKeyEvent::released(key)),
                    None,
                ];
                return Some(HookOutcome::none(true));
            }
            return None;
        }
        if !settings.replace_alt_tab || self.win_switch_gesture_active
            || self.pending_windows_keys.left || self.pending_windows_keys.right {
            return None;
        }
        if self.alt_switch_gesture_active {
            self.suppress_owned_key_release(key);
            return Some(HookOutcome::none(true));
        }
        if !self.owned_key_release_pending(key) {
            self.set_pending_alt(key, true);
        }
        Some(HookOutcome::none(true))
    }

    fn set_pending_alt(&mut self, key: Key, pending: bool)
        requires
            is_alt_key(key),
        ensures
            final(self)@ == (HookModel {
                pending_alt_keys: if pending {
                    old(self)@.pending_alt_keys.insert(key)
                } else {
                    old(self)@.pending_alt_keys.remove(key)
                },
                ..old(self)@
            }),
    {
        match key {
            Key::LeftAlt => self.pending_alt_keys.left = pending,
            Key::RightAlt => self.pending_alt_keys.right = pending,
            _ => self.pending_alt_keys.either = pending,
        }
    }

    fn set_pending_windows(&mut self, key: Key, pending: bool)
        requires
            is_windows_key(key),
        ensures
            final(self)@ == (HookModel {
                pending_windows_keys: if pending {
                    old(self)@.pending_windows_keys.insert(key)
                } else {
                    old(self)@.pending_windows_keys.remove(key)
                },
                ..old(self)@
            }),
    {
        match key {
            Key::LeftWindows => self.pending_windows_keys.left = pending,
            _ => self.pending_windows_keys.right = pending,
        }
    }

    fn process_windows_key_transition(&mut self, event: KeyEvent, settings: HookSettings) -> (outcome: Option<HookOutcome>)
        ensures
            (final(self)@, outcome) == windows_transition(old(self)@, event, settings),
    {
        let key = event.key;
        if !is_windows(key) {
            return None;
        }
        let held = match key {
            Key::LeftWindows => self.pending_windows_keys.left,
            _ => self.pending_windows_keys.right,
        };
        if event.transition == KeyTransition::Released && held {
            self.set_pending_windows(key, false);
            self.replayed_key_events = [
                Some(ReplayedKeyEvent::pressed(key)),
                Some(ReplayedKeyEvent::released(key)),
                None,
            ];
            return Some(HookOutcome::none(true));
        }
        if event.transition != KeyTransition::Pressed || !settings.replace_win_tab
            || self.alt_switch_gesture_active {
            return None;
        }
        if self.win_switch_gesture_active {
            self.suppress_owned_key_release(key);
        } else if !self.owned_key_release_pending(key) {
            self.set_pending_windows(key, true);
        }
        Some(HookOutcome::none(true))
    }

    fn process_pending_alt_shortcut(&mut self, event: KeyEvent, alt_tab: bool) -> (outcome: Option<HookOutcome>)
        ensures
            (final(self)@, outcome) == pending_alt_shortcut(old(self)@, event, alt_tab),
    {
        let pending = self.pending_alt_keys;
        if event.transition != KeyTransition::Pressed || !(pending.left || pending.right
            || pending.either) || alt_tab {
            return None;
        }
        let ghost keys = alt_key_order(self@.pending_alt_keys);
        let mut replayed: [Option<ReplayedKeyEvent>; 3] = [None, None, None];
        let mut next: usize = 0;
        if pending.left {
            replayed[next] = Some(ReplayedKeyEvent::pressed(Key::LeftAlt));
            next = next + 1;
        }
        if pending.right {
            replayed[next] = Some(ReplayedKeyEvent::pressed(Key::RightAlt));
            next = next + 1;
        }
        if pending.either {
            replayed[next] = Some(ReplayedKeyEvent::pressed(Key::Alt));
            next = next + 1;
        }
        let suppress = if next < 3 {
            replayed[next] = Some(ReplayedKeyEvent::pressed(event.key));
            true
        } else {
            false
        };
        proof {
            assert(next == keys.len());
            assert(replayed@ =~= replay_presses(keys, event.key)@);
        }
        self.pending_alt_keys = AltKeys { left: false, right: false, either: false };
        self.replayed_key_events = replayed;
        proof {
            assert(alt_set(self.pending_alt_keys) =~= Set::empty());
        }
        Some(HookOutcome::none(suppress))
    }

    fn process_pending_windows_shortcut(&mut self, event: KeyEvent, windows_tab: bool) -> (outcome: Option<HookOutcome>)
        ensures
            (final(self)@, outcome) == pending_windows_shortcut(old(self)@, event, windows_tab),
    {
        let pending = self.pending_windows_keys;
        if event.transition != KeyTransition::Pressed || !(pending.left || pending.right)
            || windows_tab {
            return None;
        }
        let ghost keys = windows_key_order(self@.pending_windows_keys);
        let mut replayed: [Option<ReplayedKeyEvent>; 3] = [None, None, None];
        let mut next: usize = 0;
        if pending.left {
            replayed[next] = Some(ReplayedKeyEvent::pressed(Key::LeftWindows));
            next = next + 1;
        }
        if pending.right {
            replayed[next] = Some(ReplayedKeyEvent::pressed(Key::RightWindows));
            next = next + 1;
        }
        replayed[next] = Some(ReplayedKeyEvent::pressed(event.key));
        proof {
            assert(next == keys.len());
            assert(replayed@ =~= replay_presses(keys, event.key)@);
        }
        self.pending_windows_keys = SideKeys { left: false, right: false };
        self.replayed_key_events = replayed;
        proof {
            assert(side_set(self.pending_windows_keys, Key::LeftWindows, Key::RightWindows)
                =~= Set::empty());
        }
        Some(HookOutcome::none(true))
    }
}

/// Whether `c` is a control character (general category Cc).
pub fn is_control(c: char) -> (control: bool)
    ensures
        control == is_control_char(c),
{
    let code = c as u32;
    code <= 0x1F || (0x7F <= code && code <= 0x9F)
}

impl HookState {
    fn process_escape(&mut self, event: KeyEvent) -> (outcome: Option<HookOutcome>)
        ensures
            (final(self)@, outcome) == escape_key(old(self)@, event),
    {
        if event.key != Key::Escape {
            return None;
        }
        if event.transition == KeyTransition::Released {
            let taken = self.take_suppressed_owned_key_release(event.key);
            return if taken {
                Some(HookOutcome::none(true))
            } else {
                None
            };
        }
        if self.owned_key_release_pending(event.key) {
            return Some(HookOutcome::none(true));
        }
        if !self.overlay_active {
            return None;
        }
        self.alt_switch_gesture_active = false;
        self.win_switch_gesture_active = false;
        self.suppress_owned_key_release(event.key);
        let action = overlay_key_action(OverlayKeyEvent::pressed(event.key))?;
        Some(HookOutcome::one(true, action))
    }

    fn process_switch_start(
        &mut self,
        key: Key,
        alt_tab: bool,
        windows_tab: bool,
        key_was_down: bool,
        pending_alt_keys: AltKeys,
        pending_windows_keys: SideKeys,
    ) -> (outcome: Option<HookOutcome>)
        ensures
            (final(self)@, outcome) == switch_start(
                old(self)@,
                key,
                alt_tab,
                windows_tab,
                key_was_down,
                alt_set(pending_alt_keys),
                side_set(pending_windows_keys, Key::LeftWindows, Key::RightWindows),
            ),
    {
        if !alt_tab && !windows_tab {
            return None;
        }
        self.alt_switch_gesture_active = alt_tab;
        self.win_switch_gesture_active = windows_tab;
        if alt_tab {
            self.claim_alt_presses(key, key_was_down, pending_alt_keys);
        }
        if windows_tab {
            self.claim_windows_presses(key, pending_windows_keys);
        }
        let action = overlay_key_action(
            OverlayKeyEvent { key, repeated: key_was_down, shift: self.shift_down() },
        )?;
        Some(HookOutcome::one(true, action))
    }

    fn claim_alt_presses(&mut self, key: Key, key_was_down: bool, pending_alt_keys: AltKeys)
        ensures
            final(self)@ == claim_alt_presses(old(self)@, key, key_was_down, alt_set(pending_alt_keys)),
    {
        if pending_alt_keys.left {
            self.suppress_owned_key_release(Key::LeftAlt);
        }
        if pending_alt_keys.right {
            self.suppress_owned_key_release(Key::RightAlt);
        }
        if pending_alt_keys.either {
            self.suppress_owned_key_release(Key::Alt);
        }
        self.pending_alt_keys = AltKeys { left: false, right: false, either: false };
        proof {
            assert(alt_set(self.pending_alt_keys) =~= Set::empty());
        }
        if !key_was_down {
            self.suppress_owned_key_release(key);
        }
    }

    fn claim_windows_presses(&mut self, key: Key, pending_windows_keys: SideKeys)
        ensures
            final(self)@ == claim_windows_presses(
                old(self)@,
                key,
                side_set(pending_windows_keys, Key::LeftWindows, Key::RightWindows),
            ),
    {
        if pending_windows_keys.left {
            self.suppress_owned_key_release(Key::LeftWindows);
        }
        if pending_windows_keys.right {
            self.suppress_owned_key_release(Key::RightWindows);
        }
        let ghost before = self@;
        self.pending_windows_keys = SideKeys {
            left: self.pending_windows_keys.left && !pending_windows_keys.left,
            right: self.pending_windows_keys.right && !pending_windows_keys.right,
        };
        proof {
            assert(side_set(self.pending_windows_keys, Key::LeftWindows, Key::RightWindows)
                =~= before.pending_windows_keys.difference(
                side_set(pending_windows_keys, Key::LeftWindows, Key::RightWindows),
            ));
        }
        self.suppress_owned_key_release(key);
    }

    fn process_alt_gesture_release(&mut self, event: KeyEvent) -> (outcome: Option<HookOutcome>)
        ensures
            (final(self)@, outcome) == alt_gesture_release(old(self)@, event),
    {
        if event.transition != KeyTransition::Released || !is_alt(event.key)
            || !self.alt_switch_gesture_active {
            return None;
        }
        let owned_release = self.take_suppressed_owned_key_release(event.key);
        if self.any_alt_key_down() {
            return Some(HookOutcome::none(owned_release));
        }
        self.alt_switch_gesture_active = false;
        Some(HookOutcome::one(owned_release, InputAction::AltReleased))
    }

    fn process_f4(&mut self, event: KeyEvent) -> (outcome: Option<HookOutcome>)
        ensures
            (final(self)@, outcome) == f4_key(old(self)@, event),
    {
        if event.key != Key::F4 || event.transition != KeyTransition::Pressed {
            return None;
        }
        if self.owned_key_release_pending(event.key) {
            return Some(HookOutcome::none(true));
        }
        if !self.switch_gesture_active() {
            return None;
        }
        self.suppress_owned_key_release(event.key);
        let action = overlay_key_action(OverlayKeyEvent::pressed(event.key))?;
        Some(HookOutcome::one(true, action))
    }

    fn process_function_key(&mut self, event: KeyEvent) -> (outcome: Option<HookOutcome>)
        ensures
            (final(self)@, outcome) == function_key(old(self)@, event),
    {
        let number = match event.key {
            Key::Function(number) => number,
            _ => return None,
        };
        if number < 5 || number > 9 {
            return None;
        }
        if event.transition != KeyTransition::Pressed {
            return None;
        }
        if self.owned_key_release_pending(event.key) {
            return Some(HookOutcome::none(true));
        }
        if !self.switch_gesture_active() {
            return None;
        }
        self.suppress_owned_key_release(event.key);
        let action = overlay_key_action(OverlayKeyEvent::pressed(Key::Function(number)))?;
        Some(HookOutcome::one(true, action))
    }

    fn process_enter(&mut self, event: KeyEvent) -> (outcome: Option<HookOutcome>)
        ensures
            (final(self)@, outcome) == enter_key(old(self)@, event),
    {
        if event.key != Key::Enter || event.transition != KeyTransition::Pressed {
            return None;
        }
        if self.owned_key_release_pending(event.key) {
            return Some(HookOutcome::none(true));
        }
        if !self.switch_gesture_active() {
            return None;
        }
        self.alt_switch_gesture_active = false;
        self.win_switch_gesture_active = false;
        self.suppress_owned_key_release(event.key);
        let action = overlay_key_action(OverlayKeyEvent::pressed(event.key))?;
        Some(HookOutcome::one(true, action))
    }

    fn process_boundary_key(&mut self, event: KeyEvent) -> (outcome: Option<HookOutcome>)
        ensures
            (final(self)@, outcome) == boundary_key(old(self)@, event),
    {
        let action = overlay_key_action(OverlayKeyEvent::pressed(event.key))?;
        if !matches!(action, InputAction::SelectFirst | InputAction::SelectLast) {
            return None;
        }
        if event.transition == KeyTransition::Pressed && self.switch_gesture_active() {
            self.suppress_owned_key_release(event.key);
            return Some(HookOutcome::one(true, action));
        }
        None
    }

    fn process_arrow(&mut self, event: KeyEvent) -> (outcome: Option<HookOutcome>)
        ensures
            (final(self)@, outcome) == arrow_key(old(self)@, event),
    {
        let action = overlay_key_action(
            OverlayKeyEvent { key: event.key, repeated: false, shift: self.shift_down() },
        )?;
        if !matches!(action, InputAction::Navigate(_)) {
            return None;
        }
        if event.transition == KeyTransition::Pressed && self.switch_gesture_active() {
            self.suppress_owned_key_release(event.key);
            return Some(HookOutcome::one(true, action));
        }
        None
    }

    fn process_number_shortcut(&mut self, event: KeyEvent, key_was_down: bool, alt_down: bool) -> (
        outcome: Option<HookOutcome>)
        ensures
            (final(self)@, outcome) == number_shortcut(old(self)@, event, key_was_down, alt_down),
    {
        if event.transition != KeyTransition::Pressed {
            return None;
        }
        let action = overlay_key_action(
            OverlayKeyEvent { key: event.key, repeated: key_was_down, shift: self.shift_down() },
        )?;
        if !matches!(action, InputAction::ActivateVisiblePosition(_)) {
            return None;
        }
        if self.alt_switch_gesture_active && alt_down {
            self.alt_switch_gesture_active = false;
            self.win_switch_gesture_active = false;
            self.suppress_owned_key_release(event.key);
            return Some(HookOutcome::one(true, action));
        }
        if self.win_switch_gesture_active {
            self.suppress_owned_key_release(event.key);
            return Some(HookOutcome::one(true, action));
        }
        None
    }

    fn process_search_key(&mut self, event: KeyEvent, search_active: bool) -> (outcome: Option<
        HookOutcome>)
        ensures
            (final(self)@, outcome) == search_key(old(self)@, event, search_active),
    {
        let _slot = owned_key_slot(event.key)?;
        if event.transition == KeyTransition::Released {
            return None;
        }
        if !search_active || event.modifiers.left_windows || event.modifiers.right_windows {
            return None;
        }
        let action = if event.key == Key::Backspace {
            InputAction::BackspaceSearch
        } else {
            match event.text {
                Some(c) => {
                    if is_control(c) {
                        return None;
                    }
                    InputAction::AppendSearchCharacter(c)
                },
                None => return None,
            }
        };
        self.alt_switch_gesture_active = false;
        self.win_switch_gesture_active = false;
        self.suppress_owned_key_release(event.key);
        Some(HookOutcome::one(true, action))
    }
}

impl HookState {
    /// Feeds one keyboard event to the hook; the outcome says whether it is swallowed and what
    /// the switcher is asked to do.
    pub fn process_key(&mut self, event: KeyEvent, settings: HookSettings) -> (outcome: HookOutcome)
        ensures
            (final(self)@, outcome) == process_key_model(old(self)@, event, settings),
    {
        if is_ctrl_or_print_screen(event.key) {
            return HookOutcome::none(false);
        }
        self.update_shift_state(event);
        let pressed = event.transition == KeyTransition::Pressed;
        let key_was_down = self.owned_key_is_down(event.key);
        self.update_owned_key_state(event);
        if let Some(outcome) = self.process_alt_key_transition(event, settings) {
            return outcome;
        }
        let pending_alt_keys = self.pending_alt_keys;
        let alt_down = event.modifiers.alt || pending_alt_keys.left || pending_alt_keys.right
            || pending_alt_keys.either || is_alt(event.key);
        let alt_tab = settings.replace_alt_tab && pressed && event.key == Key::Tab && alt_down;
        if let Some(outcome) = self.process_pending_alt_shortcut(event, alt_tab) {
            return outcome;
        }
        if let Some(outcome) = self.process_windows_key_transition(event, settings) {
            return outcome;
        }
        // A suppressed Windows-key press never reaches the system's asynchronous key state, so
        // the pending press seen here is authoritative when the following Tab arrives.
        let pending_windows_keys = self.pending_windows_keys;
        let windows_tab = settings.replace_win_tab && pressed && event.key == Key::Tab && (
        pending_windows_keys.left || pending_windows_keys.right || (self.win_switch_gesture_active
            && (event.modifiers.left_windows || event.modifiers.right_windows)));
        if let Some(outcome) = self.process_pending_windows_shortcut(event, windows_tab) {
            return outcome;
        }
        if let Some(outcome) = self.process_escape(event) {
            return outcome;
        }
        if let Some(outcome) = self.process_switch_start(
            event.key,
            alt_tab,
            windows_tab,
            key_was_down,
            pending_alt_keys,
            pending_windows_keys,
        ) {
            return outcome;
        }
        self.process_key_after_switch(event, settings, key_was_down, alt_down)
    }

    fn process_key_after_switch(
        &mut self,
        event: KeyEvent,
        settings: HookSettings,
        key_was_down: bool,
        alt_down: bool,
    ) -> (outcome: HookOutcome)
        ensures
            (final(self)@, outcome) == process_key_late(
                old(self)@,
                event,
                settings,
                key_was_down,
                alt_down,
            ),
    {
        if let Some(outcome) = self.process_alt_gesture_release(event) {
            return outcome;
        }
        if event.transition == KeyTransition::Released && self.take_suppressed_owned_key_release(
            event.key,
        ) {
            return HookOutcome::none(true);
        }
        if let Some(outcome) = self.process_f4(event) {
            return outcome;
        }
        if let Some(outcome) = self.process_function_key(event) {
            return outcome;
        }
        if let Some(outcome) = self.process_enter(event) {
            return outcome;
        }
        if let Some(outcome) = self.process_boundary_key(event) {
            return outcome;
        }
        if let Some(outcome) = self.process_arrow(event) {
            return outcome;
        }
        if self.should_suppress_shift(event) {
            return HookOutcome::none(true);
        }
        if let Some(outcome) = self.process_number_shortcut(event, key_was_down, alt_down) {
            return outcome;
        }
        if let Some(outcome) = self.process_search_key(event, settings.search_active) {
            return outcome;
        }
        if event.transition == KeyTransition::Pressed && self.win_switch_gesture_active {
            self.suppress_owned_key_release(event.key);
            return HookOutcome::none(true);
        }
        HookOutcome::none(false)
    }

    /// Feeds one mouse event to the hook.
    pub fn process_mouse(&mut self, event: MouseEvent, settings: HookSettings) -> (outcome: HookOutcome)
        ensures
            (final(self)@, outcome) == process_mouse_model(old(self)@, event, settings),
    {
        match event {
            MouseEvent::RightButtonPressed => {
                if settings.right_button_wheel_switching {
                    self.right_button = RightButtonState::Pressed;
                }
                HookOutcome::none(false)
            },
            MouseEvent::RightButtonReleased => {
                if self.right_button == RightButtonState::Released {
                    return HookOutcome::none(false);
                }
                let suppress = self.right_button == RightButtonState::WheelGesture;
                self.right_button = RightButtonState::Released;
                if suppress {
                    HookOutcome::one(true, InputAction::RightButtonReleased)
                } else {
                    HookOutcome::none(false)
                }
            },
            MouseEvent::Wheel(delta) => {
                if self.right_button == RightButtonState::Released
                    || !settings.right_button_wheel_switching {
                    return HookOutcome::none(false);
                }
                let direction: i32 = if delta > 0 {
                    1
                } else if delta < 0 {
                    -1
                } else {
                    0
                };
                let wheel = InputAction::MouseWheel(direction);
                if self.right_button == RightButtonState::WheelGesture {
                    HookOutcome::one(true, wheel)
                } else {
                    self.right_button = RightButtonState::WheelGesture;
                    HookOutcome::two(true, InputAction::RightButtonPressed, wheel)
                }
            },
            MouseEvent::Other => HookOutcome::none(false),
        }
    }
}


/// A hook that owns nothing: no suppressed release or Shift, no pending Alt or Windows key, no
/// replay waiting, no switcher window and no switch gesture.
pub open spec fn quiet(m: HookModel) -> bool {
    &&& forall|k: Key| !#[trigger] m.suppressed_shift_keys.contains(k)
    &&& forall|v: int| !#[trigger] m.suppressed_owned_key_releases.contains(v)
    &&& forall|k: Key| !#[trigger] m.pending_alt_keys.contains(k)
    &&& forall|k: Key| !#[trigger] m.pending_windows_keys.contains(k)
    &&& m.replayed_key_events == empty_replay()
    &&& !m.overlay_active
    &&& !m.alt_switch_gesture_active
    &&& !m.win_switch_gesture_active
}

/// Settings under which the hook takes over nothing from the keyboard: neither Tab replacement
/// and no typed search.
pub open spec fn switching_off(settings: HookSettings) -> bool {
    !settings.replace_alt_tab && !settings.replace_win_tab && !settings.search_active
}

/// With Alt Tab and Win Tab replacement and typed search off, a quiet hook passes every key
/// through untouched, replays nothing and stays quiet; mouse events and a reset keep it quiet,
/// and a hook that has seen no input is quiet. So a hook fed only under such settings, its
/// switcher window never shown, never intercepts a key.
pub proof fn law_switching_off_intercepts_no_key(
    m: HookModel,
    event: KeyEvent,
    settings: HookSettings,
    mouse: MouseEvent,
    mouse_settings: HookSettings,
)
    requires
        quiet(m),
        switching_off(settings),
    ensures
        process_key_model(m, event, settings).1 == bare_outcome(false),
        quiet(process_key_model(m, event, settings).0),
        quiet(process_mouse_model(m, mouse, mouse_settings).0),
        quiet(reset_model(m)),
        quiet(initial_model()),
{
    if !passes_through(event.key) {
        let m1 = update_shift(m, event);
        let m2 = update_owned(m1, event);
        assert(alt_transition(m2, event, settings) == (m2, None::<HookOutcome>));
        assert(windows_transition(m2, event, settings) == (m2, None::<HookOutcome>));
        assert(pending_alt_shortcut(m2, event, false) == (m2, None::<HookOutcome>));
        assert(pending_windows_shortcut(m2, event, false) == (m2, None::<HookOutcome>));
        assert(!release_pending(m2, event.key));
        let (m6, o6) = escape_key(m2, event);
        assert(o6 is None);
        assert(quiet(m6));
        assert(!release_pending(m6, event.key));
        let (m8, shift) = shift_suppression(m6, event);
        assert(!shift);
        assert(quiet(m8));
    }
}

/// Alt+Tab switches: with Alt Tab replacement on and no Windows-key gesture under way or
/// pending, a Tab pressed with Alt down is swallowed and moves the selection one step, backward
/// while Shift is down, and an Alt Tab gesture is under way after it.
pub proof fn law_alt_tab_switches(m: HookModel, event: KeyEvent, settings: HookSettings)
    requires
        settings.replace_alt_tab,
        event.key == Key::Tab,
        event.transition == KeyTransition::Pressed,
        event.modifiers.alt,
        !windows_pending(m),
        !m.win_switch_gesture_active,
    ensures
        process_key_model(m, event, settings).1 == outcome_one(
            true,
            InputAction::Switch(if shift_down(m) { -1i32 } else { 1i32 }),
        ),
        process_key_model(m, event, settings).0.alt_switch_gesture_active,
        !process_key_model(m, event, settings).0.win_switch_gesture_active,
{
}

/// Win+Tab switches: with Win Tab replacement on, no Alt held or pending, and a Windows key
/// pressed and still pending, a Tab press is swallowed and moves the selection one step, and a
/// Win Tab gesture is under way after it.
pub proof fn law_win_tab_switches(m: HookModel, event: KeyEvent, settings: HookSettings)
    requires
        settings.replace_win_tab,
        event.key == Key::Tab,
        event.transition == KeyTransition::Pressed,
        !event.modifiers.alt,
        !alt_pending(m),
        windows_pending(m),
        !m.alt_switch_gesture_active,
    ensures
        process_key_model(m, event, settings).1 == outcome_one(
            true,
            InputAction::Switch(if shift_down(m) { -1i32 } else { 1i32 }),
        ),
        process_key_model(m, event, settings).0.win_switch_gesture_active,
        !process_key_model(m, event, settings).0.alt_switch_gesture_active,
{
}

/// Escape dismisses: while the switcher window shows and no Alt or Windows key waits to be
/// replayed, an Escape press is swallowed, dismisses the switcher, ends any switch gesture and
/// owns its release.
pub proof fn law_escape_dismisses_the_switcher(m: HookModel, event: KeyEvent, settings: HookSettings)
    requires
        m.overlay_active,
        event.key == Key::Escape,
        event.transition == KeyTransition::Pressed,
        !alt_pending(m),
        !windows_pending(m),
        !release_pending(m, Key::Escape),
    ensures
        process_key_model(m, event, settings).1 == outcome_one(true, InputAction::DismissOverlay),
        !process_key_model(m, event, settings).0.alt_switch_gesture_active,
        !process_key_model(m, event, settings).0.win_switch_gesture_active,
        release_pending(process_key_model(m, event, settings).0, Key::Escape),
{
}

/// Control and Print Screen always reach Windows untouched, and the hook's state does not
/// change for them.
pub proof fn law_control_and_print_screen_pass_through(
    m: HookModel,
    event: KeyEvent,
    settings: HookSettings,
)
    requires
        passes_through(event.key),
    ensures
        process_key_model(m, event, settings) == (m, bare_outcome(false)),
{
}

/// A key whose press the switcher swallowed has its release swallowed too: Windows never sees
/// half of a key's press and release.
pub proof fn law_owned_release_is_suppressed(m: HookModel, event: KeyEvent, settings: HookSettings)
    requires
        event.transition == KeyTransition::Released,
        release_pending(m, event.key),
        !passes_through(event.key),
    ensures
        process_key_model(m, event, settings).1.suppress,
{
}

/// Resetting the gestures ends the overlay, both switch gestures and a right-button gesture, and
/// keeps every key release the switcher still owns.
pub proof fn law_reset_keeps_owned_releases(m: HookModel, key: Key)
    ensures
        release_pending(reset_model(m), key) == release_pending(m, key),
        !gesture_active(reset_model(m)),
        !reset_model(m).overlay_active,
        reset_model(m).right_button == RightButtonState::Released,
{
}

/// A right-button press always reaches Windows; its release is swallowed, and reported to the
/// switcher, exactly when the wheel turned while the button was held.
pub proof fn law_right_button_release_follows_the_wheel(m: HookModel, settings: HookSettings)
    ensures
        !process_mouse_model(m, MouseEvent::RightButtonPressed, settings).1.suppress,
        process_mouse_model(m, MouseEvent::RightButtonReleased, settings).1.suppress == (
        m.right_button == RightButtonState::WheelGesture),
        m.right_button == RightButtonState::WheelGesture ==> outcome_actions(
            process_mouse_model(m, MouseEvent::RightButtonReleased, settings).1,
        ) == seq![InputAction::RightButtonReleased],
        process_mouse_model(m, MouseEvent::RightButtonReleased, settings).0.right_button
            == RightButtonState::Released,
{
}


/// A repeated key message only moves or switches the selection: it never activates, dismisses,
/// closes, jumps to a position or runs a command a second time.
pub proof fn law_repeats_only_move_the_selection(key: Key, shift: bool)
    ensures
        match overlay_action(OverlayKeyEvent { key, repeated: true, shift }) {
            None => true,
            Some(action) => action is Switch || action is Navigate || action is SelectFirst
                || action is SelectLast,
        },
{
}

/// Every command that a function key runs is run by exactly that key, and F4 to F9 each run a
/// command; `Hide` and `Quit` have no function key.
pub proof fn law_function_keys_name_their_commands(command: WindowCommand, number: u8)
    ensures
        function_key_of(command) != 0 ==> command_for_function_key(function_key_of(command))
            == Some(command),
        command_for_function_key(number) matches Some(c) ==> function_key_of(c) == number,
        4 <= number <= 9 <==> command_for_function_key(number) is Some,
        function_key_of(command) == 0 <==> (command == WindowCommand::Hide || command
            == WindowCommand::Quit),
{
}


proof fn lemma_key_steps_keep_right_button(
    m: HookModel,
    event: KeyEvent,
    settings: HookSettings,
    flag: bool,
    other: bool,
    third: bool,
    pending_alt: Set<Key>,
    pending_windows: Set<Key>,
)
    ensures
        update_shift(m, event).right_button == m.right_button,
        update_owned(m, event).right_button == m.right_button,
        suppress_release(m, event.key).right_button == m.right_button,
        take_release(m, event.key).0.right_button == m.right_button,
        alt_transition(m, event, settings).0.right_button == m.right_button,
        windows_transition(m, event, settings).0.right_button == m.right_button,
        pending_alt_shortcut(m, event, flag).0.right_button == m.right_button,
        pending_windows_shortcut(m, event, flag).0.right_button == m.right_button,
        shift_suppression(m, event).0.right_button == m.right_button,
        arrow_key(m, event).0.right_button == m.right_button,
        enter_key(m, event).0.right_button == m.right_button,
        f4_key(m, event).0.right_button == m.right_button,
        function_key(m, event).0.right_button == m.right_button,
        escape_key(m, event).0.right_button == m.right_button,
        boundary_key(m, event).0.right_button == m.right_button,
        search_key(m, event, flag).0.right_button == m.right_button,
        number_shortcut(m, event, flag, other).0.right_button == m.right_button,
        switch_start(m, event.key, flag, other, third, pending_alt, pending_windows).0.right_button
            == m.right_button,
        alt_gesture_release(m, event).0.right_button == m.right_button,
{
}

proof fn lemma_keys_leave_the_right_button(m: HookModel, event: KeyEvent, settings: HookSettings)
    ensures
        process_key_model(m, event, settings).0.right_button == m.right_button,
{
    if !passes_through(event.key) {
        let pressed = event.transition == KeyTransition::Pressed;
        let e = Set::<Key>::empty();
        lemma_key_steps_keep_right_button(m, event, settings, false, false, false, e, e);
        let m1 = update_shift(m, event);
        lemma_key_steps_keep_right_button(m1, event, settings, false, false, false, e, e);
        let key_was_down = owned_key_down(m1, event.key);
        let u = update_owned(m1, event);
        lemma_key_steps_keep_right_button(u, event, settings, false, false, false, e, e);
        let (m2, o2) = alt_transition(u, event, settings);
        let pending_alt = m2.pending_alt_keys;
        let alt_down = event.modifiers.alt || alt_pending(m2) || is_alt_key(event.key);
        let alt_tab = settings.replace_alt_tab && pressed && event.key == Key::Tab && alt_down;
        lemma_key_steps_keep_right_button(m2, event, settings, alt_tab, false, false, e, e);
        let (m3, o3) = pending_alt_shortcut(m2, event, alt_tab);
        lemma_key_steps_keep_right_button(m3, event, settings, false, false, false, e, e);
        let (m4, o4) = windows_transition(m3, event, settings);
        let pending_windows = m4.pending_windows_keys;
        let windows_tab = settings.replace_win_tab && pressed && event.key == Key::Tab && (
        windows_pending(m4) || (m4.win_switch_gesture_active && (event.modifiers.left_windows
            || event.modifiers.right_windows)));
        lemma_key_steps_keep_right_button(m4, event, settings, windows_tab, false, false, e, e);
        let (m5, o5) = pending_windows_shortcut(m4, event, windows_tab);
        lemma_key_steps_keep_right_button(m5, event, settings, false, false, false, e, e);
        let (m6, o6) = escape_key(m5, event);
        lemma_key_steps_keep_right_button(
            m6,
            event,
            settings,
            alt_tab,
            windows_tab,
            key_was_down,
            pending_alt,
            pending_windows,
        );
        let (m7, o7) = switch_start(
            m6,
            event.key,
            alt_tab,
            windows_tab,
            key_was_down,
            pending_alt,
            pending_windows,
        );
        lemma_late_keeps_right_button(m7, event, settings, key_was_down, alt_down);
    }
}

proof fn lemma_late_keeps_right_button(
    m: HookModel,
    event: KeyEvent,
    settings: HookSettings,
    key_was_down: bool,
    alt_down: bool,
)
    ensures
        process_key_late(m, event, settings, key_was_down, alt_down).0.right_button == m.right_button,
{
    let e = Set::<Key>::empty();
    lemma_key_steps_keep_right_button(m, event, settings, false, false, false, e, e);
    let (m1, o1) = alt_gesture_release(m, event);
    lemma_key_steps_keep_right_button(m1, event, settings, false, false, false, e, e);
    let (m2, taken) = if event.transition == KeyTransition::Released {
        take_release(m1, event.key)
    } else {
        (m1, false)
    };
    lemma_key_steps_keep_right_button(m2, event, settings, false, false, false, e, e);
    let (m3, o3) = f4_key(m2, event);
    lemma_key_steps_keep_right_button(m3, event, settings, false, false, false, e, e);
    let (m4, o4) = function_key(m3, event);
    lemma_key_steps_keep_right_button(m4, event, settings, false, false, false, e, e);
    let (m5, o5) = enter_key(m4, event);
    lemma_key_steps_keep_right_button(m5, event, settings, false, false, false, e, e);
    let (m6, o6) = boundary_key(m5, event);
    lemma_key_steps_keep_right_button(m6, event, settings, false, false, false, e, e);
    let (m7, o7) = arrow_key(m6, event);
    lemma_key_steps_keep_right_button(m7, event, settings, false, false, false, e, e);
    let (m8, shift) = shift_suppression(m7, event);
    lemma_key_steps_keep_right_button(m8, event, settings, key_was_down, alt_down, false, e, e);
    let (m9, o9) = number_shortcut(m8, event, key_was_down, alt_down);
    lemma_key_steps_keep_right_button(m9, event, settings, settings.search_active, false, false, e, e);
    let (m10, o10) = search_key(m9, event, settings.search_active);
    lemma_key_steps_keep_right_button(m10, event, settings, false, false, false, e, e);
}

/// One input the hook reads, with the settings in force when it came.
pub enum HookInput {
    Key(KeyEvent, HookSettings),
    Mouse(MouseEvent, HookSettings),
}

/// The hook's state after it read `inputs`, from `m`.
pub open spec fn after_inputs(m: HookModel, inputs: Seq<HookInput>) -> HookModel
    decreases inputs.len(),
{
    if inputs.len() == 0 {
        m
    } else {
        let before = after_inputs(m, inputs.drop_last());
        match inputs.last() {
            HookInput::Key(event, settings) => process_key_model(before, event, settings).0,
            HookInput::Mouse(event, settings) => process_mouse_model(before, event, settings).0,
        }
    }
}

/// Whether the right button is held for a wheel gesture after `inputs`: it was last pressed
/// while wheel switching was on, and has not been released since.
pub open spec fn right_button_held(inputs: Seq<HookInput>) -> bool
    decreases inputs.len(),
{
    if inputs.len() == 0 {
        false
    } else {
        match inputs.last() {
            HookInput::Mouse(MouseEvent::RightButtonPressed, settings) => settings.right_button_wheel_switching
                || right_button_held(inputs.drop_last()),
            HookInput::Mouse(MouseEvent::RightButtonReleased, _) => false,
            _ => right_button_held(inputs.drop_last()),
        }
    }
}

/// Whether the wheel turned, with wheel switching on, while the right button was held since
/// that press.
pub open spec fn wheel_turned(inputs: Seq<HookInput>) -> bool
    decreases inputs.len(),
{
    if inputs.len() == 0 {
        false
    } else {
        let earlier = inputs.drop_last();
        match inputs.last() {
            HookInput::Mouse(MouseEvent::RightButtonPressed, settings) => if settings.right_button_wheel_switching {
                false
            } else {
                wheel_turned(earlier)
            },
            HookInput::Mouse(MouseEvent::RightButtonReleased, _) => false,
            HookInput::Mouse(MouseEvent::Wheel(_), settings) => wheel_turned(earlier) || (
            settings.right_button_wheel_switching && right_button_held(earlier)),
            _ => wheel_turned(earlier),
        }
    }
}

/// What the wheel gesture answers a mouse `event` after `inputs`: a turn of the wheel while the
/// right button is held with wheel switching on opens the gesture with the press and the turn,
/// or, once it is open, gives the turn alone, both swallowed; releasing the button after a turn
/// is swallowed and closes the gesture; everything else passes untouched.
pub open spec fn wheel_gesture_answer(
    inputs: Seq<HookInput>,
    event: MouseEvent,
    settings: HookSettings,
) -> HookOutcome {
    match event {
        MouseEvent::Wheel(delta) => if settings.right_button_wheel_switching && right_button_held(
            inputs,
        ) {
            let wheel = InputAction::MouseWheel(signum(delta as int) as i32);
            if wheel_turned(inputs) {
                outcome_one(true, wheel)
            } else {
                outcome_two(true, InputAction::RightButtonPressed, wheel)
            }
        } else {
            bare_outcome(false)
        },
        MouseEvent::RightButtonReleased => if wheel_turned(inputs) {
            outcome_one(true, InputAction::RightButtonReleased)
        } else {
            bare_outcome(false)
        },
        _ => bare_outcome(false),
    }
}

proof fn lemma_right_button_follows_inputs(m: HookModel, inputs: Seq<HookInput>)
    requires
        m.right_button == RightButtonState::Released,
    ensures
        wheel_turned(inputs) ==> right_button_held(inputs),
        after_inputs(m, inputs).right_button == if !right_button_held(inputs) {
            RightButtonState::Released
        } else if wheel_turned(inputs) {
            RightButtonState::WheelGesture
        } else {
            RightButtonState::Pressed
        },
    decreases inputs.len(),
{
    if inputs.len() > 0 {
        let earlier = inputs.drop_last();
        lemma_right_button_follows_inputs(m, earlier);
        match inputs.last() {
            HookInput::Key(event, settings) => {
                lemma_keys_leave_the_right_button(after_inputs(m, earlier), event, settings);
            },
            HookInput::Mouse(_, _) => {},
        }
    }
}

/// The wheel gesture over any run of keyboard and mouse input from a hook whose right button is
/// up: what the hook answers a mouse event depends only on whether the right button is held
/// since its last press with wheel switching on, and whether the wheel turned since.
pub proof fn law_wheel_gesture_over_runs(
    m: HookModel,
    inputs: Seq<HookInput>,
    event: MouseEvent,
    settings: HookSettings,
)
    requires
        m.right_button == RightButtonState::Released,
    ensures
        process_mouse_model(after_inputs(m, inputs), event, settings).1 == wheel_gesture_answer(
            inputs,
            event,
            settings,
        ),
{
    lemma_right_button_follows_inputs(m, inputs);
}

/// The keys carry the Windows virtual-key codes: Backspace 0x08, Tab 0x09, Enter 0x0D, Control
/// 0x11, Alt 0x12, Escape 0x1B, End 0x23, Home 0x24, the arrows Left, Up, Right, Down 0x25 to
/// 0x28, Print Screen 0x2C, the digits from 0x30, the left and right Windows keys 0x5B and 0x5C,
/// the keypad digits from 0x60, the function keys F1 on from 0x70 with F4 at 0x73, and the left
/// and right Shift, Control and Alt keys 0xA0 to 0xA5.
pub proof fn law_virtual_key_codes(number: u8, digit: u8)
    requires
        number <= 24,
        digit <= 9,
    ensures
        spec_virtual_key(Key::Backspace) == 0x08,
        spec_virtual_key(Key::Tab) == 0x09,
        spec_virtual_key(Key::Enter) == 0x0D,
        spec_virtual_key(Key::Control) == 0x11,
        spec_virtual_key(Key::Alt) == 0x12,
        spec_virtual_key(Key::Escape) == 0x1B,
        spec_virtual_key(Key::End) == 0x23,
        spec_virtual_key(Key::Home) == 0x24,
        spec_virtual_key(Key::LeftArrow) == 0x25,
        spec_virtual_key(Key::UpArrow) == 0x26,
        spec_virtual_key(Key::RightArrow) == 0x27,
        spec_virtual_key(Key::DownArrow) == 0x28,
        spec_virtual_key(Key::PrintScreen) == 0x2C,
        spec_virtual_key(Key::Digit(digit)) == 0x30 + digit,
        spec_virtual_key(Key::LeftWindows) == 0x5B,
        spec_virtual_key(Key::RightWindows) == 0x5C,
        spec_virtual_key(Key::NumpadDigit(digit)) == 0x60 + digit,
        spec_virtual_key(Key::Function(number)) == 0x6F + number,
        spec_virtual_key(Key::F4) == 0x73,
        spec_virtual_key(Key::LeftShift) == 0xA0,
        spec_virtual_key(Key::RightShift) == 0xA1,
        spec_virtual_key(Key::LeftControl) == 0xA2,
        spec_virtual_key(Key::RightControl) == 0xA3,
        spec_virtual_key(Key::LeftAlt) == 0xA4,
        spec_virtual_key(Key::RightAlt) == 0xA5,
{
}

/// The function keys run the window commands in order: F4 closes, F5 minimizes, F6 maximizes,
/// F7 restores, F8 forces the app to quit and F9 runs a new instance; no other runs one.
pub proof fn law_function_key_commands(number: u8)
    ensures
        command_for_function_key(4) == Some(WindowCommand::Close),
        command_for_function_key(5) == Some(WindowCommand::Minimize),
        command_for_function_key(6) == Some(WindowCommand::Maximize),
        command_for_function_key(7) == Some(WindowCommand::Restore),
        command_for_function_key(8) == Some(WindowCommand::Terminate),
        command_for_function_key(9) == Some(WindowCommand::Run),
        number < 4 || number > 9 ==> command_for_function_key(number) is None,
{
}

/// What each key asks of the switcher window while it has focus: Tab steps to the next window,
/// or the previous one with Shift; Left and Up move the selection back and Right and Down on;
/// Home and End select the first and the last; Enter switches to the selection, Escape dismisses
/// the switcher and F4 closes the selected window, none of them when the key repeats; a function
/// key runs its window command; a digit 1 to 9, on the number row or the keypad, switches to the
/// window at that position; any other key asks for nothing.
pub proof fn law_overlay_keys(event: OverlayKeyEvent)
    ensures
        event.key == Key::Tab ==> overlay_action(event) == Some(InputAction::Switch(
            if event.shift {
                -1i32
            } else {
                1i32
            },
        )),
        event.key == Key::LeftArrow || event.key == Key::UpArrow ==> overlay_action(event) == Some(
            InputAction::Navigate(-1i32),
        ),
        event.key == Key::RightArrow || event.key == Key::DownArrow ==> overlay_action(event)
            == Some(InputAction::Navigate(1i32)),
        event.key == Key::Home ==> overlay_action(event) == Some(InputAction::SelectFirst),
        event.key == Key::End ==> overlay_action(event) == Some(InputAction::SelectLast),
        event.key == Key::Enter ==> overlay_action(event) == if event.repeated {
            None
        } else {
            Some(InputAction::ActivateSelected)
        },
        event.key == Key::Escape ==> overlay_action(event) == if event.repeated {
            None
        } else {
            Some(InputAction::DismissOverlay)
        },
        event.key == Key::F4 ==> overlay_action(event) == if event.repeated {
            None
        } else {
            Some(InputAction::CloseSelected)
        },
        forall|number: u8|
            event.key == Key::Function(number) ==> overlay_action(event) == if event.repeated {
                None
            } else {
                match command_for_function_key(number) {
                    Some(command) => Some(InputAction::WindowCommand(command)),
                    None => None,
                }
            },
        forall|position: u8|
            (event.key == Key::Digit(position) || event.key == Key::NumpadDigit(position))
                ==> overlay_action(event) == if !event.repeated && 1 <= position <= 9 {
                Some(InputAction::ActivateVisiblePosition(position as usize))
            } else {
                None
            },
        (event.key is Alt || event.key is LeftAlt || event.key is RightAlt || event.key is LeftWindows
            || event.key is RightWindows || event.key is Control || event.key is LeftControl
            || event.key is RightControl || event.key is LeftShift || event.key is RightShift
            || event.key is PrintScreen || event.key is Backspace || event.key is Other)
            ==> overlay_action(event) is None,
{
}

} // verus!
