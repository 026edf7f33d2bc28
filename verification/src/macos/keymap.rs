//! The macOS keys the switcher reacts to.
//!
//! Tab, Return, Escape, the arrows, the backtick, and the digits are matched by key position.
//! The command letters are matched by the letter the keyboard layout types, as macOS matches
//! menu shortcuts, so ⌘ Q quits on the key labeled Q on AZERTY and Dvorak too.

use crate::input::WindowCommand;
use crate::text::{ascii_folded, fold_ascii};
use vstd::prelude::*;

verus! {

#[derive(Clone, Copy, Debug, PartialEq, Eq, Structural)]
pub enum MacKey {
    Tab,
    Return,
    Escape,
    Left,
    Right,
    Up,
    Down,
    /// The key left of 1, which steps backwards in the system app switcher.
    Backtick,
    /// 1 to 9 on the number row or the keypad.
    Digit(u8),
    /// A letter that runs a command while the switch modifier is down, as in the system switcher.
    Command(WindowCommand),
    Other,
}

/// The command of a lower-case letter, given by its code.
pub open spec fn command_of_letter(letter: u32) -> Option<WindowCommand> {
    if letter == 'w' as u32 {
        Some(WindowCommand::Close)
    } else if letter == 'm' as u32 {
        Some(WindowCommand::Minimize)
    } else if letter == 'h' as u32 {
        Some(WindowCommand::Hide)
    } else if letter == 'q' as u32 {
        Some(WindowCommand::Quit)
    } else {
        None
    }
}

/// The key at virtual key `code` on a US keyboard.
pub open spec fn key_at(code: u16) -> MacKey {
    if code == 48 {
        MacKey::Tab
    } else if code == 36 || code == 76 {
        MacKey::Return
    } else if code == 53 {
        MacKey::Escape
    } else if code == 123 {
        MacKey::Left
    } else if code == 124 {
        MacKey::Right
    } else if code == 126 {
        MacKey::Up
    } else if code == 125 {
        MacKey::Down
    } else if code == 50 {
        MacKey::Backtick
    } else if code == 18 || code == 83 {
        MacKey::Digit(1)
    } else if code == 19 || code == 84 {
        MacKey::Digit(2)
    } else if code == 20 || code == 85 {
        MacKey::Digit(3)
    } else if code == 21 || code == 86 {
        MacKey::Digit(4)
    } else if code == 23 || code == 87 {
        MacKey::Digit(5)
    } else if code == 22 || code == 88 {
        MacKey::Digit(6)
    } else if code == 26 || code == 89 {
        MacKey::Digit(7)
    } else if code == 28 || code == 91 {
        MacKey::Digit(8)
    } else if code == 25 || code == 92 {
        MacKey::Digit(9)
    } else if code == 13 {
        MacKey::Command(WindowCommand::Close)
    } else if code == 46 {
        MacKey::Command(WindowCommand::Minimize)
    } else if code == 4 {
        MacKey::Command(WindowCommand::Hide)
    } else if code == 12 {
        MacKey::Command(WindowCommand::Quit)
    } else {
        MacKey::Other
    }
}

/// The key for virtual key `code` that types `typed`: a Latin letter decides by itself, other
/// keys go by position.
pub open spec fn mac_key(code: u16, typed: Option<char>) -> MacKey {
    match typed {
        Some(c) => {
            let letter = ascii_folded(c);
            if 'a' as u32 <= letter && letter <= 'z' as u32 {
                match command_of_letter(letter) {
                    Some(command) => MacKey::Command(command),
                    None => MacKey::Other,
                }
            } else {
                key_at(code)
            }
        },
        None => key_at(code),
    }
}

/// The key for virtual key `code`, which types `typed` under the current layout with every
/// modifier but Shift ignored.
///
/// A layout that types no Latin letter on the key, such as Russian or Greek, falls back to the
/// letter at that position on a US keyboard, as macOS does for shortcuts under those layouts.
pub fn key_for(code: u16, typed: Option<char>) -> (key: MacKey)
    ensures
        key == mac_key(code, typed),
{
    match typed {
        Some(c) => {
            let letter = fold_ascii(c);
            if 'a' as u32 <= letter && letter <= 'z' as u32 {
                match command_for_letter(letter) {
                    Some(command) => MacKey::Command(command),
                    None => MacKey::Other,
                }
            } else {
                key_for_code(code)
            }
        },
        None => key_for_code(code),
    }
}

fn command_for_letter(letter: u32) -> (command: Option<WindowCommand>)
    ensures
        command == command_of_letter(letter),
{
    if letter == 'w' as u32 {
        Some(WindowCommand::Close)
    } else if letter == 'm' as u32 {
        Some(WindowCommand::Minimize)
    } else if letter == 'h' as u32 {
        Some(WindowCommand::Hide)
    } else if letter == 'q' as u32 {
        Some(WindowCommand::Quit)
    } else {
        None
    }
}

fn key_for_code(code: u16) -> (key: MacKey)
    ensures
        key == key_at(code),
{
    match code {
        48 => MacKey::Tab,
        36 | 76 => MacKey::Return,
        53 => MacKey::Escape,
        123 => MacKey::Left,
        124 => MacKey::Right,
        126 => MacKey::Up,
        125 => MacKey::Down,
        50 => MacKey::Backtick,
        18 | 83 => MacKey::Digit(1),
        19 | 84 => MacKey::Digit(2),
        20 | 85 => MacKey::Digit(3),
        21 | 86 => MacKey::Digit(4),
        23 | 87 => MacKey::Digit(5),
        22 | 88 => MacKey::Digit(6),
        26 | 89 => MacKey::Digit(7),
        28 | 91 => MacKey::Digit(8),
        25 | 92 => MacKey::Digit(9),
        // The US positions of W, M, H, and Q, for layouts without Latin letters.
        13 => MacKey::Command(WindowCommand::Close),
        46 => MacKey::Command(WindowCommand::Minimize),
        4 => MacKey::Command(WindowCommand::Hide),
        12 => MacKey::Command(WindowCommand::Quit),
        _ => MacKey::Other,
    }
}


/// Whether `c` is a Latin letter in either case.
pub open spec fn is_latin_letter(c: char) -> bool {
    'a' as u32 <= ascii_folded(c) && ascii_folded(c) <= 'z' as u32
}

/// Keys that type no Latin letter are recognised by their position alone; a Latin letter names
/// the same key wherever the layout puts it, in either case.
pub proof fn law_positions_and_letters(code: u16, other_code: u16, typed: char)
    ensures
        mac_key(code, None) == key_at(code),
        !is_latin_letter(typed) ==> mac_key(code, Some(typed)) == key_at(code),
        is_latin_letter(typed) ==> mac_key(code, Some(typed)) == mac_key(other_code, Some(typed)),
{
}

/// Whether `c` is an ASCII letter, in either case.
pub open spec fn ascii_letter(c: char) -> bool {
    ('a' as u32 <= c as u32 && c as u32 <= 'z' as u32) || ('A' as u32 <= c as u32 && c as u32
        <= 'Z' as u32)
}

/// The switcher's keys sit at the macOS virtual key codes wherever the key types no Latin
/// letter: Tab at 48, Return at 36 and keypad Enter at 76, Escape at 53, the arrows Left, Right,
/// Down and Up at 123, 124, 125 and 126, the backtick at 50, the digits 1 to 9 on the number row
/// at 18, 19, 20, 21, 23, 22, 26, 28, 25 and on the keypad at 83 to 89, 91 and 92, and, for layouts
/// without Latin letters, W, M, H and Q at 13, 46, 4 and 12; every other code is no key of the
/// switcher.
pub proof fn law_keys_at_their_codes(code: u16, typed: Option<char>)
    requires
        typed is None || !ascii_letter(typed->0),
    ensures
        mac_key(48, typed) == MacKey::Tab,
        mac_key(36, typed) == MacKey::Return,
        mac_key(76, typed) == MacKey::Return,
        mac_key(53, typed) == MacKey::Escape,
        mac_key(123, typed) == MacKey::Left,
        mac_key(124, typed) == MacKey::Right,
        mac_key(125, typed) == MacKey::Down,
        mac_key(126, typed) == MacKey::Up,
        mac_key(50, typed) == MacKey::Backtick,
        mac_key(18, typed) == MacKey::Digit(1) && mac_key(83, typed) == MacKey::Digit(1),
        mac_key(19, typed) == MacKey::Digit(2) && mac_key(84, typed) == MacKey::Digit(2),
        mac_key(20, typed) == MacKey::Digit(3) && mac_key(85, typed) == MacKey::Digit(3),
        mac_key(21, typed) == MacKey::Digit(4) && mac_key(86, typed) == MacKey::Digit(4),
        mac_key(23, typed) == MacKey::Digit(5) && mac_key(87, typed) == MacKey::Digit(5),
        mac_key(22, typed) == MacKey::Digit(6) && mac_key(88, typed) == MacKey::Digit(6),
        mac_key(26, typed) == MacKey::Digit(7) && mac_key(89, typed) == MacKey::Digit(7),
        mac_key(28, typed) == MacKey::Digit(8) && mac_key(91, typed) == MacKey::Digit(8),
        mac_key(25, typed) == MacKey::Digit(9) && mac_key(92, typed) == MacKey::Digit(9),
        mac_key(13, typed) == MacKey::Command(WindowCommand::Close),
        mac_key(46, typed) == MacKey::Command(WindowCommand::Minimize),
        mac_key(4, typed) == MacKey::Command(WindowCommand::Hide),
        mac_key(12, typed) == MacKey::Command(WindowCommand::Quit),
        code != 48 && code != 36 && code != 76 && code != 53 && code != 123 && code != 124 && code
            != 125 && code != 126 && code != 50 && !(18 <= code <= 23) && code != 25 && code != 26
            && code != 28 && !(83 <= code <= 89) && code != 91 && code != 92 && code != 13 && code
            != 46 && code != 4 && code != 12 ==> mac_key(code, typed) == MacKey::Other,
{
    if let Some(c) = typed {
        assert(('A' <= c && c <= 'Z') == ('A' as u32 <= c as u32 && c as u32 <= 'Z' as u32));
        assert(!('a' as u32 <= ascii_folded(c) && ascii_folded(c) <= 'z' as u32));
        assert(mac_key(code, typed) == key_at(code));
        assert forall|other: u16| mac_key(other, typed) == key_at(other) by {}
    }
}

/// A Latin letter names its key wherever the layout puts it, in either case: W closes, M
/// minimizes, H hides and Q quits; any other Latin letter is no key of the switcher.
pub proof fn law_letters_name_their_commands(code: u16, c: char)
    ensures
        c == 'w' || c == 'W' ==> mac_key(code, Some(c)) == MacKey::Command(WindowCommand::Close),
        c == 'm' || c == 'M' ==> mac_key(code, Some(c)) == MacKey::Command(WindowCommand::Minimize),
        c == 'h' || c == 'H' ==> mac_key(code, Some(c)) == MacKey::Command(WindowCommand::Hide),
        c == 'q' || c == 'Q' ==> mac_key(code, Some(c)) == MacKey::Command(WindowCommand::Quit),
        ascii_letter(c) && c != 'w' && c != 'W' && c != 'm' && c != 'M' && c != 'h' && c != 'H' && c
            != 'q' && c != 'Q' ==> mac_key(code, Some(c)) == MacKey::Other,
{
}

} // verus!
