//! The macOS key map.

use alttabio::input::WindowCommand;
use alttabio::macos::keymap::{key_for, MacKey};

#[test]
fn switcher_keys_are_recognised_by_position() {
    assert_eq!(key_for(48, Some('\t')), MacKey::Tab);
    assert_eq!(key_for(76, Some('\r')), MacKey::Return);
    assert_eq!(key_for(53, None), MacKey::Escape);
    assert_eq!(key_for(126, None), MacKey::Up);
    assert_eq!(key_for(50, Some('`')), MacKey::Backtick);
    assert_eq!(key_for(18, Some('1')), MacKey::Digit(1));
    assert_eq!(key_for(92, Some('9')), MacKey::Digit(9));
    assert_eq!(key_for(29, Some('0')), MacKey::Other);
    // French AZERTY types & and é on the number row; the digits stay where they are.
    assert_eq!(key_for(18, Some('&')), MacKey::Digit(1));
    assert_eq!(key_for(19, Some('é')), MacKey::Digit(2));
}

#[test]
fn command_letters_follow_the_layout() {
    assert_eq!(
        key_for(13, Some('w')),
        MacKey::Command(WindowCommand::Close)
    );
    assert_eq!(key_for(12, Some('Q')), MacKey::Command(WindowCommand::Quit));
    // AZERTY: Q sits where US has A, and A where US has Q.
    assert_eq!(key_for(0, Some('q')), MacKey::Command(WindowCommand::Quit));
    assert_eq!(key_for(12, Some('a')), MacKey::Other);
    // Dvorak types M on the US M key but H on the US J key.
    assert_eq!(
        key_for(46, Some('m')),
        MacKey::Command(WindowCommand::Minimize)
    );
    assert_eq!(key_for(38, Some('h')), MacKey::Command(WindowCommand::Hide));
    assert_eq!(key_for(4, Some('d')), MacKey::Other);
}

#[test]
fn layouts_without_latin_letters_use_the_us_positions() {
    assert_eq!(key_for(12, Some('й')), MacKey::Command(WindowCommand::Quit));
    assert_eq!(
        key_for(13, Some('ц')),
        MacKey::Command(WindowCommand::Close)
    );
    assert_eq!(key_for(12, None), MacKey::Command(WindowCommand::Quit));
    assert_eq!(key_for(0, Some('ф')), MacKey::Other);
}
