//! Switch gestures kept while the shell dismisses its menu.

use alttabio::deferred_switch::{DeferredSwitch, DeferredSwitchPoll, MAX_ACTIONS};
use alttabio::input::InputAction;
use std::time::Duration;

const RETRY_AFTER: Duration = Duration::from_millis(150);
const TIMEOUT: Duration = Duration::from_millis(500);

#[test]
fn preview_preserves_order_after_release_and_cancels_without_replay() {
    let mut deferred = DeferredSwitch::new(InputAction::Switch(1));
    assert!(deferred.push(InputAction::AltReleased));
    assert!(deferred.push(InputAction::Switch(-1)));
    assert_eq!(deferred.take_preview_actions(), [InputAction::Switch(1)]);
    assert!(deferred.take_preview_actions().is_empty());
    assert!(!deferred.push(InputAction::DismissOverlay));
    assert!(deferred.take_preview_actions().is_empty());
    assert_eq!(
        deferred.poll(false, Duration::ZERO),
        DeferredSwitchPoll::Cancel
    );
}

#[test]
fn cancellation_never_reopens_a_queued_gesture() {
    let mut deferred = DeferredSwitch::new(InputAction::Switch(1));
    assert!(!deferred.push(InputAction::DismissOverlay));
    assert_eq!(
        deferred.poll(false, Duration::ZERO),
        DeferredSwitchPoll::Cancel
    );
}

#[test]
fn shell_timeout_and_input_backlog_are_bounded() {
    let mut deferred = DeferredSwitch::new(InputAction::Switch(1));
    assert_eq!(
        deferred.poll(true, RETRY_AFTER),
        DeferredSwitchPoll::RetryDismissal
    );
    assert_eq!(deferred.poll(true, RETRY_AFTER), DeferredSwitchPoll::Wait);
    assert_eq!(deferred.poll(true, TIMEOUT), DeferredSwitchPoll::Cancel);
    assert_eq!(deferred.poll(false, TIMEOUT), DeferredSwitchPoll::Cancel);
    let mut deferred = DeferredSwitch::new(InputAction::Switch(1));
    for _ in 1..MAX_ACTIONS {
        assert!(deferred.push(InputAction::Switch(1)));
    }
    assert!(!deferred.push(InputAction::AltReleased));
    assert_eq!(
        deferred.poll(false, Duration::ZERO),
        DeferredSwitchPoll::Cancel
    );
}

#[test]
fn queued_actions_are_handed_over_in_order_once_the_shell_lets_go() {
    let mut deferred = DeferredSwitch::new(InputAction::Switch(1));
    assert!(deferred.push(InputAction::Switch(-1)));
    assert!(deferred.push(InputAction::AltReleased));
    assert_eq!(
        deferred.poll(true, Duration::from_millis(20)),
        DeferredSwitchPoll::Wait
    );
    assert_eq!(
        deferred.poll(false, Duration::from_millis(40)),
        DeferredSwitchPoll::Ready(vec![
            InputAction::Switch(1),
            InputAction::Switch(-1),
            InputAction::AltReleased
        ])
    );
}

#[test]
fn a_poll_in_whole_nanoseconds_uses_the_same_limits() {
    let mut deferred = DeferredSwitch::new(InputAction::Switch(1));
    assert_eq!(
        deferred.poll_nanos(true, 149_999_999),
        DeferredSwitchPoll::Wait
    );
    assert_eq!(
        deferred.poll_nanos(true, 150_000_000),
        DeferredSwitchPoll::RetryDismissal
    );
    assert_eq!(
        deferred.poll_nanos(true, 499_999_999),
        DeferredSwitchPoll::Wait
    );
    assert_eq!(
        deferred.poll_nanos(true, 500_000_000),
        DeferredSwitchPoll::Cancel
    );
}

#[test]
fn quick_release_and_reverse_cycles_survive_shell_dismissal() {
    let mut deferred = DeferredSwitch::new(InputAction::Switch(1));
    assert!(deferred.push(InputAction::Switch(1)));
    assert!(deferred.push(InputAction::Switch(-1)));
    assert!(deferred.push(InputAction::AltReleased));
    assert_eq!(
        deferred.poll(true, Duration::ZERO),
        DeferredSwitchPoll::Wait
    );
    let DeferredSwitchPoll::Ready(actions) = deferred.poll(false, Duration::from_millis(20))
    else {
        panic!("the shell gave up focus");
    };
    assert_eq!(
        actions,
        [
            InputAction::Switch(1),
            InputAction::Switch(1),
            InputAction::Switch(-1),
            InputAction::AltReleased,
        ]
    );
}
