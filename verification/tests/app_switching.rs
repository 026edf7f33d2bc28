//! App-first switching sessions.

use alttabio::app_switcher::{
    group_by_app, Action, AppEntry, AppSwitcher, Effect, Target, WindowEntry, WindowHistory,
};
use alttabio::input::WindowCommand;
use alttabio::switcher::ProcessIdentity;

fn process(id: u32) -> ProcessIdentity {
    ProcessIdentity::new(id, u64::from(id) * 10)
}

fn app(id: u32, windows: &[isize]) -> AppEntry {
    AppEntry {
        process: process(id),
        name: format!("App {id}"),
        windows: windows.to_vec(),
    }
}

fn window(handle: isize, id: u32) -> WindowEntry {
    WindowEntry {
        handle,
        process: process(id),
        app_name: format!("App {id}"),
    }
}

fn opened(apps: Vec<AppEntry>, step: Option<i32>) -> AppSwitcher {
    let mut switcher = AppSwitcher::default();
    switcher.open(apps, step, Some(1));
    switcher
}

#[test]
fn windows_group_under_their_app_in_activation_order() {
    let windows = [window(1, 7), window(2, 8), window(3, 7), window(4, 9)];

    let apps = group_by_app(&windows, &[9, 7], &[(process(5), "Music".to_owned())]);

    let order = apps
        .iter()
        .map(|app| (app.process.id, app.windows.clone()))
        .collect::<Vec<_>>();
    assert_eq!(
        order,
        vec![(9, vec![4]), (7, vec![1, 3]), (8, vec![2]), (5, Vec::new())]
    );
}

#[test]
fn a_recently_used_app_without_windows_keeps_its_place() {
    let windows = [window(1, 7), window(2, 8)];

    let apps = group_by_app(&windows, &[5, 8], &[(process(5), "Finder".to_owned())]);

    let order = apps.iter().map(|app| app.process.id).collect::<Vec<_>>();
    assert_eq!(order, vec![5, 8, 7]);
}

#[test]
fn a_windowless_app_that_has_windows_is_listed_once() {
    let apps = group_by_app(&[window(1, 7)], &[], &[(process(7), "App 7".to_owned())]);

    assert_eq!(apps, vec![app(7, &[1])]);
}

#[test]
fn the_gesture_opens_on_the_previous_app_and_its_last_window() {
    let mut switcher = AppSwitcher::default();
    assert_eq!(
        switcher.handle(Action::StepApp(1)),
        Effect::Open { step: 1 }
    );
    switcher.open(vec![app(1, &[10, 11]), app(2, &[20, 21])], Some(1), Some(1));

    assert_eq!(switcher.selected_app_index(), Some(1));
    assert_eq!(switcher.selected_window(), Some(20));
    assert_eq!(
        switcher.handle(Action::Activate),
        Effect::Activate(Target::Window {
            handle: 20,
            process: process(2),
        })
    );
    assert!(!switcher.is_active());
}

#[test]
fn an_unlisted_front_app_puts_the_first_app_one_step_away() {
    let apps = || vec![app(1, &[10]), app(2, &[20]), app(3, &[30])];
    let mut switcher = AppSwitcher::default();

    switcher.open(apps(), Some(1), Some(9));
    assert_eq!(switcher.selected_app_index(), Some(0));
    switcher.open(apps(), Some(-1), Some(9));
    assert_eq!(switcher.selected_app_index(), Some(2));
    switcher.open(apps(), Some(1), None);
    assert_eq!(switcher.selected_app_index(), Some(1));
}

#[test]
fn apps_wrap_and_windows_stop_at_the_ends() {
    let mut switcher = opened(vec![app(1, &[10]), app(2, &[20, 21])], Some(-1));
    assert_eq!(switcher.selected_app_index(), Some(1));

    assert_eq!(switcher.handle(Action::StepApp(1)), Effect::Redraw);
    assert_eq!(switcher.selected_app_index(), Some(0));
    let _ = switcher.handle(Action::StepApp(1));
    assert_eq!(switcher.handle(Action::StepWindow(1)), Effect::Redraw);
    assert_eq!(switcher.selected_window(), Some(21));
    assert_eq!(switcher.handle(Action::StepWindow(1)), Effect::Nothing);
    assert_eq!(switcher.selected_window(), Some(21));
    assert_eq!(switcher.handle(Action::StepWindow(-5)), Effect::Redraw);
    assert_eq!(switcher.selected_window(), Some(20));
}

#[test]
fn a_number_switches_to_that_window_of_the_selected_app() {
    let mut switcher = opened(vec![app(1, &[10]), app(2, &[20, 21, 22])], Some(1));

    assert_eq!(switcher.handle(Action::ChooseWindow(4)), Effect::Nothing);
    assert_eq!(switcher.handle(Action::ChooseWindow(0)), Effect::Nothing);
    assert!(switcher.is_active());
    assert_eq!(
        switcher.handle(Action::ChooseWindow(3)),
        Effect::Activate(Target::Window {
            handle: 22,
            process: process(2),
        })
    );
    assert!(!switcher.is_active());
}

#[test]
fn the_front_app_starts_on_the_window_after_the_one_in_focus() {
    let mut switcher = opened(vec![app(1, &[10, 11]), app(2, &[20, 21])], None);
    assert_eq!(switcher.selected_window(), Some(11));

    let _ = switcher.handle(Action::StepApp(1));
    assert_eq!(switcher.selected_window(), Some(20));
    let _ = switcher.handle(Action::StepApp(-1));
    assert_eq!(switcher.selected_window(), Some(11));
    let _ = switcher.select(1, None);
    assert!(switcher.select(0, None));
    assert_eq!(switcher.selected_window(), Some(11));
    // An app in front with one window starts on it; there is nothing else.
    let single = opened(vec![app(1, &[10]), app(2, &[20])], None);
    assert_eq!(single.selected_window(), Some(10));
}

#[test]
fn the_window_history_follows_focus_and_forgets_closed_windows() {
    let mut history = WindowHistory::default();
    let ranks = |history: &WindowHistory, windows: [isize; 3]| {
        windows.map(|window| history.rank(window))
    };

    history.note(None, &[3, 1, 2]);
    assert_eq!(ranks(&history, [3, 1, 2]), [0, 1, 2]);
    history.note(Some(2), &[3, 1, 2]);
    assert_eq!(ranks(&history, [2, 3, 1]), [0, 1, 2]);
    // Window 3 closed and window 4 was never seen.
    history.note(Some(2), &[2, 1, 4]);
    assert_eq!(ranks(&history, [2, 1, 3]), [0, 1, usize::MAX]);
    assert_eq!(history.rank(4), usize::MAX);
}

#[test]
fn stepping_to_another_app_lands_on_its_last_window() {
    let mut switcher = opened(vec![app(1, &[10, 11]), app(2, &[20, 21])], None);
    let _ = switcher.handle(Action::StepWindow(1));

    let _ = switcher.handle(Action::StepApp(1));

    assert_eq!(switcher.selected_window(), Some(20));
}

#[test]
fn an_app_without_windows_is_activated_itself_and_ignores_window_commands() {
    let mut switcher = opened(vec![app(1, &[10]), app(2, &[])], Some(1));

    assert_eq!(switcher.selected_window_index(), None);
    assert_eq!(switcher.handle(Action::StepWindow(1)), Effect::Nothing);
    assert_eq!(
        switcher.handle(Action::Command(WindowCommand::Close)),
        Effect::Nothing
    );
    assert_eq!(
        switcher.handle(Action::Command(WindowCommand::Quit)),
        Effect::Execute {
            command: WindowCommand::Quit,
            target: Target::App(process(2)),
        }
    );
    assert_eq!(
        switcher.handle(Action::Activate),
        Effect::Activate(Target::App(process(2)))
    );
}

#[test]
fn window_commands_target_the_window_and_app_commands_the_app() {
    let mut switcher = opened(vec![app(1, &[10]), app(2, &[20])], Some(1));

    assert_eq!(
        switcher.handle(Action::Command(WindowCommand::Minimize)),
        Effect::Execute {
            command: WindowCommand::Minimize,
            target: Target::Window {
                handle: 20,
                process: process(2),
            },
        }
    );
    assert_eq!(
        switcher.handle(Action::Command(WindowCommand::Hide)),
        Effect::Execute {
            command: WindowCommand::Hide,
            target: Target::App(process(2)),
        }
    );
}

#[test]
fn a_refresh_keeps_the_opening_order_and_the_selected_window() {
    let mut switcher = opened(
        vec![app(1, &[10, 11]), app(2, &[20, 21, 22]), app(3, &[30])],
        Some(1),
    );
    let _ = switcher.handle(Action::StepWindow(1));

    // Hiding app 1 activated app 3 and reordered everything; window 20 closed.
    switcher.refresh(vec![app(3, &[30]), app(2, &[22, 21, 23]), app(4, &[40])]);

    let order = switcher
        .apps()
        .iter()
        .map(|app| (app.process.id, app.windows.clone()))
        .collect::<Vec<_>>();
    assert_eq!(
        order,
        vec![(2, vec![21, 22, 23]), (3, vec![30]), (4, vec![40])]
    );
    assert_eq!(switcher.selected_window(), Some(21));
}

#[test]
fn a_refresh_that_drops_the_selected_app_keeps_the_place() {
    let mut switcher = opened(vec![app(1, &[10]), app(2, &[20]), app(3, &[30])], Some(2));

    switcher.refresh(vec![app(1, &[10]), app(2, &[20])]);

    assert_eq!(switcher.selected_app_index(), Some(1));
    switcher.refresh(Vec::new());
    assert!(!switcher.is_active());
}

#[test]
fn a_closed_window_moves_the_selection_to_its_neighbour() {
    let mut switcher = opened(vec![app(1, &[10, 11, 12])], None);
    let _ = switcher.handle(Action::StepWindow(2));

    switcher.refresh(vec![app(1, &[10, 11])]);

    assert_eq!(switcher.selected_window(), Some(11));
}

#[test]
fn the_command_menu_keeps_its_target_while_input_arrives() {
    let mut switcher = opened(vec![app(1, &[10]), app(2, &[20])], Some(1));
    assert!(switcher.open_context_menu());
    assert!(!switcher.open_context_menu());

    for action in [
        Action::StepApp(1),
        Action::Activate,
        Action::Command(WindowCommand::Close),
    ] {
        assert_eq!(switcher.handle(action), Effect::Nothing);
    }
    switcher.refresh(vec![app(1, &[10])]);
    assert_eq!(
        switcher.finish_context_menu(Some(WindowCommand::Close)),
        Effect::Execute {
            command: WindowCommand::Close,
            target: Target::Window {
                handle: 20,
                process: process(2),
            },
        }
    );
    assert!(switcher.open_context_menu());
    assert_eq!(switcher.finish_context_menu(None), Effect::Nothing);
}

#[test]
fn the_command_menu_sends_app_commands_to_the_app() {
    let mut switcher = opened(vec![app(1, &[10])], None);
    assert!(switcher.open_context_menu());

    assert_eq!(
        switcher.finish_context_menu(Some(WindowCommand::Terminate)),
        Effect::Execute {
            command: WindowCommand::Terminate,
            target: Target::App(process(1)),
        }
    );
}

#[test]
fn mouse_selection_picks_an_app_and_optionally_a_window() {
    let mut switcher = opened(vec![app(1, &[10]), app(2, &[20, 21])], None);

    assert!(switcher.select(1, Some(1)));
    assert_eq!(switcher.selected_window(), Some(21));
    assert!(!switcher.select(1, Some(1)));
    assert!(switcher.select(1, None));
    assert_eq!(switcher.selected_window(), Some(20));
    assert!(!switcher.select(1, Some(5)));
    assert!(!switcher.select(4, None));
}

#[test]
fn escape_hides_and_nothing_but_the_gesture_opens() {
    let mut switcher = opened(vec![app(1, &[10])], None);

    assert_eq!(switcher.handle(Action::Dismiss), Effect::Hide);
    assert!(!switcher.is_active());
    assert_eq!(switcher.handle(Action::Activate), Effect::Nothing);
    assert_eq!(switcher.handle(Action::StepWindow(1)), Effect::Nothing);
    assert!(!opened(Vec::new(), Some(1)).is_active());
}
