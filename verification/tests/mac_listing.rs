//! What the macOS switcher makes of a window listing.

use alttabio::app_switcher::{WindowEntry, WindowHistory};
use alttabio::macos::listing::{
    app_entries, focused_window, note_front_app, order_by_history, split_by_visibility,
    window_entries, RECENT_APPS_KEPT,
};
use alttabio::macos::window_list::{
    app_answers_accessibility, assemble_listing, keep_windows_on_display, AccessibleWindow, ListedWindow, RunningApp,
    ScreenWindow, WindowlessApp,
};
use alttabio::switcher::ProcessIdentity;

fn window(window_id: u32, pid: i32, app_name: &str, is_on_screen: bool) -> ListedWindow {
    ListedWindow {
        window_id,
        pid,
        launched_at: 7,
        title: format!("window {window_id}"),
        app_name: app_name.to_owned(),
        is_minimized: false,
        is_hidden: false,
        is_on_screen,
        ax: None,
    }
}

#[test]
fn a_listing_splits_into_windows_on_screen_and_the_others_in_order() {
    let records = [
        window(10, 1, "Editor", true),
        window(11, 1, "Editor", false),
        window(12, 2, "Browser", true),
        window(13, 3, "Mail", false),
    ];
    let (on_screen, others) = split_by_visibility(&records);
    assert_eq!(on_screen, vec![10, 12]);
    assert_eq!(others, vec![11, 13]);
}

#[test]
fn the_front_apps_topmost_window_on_screen_has_focus() {
    let records = [
        window(10, 1, "Editor", true),
        window(11, 2, "Browser", false),
        window(12, 2, "Browser", true),
        window(13, 2, "Browser", true),
    ];
    assert_eq!(focused_window(&records, Some(2)), Some(12));
    assert_eq!(focused_window(&records, Some(1)), Some(10));
    assert_eq!(focused_window(&records, Some(3)), None);
    assert_eq!(focused_window(&records, None), None);
    assert_eq!(focused_window(&[window(20, -1, "Ghost", true)], Some(0)), Some(20));
}

#[test]
fn the_front_app_moves_to_the_head_of_the_recent_apps() {
    let mut recent = vec![3, 1, 2];
    note_front_app(&mut recent, 2);
    assert_eq!(recent, vec![2, 3, 1]);
    note_front_app(&mut recent, 9);
    assert_eq!(recent, vec![9, 2, 3, 1]);

    let mut full: Vec<u32> = (0..100).collect();
    note_front_app(&mut full, 500);
    assert_eq!(full.len(), RECENT_APPS_KEPT);
    assert_eq!(full[0], 500);
    assert_eq!(full[1], 0);
    assert_eq!(full[RECENT_APPS_KEPT - 1], 62);
}

#[test]
fn windows_follow_focus_history_then_stacking_order() {
    let mut history = WindowHistory::default();
    history.note(Some(12), &[10, 11, 12]);
    history.note(Some(11), &[10, 11, 12]);
    // History: 11, 12, 10. Window 13 has not been seen.
    assert_eq!(order_by_history(&[13, 10, 12, 11], &history), vec![11, 12, 10, 13]);
    assert_eq!(order_by_history(&[], &history), Vec::<u32>::new());
    assert_eq!(
        order_by_history(&[5, 4], &WindowHistory::default()),
        vec![5, 4]
    );
}

#[test]
fn entries_take_the_first_record_of_each_listed_window() {
    let records = [
        window(10, 1, "Editor", true),
        window(10, 2, "Duplicate", true),
        window(12, 2, "Browser", true),
    ];
    assert_eq!(
        window_entries(&[12, 99, 10], &records),
        vec![
            WindowEntry {
                handle: 12,
                process: ProcessIdentity::new(2, 7),
                app_name: "Browser".to_owned(),
            },
            WindowEntry {
                handle: 10,
                process: ProcessIdentity::new(1, 7),
                app_name: "Editor".to_owned(),
            },
        ]
    );
}

#[test]
fn app_entries_group_windows_by_recent_app_and_add_the_windowless() {
    let records = [
        window(10, 1, "Editor", true),
        window(11, 2, "Browser", true),
        window(12, 1, "Editor", false),
    ];
    let mut history = WindowHistory::default();
    history.note(Some(12), &[10, 11, 12]);
    let windowless = [WindowlessApp {
        pid: 4,
        launched_at: 9,
        name: "Notes".to_owned(),
    }];

    let apps = app_entries(&[10, 11, 12], &history, &records, &[2, 1], &windowless);

    let names: Vec<&str> = apps.iter().map(|app| app.name.as_str()).collect();
    assert_eq!(names, ["Browser", "Editor", "Notes"]);
    assert_eq!(apps[0].windows, vec![11]);
    assert_eq!(apps[1].windows, vec![12, 10]);
    assert!(apps[2].windows.is_empty());
    assert_eq!(apps[2].process, ProcessIdentity::new(4, 9));
}

fn running(pid: i32, name: &str, hidden: bool) -> RunningApp {
    RunningApp {
        pid,
        name: name.to_owned(),
        hidden,
        launched_at: 100 + pid as u64,
    }
}

fn screen(id: u32, pid: i32, name: &str) -> ScreenWindow {
    ScreenWindow {
        id,
        pid,
        name: name.to_owned(),
    }
}

fn accessible(pid: i32, id: u32, title: &str, minimized: bool, element: usize) -> AccessibleWindow {
    AccessibleWindow {
        pid,
        id,
        title: title.to_owned(),
        minimized,
        element,
    }
}

#[test]
fn an_app_answers_accessibility_through_pending_or_matched_windows() {
    let pending = vec![accessible(7, 1, "Doc", false, 0)];
    let mut matched = window(2, 9, "App", true);
    matched.title = "Sheet".to_owned();
    matched.ax = Some(1);
    let matched = vec![matched];

    assert!(app_answers_accessibility(&pending, &matched, 7));
    assert!(app_answers_accessibility(&pending, &matched, 9));
    assert!(!app_answers_accessibility(&pending, &matched, 11));
}

#[test]
fn on_screen_windows_come_first_and_take_their_accessibility_titles() {
    let apps = [running(1, "Editor", false), running(2, "Browser", true)];
    let on_screen = [
        screen(10, 1, "editor window"),
        screen(20, 2, ""),
        screen(21, 2, "bubble"),
        screen(30, 3, "stranger"),
    ];
    let reported = vec![
        accessible(1, 11, "Minimized draft", true, 0),
        accessible(1, 10, "Draft", false, 1),
        accessible(2, 20, "", false, 2),
        accessible(1, 12, "", false, 3),
    ];

    let listing = assemble_listing(&apps, &on_screen, reported);
    let summary: Vec<(u32, &str, bool, Option<usize>)> = listing
        .windows
        .iter()
        .map(|record| (record.window_id, record.title.as_str(), record.is_on_screen, record.ax))
        .collect();
    // Window 21 is a helper: the browser answered Accessibility without reporting it. Window 30
    // belongs to no listed app. Window 12 has no title once off screen.
    assert_eq!(
        summary,
        [
            (10, "Draft", true, Some(1)),
            (20, "Browser", true, Some(2)),
            (11, "Minimized draft", false, Some(0)),
        ]
    );
    assert!(listing.windows[2].is_minimized);
    assert!(listing.windows[1].is_hidden);
    assert_eq!(listing.windows[1].launched_at, 102);
    assert!(listing.windowless.is_empty());
}

#[test]
fn apps_that_answer_nothing_keep_their_on_screen_windows_and_windowless_apps_are_listed() {
    let apps = [running(1, "Frozen", false), running(4, "Menu bar app", false)];
    let on_screen = [screen(40, 1, ""), screen(41, 1, "Named")];

    let listing = assemble_listing(&apps, &on_screen, Vec::new());

    let titles: Vec<&str> = listing.windows.iter().map(|record| record.title.as_str()).collect();
    assert_eq!(titles, ["Frozen", "Named"]);
    assert!(listing.windows.iter().all(|record| record.ax.is_none()));
    assert_eq!(
        listing.windowless,
        [WindowlessApp {
            pid: 4,
            launched_at: 104,
            name: "Menu bar app".to_owned(),
        }]
    );
}

#[test]
fn a_listing_held_to_one_display_keeps_off_screen_windows_and_those_on_it() {
    let mut records = vec![
        window(10, 1, "Editor", true),
        window(11, 1, "Editor", false),
        window(12, 2, "Browser", true),
        window(13, 3, "Mail", false),
        window(14, 3, "Mail", true),
    ];
    keep_windows_on_display(&mut records, &vec![14, 12, 99]);
    let ids: Vec<u32> = records.iter().map(|record| record.window_id).collect();
    assert_eq!(ids, vec![11, 12, 13, 14]);

    keep_windows_on_display(&mut records, &Vec::new());
    let ids: Vec<u32> = records.iter().map(|record| record.window_id).collect();
    assert_eq!(ids, vec![11, 13]);
}
