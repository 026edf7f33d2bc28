//! The macOS switcher panel: list scrolling, the note about hidden rows, menu tags and footer.

use alttabio::input::WindowCommand;
use alttabio::macos::hotkey::HeldModifier;
use alttabio::macos::overlay::{
    command_for_tag, hidden_note, Hit, more_note, row_number, row_window, scroll_into_view, tile_window, RowWindow,
    WindowState,
};
use alttabio::macos::preview::{
    capture_source, CaptureOutcome, PreviewState, NOT_CAPTURABLE, PREVIEW_LOADING,
    SCREEN_RECORDING_NOTE,
};
use alttabio::macos::pointer::{
    HoverReaction, PanelPointer, PointerOrigin, PressReaction, ReleaseReaction, ShownList,
    WindowChoice,
};
use alttabio::macos::shortcuts::{actions, footer, ActionKind, FooterContext};
use alttabio::macos::window_list::merge_order;

#[test]
fn scrolling_into_view_moves_only_as_far_as_needed() {
    assert_eq!(scroll_into_view(0, 3, 10, 5), 0);
    assert_eq!(scroll_into_view(0, 5, 10, 5), 1);
    assert_eq!(scroll_into_view(4, 2, 10, 5), 2);
    assert_eq!(scroll_into_view(8, 9, 10, 5), 5);
    assert_eq!(scroll_into_view(3, 1, 2, 5), 0);
}

#[test]
fn the_more_note_counts_the_windows_on_the_side_they_are_hidden() {
    assert_eq!(more_note(10, 0, 7).as_deref(), Some("3 more"));
    assert_eq!(more_note(10, 2, 7).as_deref(), Some("1 more"));
    assert_eq!(more_note(10, 3, 7).as_deref(), Some("3 more above"));
    assert_eq!(more_note(5, 0, 5), None);
}

#[test]
fn menu_tags_name_the_commands() {
    assert_eq!(command_for_tag(1), Some(WindowCommand::Close));
    assert_eq!(command_for_tag(5), Some(WindowCommand::Terminate));
    assert_eq!(command_for_tag(0), None);
}

#[test]
fn the_footer_names_the_modifier_that_is_down() {
    let footer = footer(FooterContext::Held(HeldModifier::Option), false);

    assert_eq!(footer.status, "Release ⌥ to switch  ·  1–9 jumps");
    assert_eq!(
        footer
            .trailing
            .iter()
            .map(|hint| hint.keys)
            .collect::<Vec<_>>(),
        vec!["↵", "⌘K"]
    );
}

#[test]
fn search_status_counts_matches_and_the_open_panel_runs_actions() {
    assert_eq!(
        footer(FooterContext::Searching { matches: 1 }, false).status,
        "1 match"
    );
    assert_eq!(
        footer(FooterContext::Searching { matches: 4 }, true).trailing[0].label,
        "Run"
    );
}

#[test]
fn the_primary_action_leads_the_panel() {
    let actions = actions();
    assert_eq!(actions[0].kind, ActionKind::Activate);
    assert!(actions.iter().all(|action| !action.keys.is_empty()));
}

#[test]
fn visible_windows_lead_and_hidden_ones_keep_their_previous_order() {
    let order = merge_order(&[7, 3, 9, 4], &[4, 1], &[9, 3, 8]);

    assert_eq!(order, vec![4, 1, 3, 9, 8]);
}

#[test]
fn unknown_windows_are_appended_once() {
    let order = merge_order(&[], &[2, 2], &[5, 5, 2]);

    assert_eq!(order, vec![2, 2, 5]);
}

#[test]
fn the_footer_counts_many_matches_and_invites_typing() {
    assert_eq!(
        footer(FooterContext::Searching { matches: 12 }, false).status,
        "12 matches"
    );
    assert_eq!(
        footer(FooterContext::Searching { matches: 0 }, false).status,
        "0 matches"
    );
    assert_eq!(footer(FooterContext::Released, false).status, "Type to search");
    assert_eq!(
        footer(FooterContext::Held(HeldModifier::Command), false).status,
        "Release ⌘ to switch  ·  1–9 jumps"
    );
}

#[test]
fn scrolling_keeps_a_selection_already_in_view() {
    assert_eq!(scroll_into_view(2, 4, 10, 5), 2);
    assert_eq!(scroll_into_view(2, 2, 10, 5), 2);
    assert_eq!(scroll_into_view(2, 6, 10, 5), 2);
    assert_eq!(scroll_into_view(2, 7, 10, 5), 3);
}

#[test]
fn a_short_window_list_is_listed_whole_without_notes() {
    assert_eq!(
        row_window(0, Some(2), 3, 5),
        RowWindow {
            start: 0,
            count: 3,
            selected_row: Some(2),
            hidden: 0,
            more_note: false,
            empty_note: false,
        }
    );
}

#[test]
fn a_long_window_list_gives_its_last_slot_to_the_count_of_the_rest() {
    let rows = row_window(0, Some(0), 10, 5);
    assert_eq!(rows.start, 0);
    assert_eq!(rows.count, 4);
    assert_eq!(rows.selected_row, Some(0));
    assert_eq!(rows.hidden, 6);
    assert!(rows.more_note);
    assert_eq!(hidden_note(rows.hidden), "6 more");

    let scrolled = row_window(0, Some(7), 10, 5);
    assert_eq!(scrolled.start, 4);
    assert_eq!(scrolled.count, 4);
    assert_eq!(scrolled.selected_row, Some(3));
}

#[test]
fn a_panel_of_one_row_keeps_one_window_row_and_no_note_slot() {
    let rows = row_window(0, Some(3), 5, 1);
    assert_eq!(rows.start, 3);
    assert_eq!(rows.count, 1);
    assert_eq!(rows.selected_row, Some(0));
    assert_eq!(rows.hidden, 4);
    assert!(!rows.more_note);
}

#[test]
fn an_app_without_windows_gets_the_empty_note() {
    let rows = row_window(3, None, 0, 5);
    assert_eq!(rows.count, 0);
    assert_eq!(rows.start, 0);
    assert_eq!(rows.selected_row, None);
    assert!(rows.empty_note);
    assert!(!rows.more_note);
}

#[test]
fn the_first_nine_rows_carry_their_digit() {
    assert_eq!(row_number(0), Some(1));
    assert_eq!(row_number(8), Some(9));
    assert_eq!(row_number(9), None);
}

#[test]
fn window_states_prefer_minimized_then_hidden_then_other_desktop() {
    assert_eq!(WindowState::of(true, true, false), WindowState::Minimized);
    assert_eq!(WindowState::of(false, true, false), WindowState::Hidden);
    assert_eq!(WindowState::of(false, false, false), WindowState::OtherDesktop);
    assert_eq!(WindowState::of(false, false, true), WindowState::Normal);
    assert_eq!(WindowState::OtherDesktop.label(), Some("Other desktop"));
}

const SHOWN: ShownList = ShownList {
    tile_start: 2,
    row_start: 3,
    selected_row: Some(1),
};

#[test]
fn a_click_on_a_row_selects_it_and_activates_on_release() {
    let mut pointer = PanelPointer::new();
    assert_eq!(
        pointer.press(SHOWN, Some(Hit::Row(0)), Some(4)),
        PressReaction::SelectWindow { app: 4, window: 3 }
    );
    assert_eq!(pointer.release(Some(Hit::Row(0))), ReleaseReaction::Activate);
    assert_eq!(pointer.pressed, None);
}

#[test]
fn a_click_released_on_another_target_activates_nothing() {
    let mut pointer = PanelPointer::new();
    assert_eq!(
        pointer.press(SHOWN, Some(Hit::Tile(1)), Some(0)),
        PressReaction::SelectApp(3)
    );
    assert_eq!(pointer.release(Some(Hit::Row(1))), ReleaseReaction::Nothing);
    assert_eq!(pointer.release(None), ReleaseReaction::Nothing);
}

#[test]
fn the_close_button_closes_only_on_press_and_release_over_it() {
    let mut pointer = PanelPointer::new();
    assert_eq!(
        pointer.press(SHOWN, Some(Hit::CloseButton(1)), Some(0)),
        PressReaction::Redraw
    );
    assert!(pointer.close_button.pressed);
    assert_eq!(
        pointer.release(Some(Hit::CloseButton(1))),
        ReleaseReaction::CloseWindowAndRedraw
    );
    assert!(!pointer.close_button.pressed);

    pointer.press(SHOWN, Some(Hit::CloseButton(1)), Some(0));
    assert_eq!(pointer.release(Some(Hit::Row(1))), ReleaseReaction::Redraw);
}

#[test]
fn hovering_waits_until_the_pointer_leaves_where_the_panel_opened() {
    let mut pointer = PanelPointer::new();
    let near = pointer.hover(SHOWN, Some(Hit::Row(0)), PointerOrigin::Near, Some(0));
    assert_eq!(
        near,
        HoverReaction {
            forget_origin: false,
            cancel_dwell: false,
            start_dwell: None,
            select_window: None,
            redraw: false,
        }
    );
    let away = pointer.hover(SHOWN, Some(Hit::Row(0)), PointerOrigin::Away, Some(0));
    assert!(away.forget_origin);
    assert_eq!(away.select_window, Some(WindowChoice { app: 0, window: 3 }));
    assert!(!away.redraw);
}

#[test]
fn hovering_the_selected_row_or_the_close_button_selects_nothing() {
    let mut pointer = PanelPointer::new();
    let on_selected = pointer.hover(SHOWN, Some(Hit::Row(1)), PointerOrigin::Left, Some(0));
    assert_eq!(on_selected.select_window, None);
    let on_close = pointer.hover(SHOWN, Some(Hit::CloseButton(1)), PointerOrigin::Left, Some(0));
    assert_eq!(on_close.select_window, None);
    assert!(on_close.redraw);
    assert!(pointer.close_button.hovered);
    let off = pointer.hover(SHOWN, None, PointerOrigin::Left, Some(0));
    assert!(off.redraw);
    assert!(!pointer.close_button.hovered);
}

#[test]
fn resting_on_a_new_tile_of_another_app_starts_its_dwell() {
    let mut pointer = PanelPointer::new();
    let first = pointer.hover(SHOWN, Some(Hit::Tile(1)), PointerOrigin::Left, Some(0));
    assert!(first.cancel_dwell);
    assert_eq!(first.start_dwell, Some(3));
    assert_eq!(pointer.hovered_tile, Some(3));

    let again = pointer.hover(SHOWN, Some(Hit::Tile(1)), PointerOrigin::Left, Some(0));
    assert!(!again.cancel_dwell);
    assert_eq!(again.start_dwell, None);

    let selected = pointer.hover(SHOWN, Some(Hit::Tile(0)), PointerOrigin::Left, Some(2));
    assert!(selected.cancel_dwell);
    assert_eq!(selected.start_dwell, None);
    assert_eq!(pointer.hovered_tile, Some(2));
}

#[test]
fn the_strip_scrolls_to_the_selected_app_and_fills_its_places() {
    assert_eq!(tile_window(0, 2, 10, 4), (0, 4));
    assert_eq!(tile_window(0, 6, 10, 4), (3, 4));
    assert_eq!(tile_window(5, 9, 10, 4), (6, 4));
    assert_eq!(tile_window(3, 1, 3, 8), (0, 3));
    assert_eq!(tile_window(0, 0, 0, 4), (0, 0));
}

#[test]
fn a_capture_shows_only_while_its_window_is_selected() {
    let mut preview: PreviewState<&str> = PreviewState::new();
    preview.in_flight = true;
    assert!(preview.captured(7, Some(7), true, CaptureOutcome::Image("frame")));
    assert!(!preview.in_flight);
    assert!(preview.shows_image(Some(7)));
    assert_eq!(preview.note(Some(7), true), None);
    assert!(!preview.shows_image(Some(8)));

    assert!(!preview.captured(9, Some(8), true, CaptureOutcome::Image("late")));
    assert_eq!(preview.image, Some("frame"));
    assert!(!preview.captured(7, Some(7), false, CaptureOutcome::Image("closed")));
    assert_eq!(preview.image, Some("frame"));
}

#[test]
fn a_refused_capture_keeps_the_frame_of_the_same_window_and_notes_why() {
    let mut preview: PreviewState<&str> = PreviewState::new();
    preview.captured(7, Some(7), true, CaptureOutcome::Image("frame"));
    assert!(preview.captured(7, Some(7), true, CaptureOutcome::Unavailable("minimized")));
    assert_eq!(preview.image, Some("frame"));
    assert_eq!(preview.message, Some("minimized"));

    assert!(preview.captured(8, Some(8), true, CaptureOutcome::Unavailable("gone")));
    assert_eq!(preview.image, None);
    assert_eq!(preview.note(Some(8), true), Some("gone"));
    assert_eq!(preview.note(Some(8), false), Some(SCREEN_RECORDING_NOTE));
    assert_eq!(preview.note(None, false), None);

    preview.refused(9, "no content");
    assert_eq!(preview.window, Some(9));
    assert_eq!(preview.note(Some(9), true), Some("no content"));
}

#[test]
fn a_capture_is_made_from_the_shareable_window_with_the_requested_id() {
    assert_eq!(capture_source(None, 7), Err("Preview is loading"));
    assert_eq!(PREVIEW_LOADING, "Preview is loading");
    let ids = [4, 7, 9, 7];
    assert_eq!(capture_source(Some(&ids[..]), 7), Ok(1));
    assert_eq!(capture_source(Some(&ids[..]), 9), Ok(2));
    assert_eq!(capture_source(Some(&ids[..]), 5), Err("This window cannot be captured"));
    assert_eq!(NOT_CAPTURABLE, "This window cannot be captured");
    assert_eq!(capture_source(Some(&[][..]), 5), Err(NOT_CAPTURABLE));
}
