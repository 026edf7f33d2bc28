//! Where the Windows switcher places a window's thumbnail and its frame.

use alttabio::native_drawing::{font_pixel_height, frame_edges, rgb, NativeRect};
use alttabio::preview::{
    fit_rectangle, inset_rectangle, outset_rectangle, preview_background_frame, preview_host,
    valid_rect,
    window_preview_layout, PreviewPlacement,
};

const fn rect(left: i32, top: i32, right: i32, bottom: i32) -> NativeRect {
    NativeRect {
        left,
        top,
        right,
        bottom,
    }
}

#[test]
fn preview_fit_preserves_aspect_ratio_and_centers() {
    assert_eq!(
        fit_rectangle(rect(100, 50, 900, 850), 1600, 900),
        rect(100, 225, 900, 675)
    );
}

#[test]
fn preview_fit_rejects_empty_input() {
    assert_eq!(
        fit_rectangle(NativeRect::default(), 1600, 900),
        NativeRect::default()
    );
    assert_eq!(
        fit_rectangle(rect(0, 0, 800, 600), 0, 900),
        NativeRect::default()
    );
}

#[test]
fn window_preview_includes_the_non_client_title_bar() {
    let placement = window_preview_layout(rect(100, 50, 900, 850), 1600, 900);

    assert!(!placement.source_client_area_only);
}

#[test]
fn preview_border_stays_inside_the_host() {
    let host = rect(100, 50, 900, 850);
    let content = inset_rectangle(host, 2);
    let preview = fit_rectangle(content, 1600, 900);

    assert_eq!(outset_rectangle(preview, 2, host).left, 100);
    assert_eq!(outset_rectangle(preview, 2, host).right, 900);
    assert!(outset_rectangle(preview, 2, host).top >= host.top);
    assert!(outset_rectangle(preview, 2, host).bottom <= host.bottom);
}

#[test]
fn only_full_desktop_preview_includes_a_background_frame() {
    let host = rect(100, 50, 900, 850);
    let placement = PreviewPlacement::new(
        rect(250, 200, 650, 500),
        rect(120, 180, 880, 720),
        NativeRect::default(),
        false,
    );

    assert_eq!(
        preview_background_frame(placement, true, 2, host),
        Some(rect(118, 178, 882, 722))
    );
    assert_eq!(preview_background_frame(placement, false, 2, host), None);
}

#[test]
fn a_tall_source_takes_the_whole_height_and_centres_across() {
    assert_eq!(
        fit_rectangle(rect(0, 0, 1000, 500), 300, 600),
        rect(375, 0, 625, 500)
    );
    assert_eq!(fit_rectangle(rect(0, 0, 10, 10), 3, 3), rect(0, 0, 10, 10));
    assert_eq!(fit_rectangle(rect(0, 0, 7, 10), 2, 1), rect(0, 3, 7, 6));
}

#[test]
fn a_window_preview_frames_the_fitted_thumbnail() {
    let placement = window_preview_layout(rect(0, 0, 1000, 500), 300, 600);
    assert_eq!(placement.thumbnail_destination, rect(375, 0, 625, 500));
    assert_eq!(placement.frame_content, placement.thumbnail_destination);
    assert!(!valid_rect(placement.source));
    assert!(valid_rect(placement.thumbnail_destination));
    assert_eq!(inset_rectangle(rect(i32::MIN, 0, i32::MAX, 4), 2), rect(i32::MIN + 2, 2, i32::MAX - 2, 2));
}

#[test]
fn the_preview_area_keeps_a_padding_of_a_thirty_second_of_the_shorter_side() {
    assert_eq!(preview_host(1600, 900, 500), rect(556, 28, 1572, 872));
    assert_eq!(preview_host(300, 200, 100), rect(124, 12, 288, 188));
}

#[test]
fn a_frame_paints_four_bands_inside_its_rectangle() {
    let bands = frame_edges(rect(10, 20, 110, 70), 2);
    assert_eq!(
        bands,
        [
            rect(10, 20, 110, 22),
            rect(10, 68, 110, 70),
            rect(10, 20, 12, 70),
            rect(108, 20, 110, 70),
        ]
    );
    assert_eq!(frame_edges(rect(0, 0, 5, 5), 0)[0], rect(0, 0, 5, 1));
}

#[test]
fn font_heights_round_points_at_the_display_density() {
    assert_eq!(font_pixel_height(96, 9), 12);
    assert_eq!(font_pixel_height(144, 9), 18);
    assert_eq!(font_pixel_height(120, 11), 18);
    assert_eq!(font_pixel_height(0, 9), 1);
    assert_eq!(font_pixel_height(u32::MAX, u32::MAX), i32::MAX);
}

#[test]
fn colours_pack_red_in_the_low_byte() {
    assert_eq!(rgb(0x12, 0x34, 0x56), 0x0056_3412);
    assert_eq!(rgb(255, 0, 0), 0xFF);
    assert_eq!(rgb(0, 0, 255), 0x00FF_0000);
}
