//! The Direct2D list's render target, layout density and native theme.

use alttabio::native_theme::{preferred_app_mode, supports_set_preferred_app_mode, PreferredAppMode};
use alttabio::overlay_layout::layout_dpi;
use alttabio::renderer::{
    render_target_update, CloseButtonVisualState, RenderOptions, RenderTargetMetrics,
    RenderTargetUpdate, TaskListHit,
};
use alttabio::settings::Settings;

#[test]
fn display_reconnect_recreates_target_when_dpi_changes_with_the_bounds() {
    let before = RenderTargetMetrics {
        pixel_width: 2_400,
        pixel_height: 1_350,
        dpi: 168,
    };
    let after = RenderTargetMetrics {
        pixel_width: 2_048,
        pixel_height: 1_152,
        dpi: 144,
    };

    assert_eq!(
        render_target_update(before, after),
        RenderTargetUpdate::Recreate
    );
}

#[test]
fn orientation_change_resizes_target_when_dpi_is_unchanged() {
    let landscape = RenderTargetMetrics {
        pixel_width: 1_200,
        pixel_height: 675,
        dpi: 144,
    };
    let portrait = RenderTargetMetrics {
        pixel_width: 675,
        pixel_height: 1_200,
        dpi: 144,
    };

    assert_eq!(
        render_target_update(landscape, portrait),
        RenderTargetUpdate::Resize
    );
    assert_eq!(
        render_target_update(portrait, portrait),
        RenderTargetUpdate::Unchanged
    );
}

#[test]
fn native_app_modes_follow_the_resolved_theme() {
    assert_eq!(preferred_app_mode(true), PreferredAppMode::ForceDark);
    assert_eq!(preferred_app_mode(false), PreferredAppMode::ForceLight);
    assert!(!supports_set_preferred_app_mode(18_361));
    assert!(supports_set_preferred_app_mode(18_362));
}

#[test]
fn app_modes_carry_the_system_values() {
    assert_eq!(PreferredAppMode::ForceDark.code(), 2);
    assert_eq!(PreferredAppMode::ForceLight.code(), 3);
}

#[test]
fn layout_density_is_held_between_the_base_and_the_cap() {
    assert_eq!(layout_dpi(0), 96);
    assert_eq!(layout_dpi(95), 96);
    assert_eq!(layout_dpi(120), 120);
    assert_eq!(layout_dpi(168), 168);
    assert_eq!(layout_dpi(192), 168);
    assert_eq!(layout_dpi(u32::MAX), 168);
}

#[test]
fn render_options_read_the_appearance_switches() {
    let mut settings = Settings::default();
    settings.appearance.show_app_names = true;
    settings.appearance.large_icons = false;
    let options = RenderOptions::from(&settings.appearance);

    assert_eq!(
        options,
        RenderOptions {
            visible_borders: false,
            show_numbers: true,
            show_app_names: true,
            compact_list: true,
            large_icons: false,
        }
    );
}

#[test]
fn hits_report_the_row_they_land_on() {
    assert_eq!(TaskListHit::Task(3).position(), 3);
    assert_eq!(TaskListHit::CloseButton(7).position(), 7);
    assert_eq!(CloseButtonVisualState::default(), CloseButtonVisualState::Normal);
}
