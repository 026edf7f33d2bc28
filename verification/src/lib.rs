//! Input state machines, app-first switching and portable settings of a desktop window switcher.

pub mod about_dialog;
pub mod app_icon;
pub mod app_switcher;
pub mod deferred_switch;
pub mod hook;
pub mod input;
pub mod native_drawing;
pub mod macos;
pub mod native_theme;
pub mod overlay_layout;
pub mod passthrough;
pub mod preview;
pub mod renderer;
pub mod seq_util;
pub mod settings;
pub mod switcher;
pub mod text;
