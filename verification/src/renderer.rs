//! What the Direct2D task list decides without drawing: when its render target must be rebuilt,
//! which appearance switches a render pass reads, and what a click on the list hit.

use crate::settings::AppearanceSettings;
use vstd::prelude::*;

verus! {

/// The size and density a render target was made for.
#[derive(Clone, Copy, Debug, PartialEq, Eq, Structural)]
pub struct RenderTargetMetrics {
    pub pixel_width: u32,
    pub pixel_height: u32,
    pub dpi: u16,
}

/// What becomes of the render target when its window's metrics change.
#[derive(Clone, Copy, Debug, PartialEq, Eq, Structural)]
pub enum RenderTargetUpdate {
    Unchanged,
    Resize,
    Recreate,
}

/// What the render target needs to go from `current` to `next`: a new target for a new density,
/// a resize for new bounds, else nothing.
pub open spec fn target_update(
    current: RenderTargetMetrics,
    next: RenderTargetMetrics,
) -> RenderTargetUpdate {
    if current.dpi != next.dpi {
        RenderTargetUpdate::Recreate
    } else if current.pixel_width != next.pixel_width || current.pixel_height
        != next.pixel_height {
        RenderTargetUpdate::Resize
    } else {
        RenderTargetUpdate::Unchanged
    }
}

/// What the render target needs to go from `current` to `next`.
pub fn render_target_update(current: RenderTargetMetrics, next: RenderTargetMetrics) -> (update:
    RenderTargetUpdate)
    ensures
        update == target_update(current, next),
{
    if current.dpi != next.dpi {
        RenderTargetUpdate::Recreate
    } else if current.pixel_width != next.pixel_width || current.pixel_height
        != next.pixel_height {
        RenderTargetUpdate::Resize
    } else {
        RenderTargetUpdate::Unchanged
    }
}

/// The appearance switches that one render pass reads.
#[derive(Clone, Copy, Debug, PartialEq, Eq, Structural)]
pub struct RenderOptions {
    pub visible_borders: bool,
    pub show_numbers: bool,
    pub show_app_names: bool,
    pub compact_list: bool,
    pub large_icons: bool,
}

impl From<&AppearanceSettings> for RenderOptions {
    fn from(settings: &AppearanceSettings) -> (options: Self) {
        RenderOptions {
            visible_borders: settings.visible_borders,
            show_numbers: settings.show_numbers,
            show_app_names: settings.show_app_names,
            compact_list: settings.compact_list,
            large_icons: settings.large_icons,
        }
    }
}

impl vstd::std_specs::convert::FromSpecImpl<&AppearanceSettings> for RenderOptions {
    open spec fn obeys_from_spec() -> bool {
        true
    }

    open spec fn from_spec(settings: &AppearanceSettings) -> RenderOptions {
        RenderOptions {
            visible_borders: settings.visible_borders,
            show_numbers: settings.show_numbers,
            show_app_names: settings.show_app_names,
            compact_list: settings.compact_list,
            large_icons: settings.large_icons,
        }
    }
}

/// The look of a row's close button.
#[derive(Clone, Copy, Debug, PartialEq, Eq, Structural)]
pub enum CloseButtonVisualState {
    Normal,
    Hovered,
    Pressed,
}

impl Default for CloseButtonVisualState {
    fn default() -> (state: Self)
        ensures
            state == CloseButtonVisualState::Normal,
    {
        CloseButtonVisualState::Normal
    }
}

/// What a point of the task list hits: a task's row, or the close button on it.
#[derive(Clone, Copy, Debug, PartialEq, Eq, Structural)]
pub enum TaskListHit {
    Task(usize),
    CloseButton(usize),
}

impl TaskListHit {
    /// The visible position of the row that was hit.
    pub fn position(self) -> (position: usize)
        ensures
            position == match self {
                TaskListHit::Task(position) => position,
                TaskListHit::CloseButton(position) => position,
            },
    {
        match self {
            TaskListHit::Task(position) => position,
            TaskListHit::CloseButton(position) => position,
        }
    }
}

} // verus!
