//! The About dialog: where its icon, text column, footer and close button stand at a given
//! client size and display density, where the window opens, and how it answers the pointer and
//! the keyboard.

use vstd::prelude::*;

verus! {

/// The window class of the About dialog.
pub const WINDOW_CLASS_NAME: &'static str = "AltTabioRustAbout";

/// The project's page.
pub const REPOSITORY_URL: &'static str = "https://github.com/vibeslop/AltTabio";

/// The project's page as the dialog shows it.
pub const REPOSITORY_LABEL: &'static str = "github.com/vibeslop/AltTabio";

/// The client width of the dialog at the base density.
pub const CLIENT_WIDTH: i32 = 430;

/// The client height of the dialog at the base density.
pub const CLIENT_HEIGHT: i32 = 344;

/// The margin on either side of the text column at the base density.
pub const CONTENT_HORIZONTAL_MARGIN: i32 = 94;

/// The density that the dialog's measures are given at.
pub const BASE_DPI: u32 = 96;

/// `value` held to the range of `i32`.
pub open spec fn saturated(value: int) -> i32 {
    if value > i32::MAX {
        i32::MAX
    } else if value < i32::MIN {
        i32::MIN
    } else {
        value as i32
    }
}

/// `numerator / divisor` rounded toward zero, as integer division in Rust rounds.
pub open spec fn quotient_toward_zero(numerator: int, divisor: int) -> int {
    if numerator >= 0 {
        numerator / divisor
    } else {
        -((-numerator) / divisor)
    }
}

fn saturating_sub(left: i32, right: i32) -> (difference: i32)
    ensures
        difference == saturated(left - right),
{
    let wide = left as i64 - right as i64;
    if wide > i32::MAX as i64 {
        i32::MAX
    } else if wide < i32::MIN as i64 {
        i32::MIN
    } else {
        wide as i32
    }
}

fn saturating_add(left: i32, right: i32) -> (sum: i32)
    ensures
        sum == saturated(left + right),
{
    let wide = left as i64 + right as i64;
    if wide > i32::MAX as i64 {
        i32::MAX
    } else if wide < i32::MIN as i64 {
        i32::MIN
    } else {
        wide as i32
    }
}

fn half(value: i32) -> (result: i32)
    ensures
        result == quotient_toward_zero(value as int, 2),
{
    if value >= 0 {
        value / 2
    } else {
        let magnitude = -(value as i64);
        -(magnitude / 2) as i32
    }
}

fn smaller(left: i32, right: i32) -> (result: i32)
    ensures
        result == if left <= right {
            left
        } else {
            right
        },
{
    if left <= right {
        left
    } else {
        right
    }
}

/// A measure given at the base density, at `dpi`, rounded to the nearest pixel; `i32::MAX` where
/// the result leaves the range of `i32`.
pub open spec fn scaled(value: i32, dpi: u32) -> i32 {
    let quotient = quotient_toward_zero(value * dpi + BASE_DPI / 2, BASE_DPI as int);
    if i32::MIN <= quotient <= i32::MAX {
        quotient as i32
    } else {
        i32::MAX
    }
}

/// A measure given at the base density, at `dpi`.
pub fn scale(value: i32, dpi: u32) -> (pixels: i32)
    ensures
        pixels == scaled(value, dpi),
{
    proof {
        assert(-0x8000_0000 * 0xFFFF_FFFF <= value * dpi <= 0x7FFF_FFFF * 0xFFFF_FFFF) by (
        nonlinear_arith)
            requires
                i32::MIN <= value <= i32::MAX,
                0 <= dpi <= u32::MAX,
        ;
    }
    let numerator = value as i64 * dpi as i64 + (BASE_DPI / 2) as i64;
    let quotient = if numerator >= 0 {
        numerator / BASE_DPI as i64
    } else {
        -((-numerator) / BASE_DPI as i64)
    };
    if i32::MIN as i64 <= quotient && quotient <= i32::MAX as i64 {
        quotient as i32
    } else {
        i32::MAX
    }
}

/// A rectangle of the dialog's client area, in pixels.
#[derive(Clone, Copy, Debug, PartialEq, Eq, Structural)]
pub struct Rect {
    pub x: i32,
    pub y: i32,
    pub width: i32,
    pub height: i32,
}

impl Rect {
    pub fn new(x: i32, y: i32, width: i32, height: i32) -> (rect: Self)
        ensures
            rect == (Rect { x, y, width, height }),
    {
        Rect { x, y, width, height }
    }

    /// The left, top, right and bottom edges, the far ones held to the range of `i32`.
    pub fn edges(self) -> (edges: (i32, i32, i32, i32))
        ensures
            edges == (self.x, self.y, saturated(self.x + self.width), saturated(self.y + self.height)),
    {
        (self.x, self.y, saturating_add(self.x, self.width), saturating_add(self.y, self.height))
    }

    /// Whether the point (`x`, `y`) lies in the rectangle, its far edges excluded.
    pub fn contains(self, x: i32, y: i32) -> (inside: bool)
        ensures
            inside == (x >= self.x && x < saturated(self.x + self.width) && y >= self.y && y
                < saturated(self.y + self.height)),
    {
        x >= self.x && x < saturating_add(self.x, self.width) && y >= self.y && y < saturating_add(
            self.y,
            self.height,
        )
    }
}

/// Where each part of the About dialog stands.
#[derive(Clone, Copy, Debug, PartialEq, Eq, Structural)]
pub struct AboutLayout {
    pub icon: Rect,
    pub title: Rect,
    pub version: Rect,
    pub description: Rect,
    pub repository: Rect,
    pub copyright: Rect,
    pub license: Rect,
    pub footer: Rect,
    pub close_button: Rect,
}

pub open spec fn min_i32(left: i32, right: i32) -> i32 {
    if left <= right {
        left
    } else {
        right
    }
}

/// The text rows of the column, each at its top and height at the base density.
pub open spec fn text_row(client_width: i32, dpi: u32, top: i32, height: i32) -> Rect {
    let left = scaled(CONTENT_HORIZONTAL_MARGIN, dpi);
    Rect {
        x: left,
        y: scaled(top, dpi),
        width: saturated(client_width - saturated(left * 2)),
        height: scaled(height, dpi),
    }
}

/// The layout of a client area of `client_width` by `client_height` at `dpi`: a footer of
/// 76 base pixels along the bottom with the close button centred in it 20 base pixels from the
/// right edge, the icon at the top left, and the text rows in a column with equal margins.
pub open spec fn about_layout(client_width: i32, client_height: i32, dpi: u32) -> AboutLayout {
    let footer_height = min_i32(scaled(76, dpi), client_height);
    let footer_top = saturated(client_height - footer_height);
    let button_width = min_i32(scaled(116, dpi), client_width);
    let button_height = min_i32(scaled(42, dpi), footer_height);
    let right_padding = scaled(20, dpi);
    let button_y = saturated(
        footer_top + quotient_toward_zero(saturated(footer_height - button_height) as int, 2),
    );
    AboutLayout {
        icon: Rect { x: scaled(20, dpi), y: scaled(18, dpi), width: scaled(48, dpi), height: scaled(48, dpi) },
        title: text_row(client_width, dpi, 20, 38),
        version: text_row(client_width, dpi, 68, 28),
        description: text_row(client_width, dpi, 104, 28),
        repository: text_row(client_width, dpi, 140, 30),
        copyright: text_row(client_width, dpi, 184, 28),
        license: text_row(client_width, dpi, 214, 28),
        footer: Rect { x: 0, y: footer_top, width: client_width, height: footer_height },
        close_button: Rect {
            x: saturated(saturated(client_width - right_padding) - button_width),
            y: button_y,
            width: button_width,
            height: button_height,
        },
    }
}

fn saturating_double(value: i32) -> (doubled: i32)
    ensures
        doubled == saturated(value * 2),
{
    let wide = value as i64 * 2;
    if wide > i32::MAX as i64 {
        i32::MAX
    } else if wide < i32::MIN as i64 {
        i32::MIN
    } else {
        wide as i32
    }
}

fn text_row_at(client_width: i32, dpi: u32, top: i32, height: i32) -> (row: Rect)
    ensures
        row == text_row(client_width, dpi, top, height),
{
    let left = scale(CONTENT_HORIZONTAL_MARGIN, dpi);
    Rect::new(
        left,
        scale(top, dpi),
        saturating_sub(client_width, saturating_double(left)),
        scale(height, dpi),
    )
}

impl AboutLayout {
    /// The layout of a client area of `client_width` by `client_height` at `dpi`.
    pub fn new(client_width: i32, client_height: i32, dpi: u32) -> (layout: Self)
        ensures
            layout == about_layout(client_width, client_height, dpi),
    {
        let footer_height = smaller(scale(76, dpi), client_height);
        let footer_top = saturating_sub(client_height, footer_height);
        let button_width = smaller(scale(116, dpi), client_width);
        let button_height = smaller(scale(42, dpi), footer_height);
        let right_padding = scale(20, dpi);
        let button_y = saturating_add(
            footer_top,
            half(saturating_sub(footer_height, button_height)),
        );
        AboutLayout {
            icon: Rect::new(scale(20, dpi), scale(18, dpi), scale(48, dpi), scale(48, dpi)),
            title: text_row_at(client_width, dpi, 20, 38),
            version: text_row_at(client_width, dpi, 68, 28),
            description: text_row_at(client_width, dpi, 104, 28),
            repository: text_row_at(client_width, dpi, 140, 30),
            copyright: text_row_at(client_width, dpi, 184, 28),
            license: text_row_at(client_width, dpi, 214, 28),
            footer: Rect::new(0, footer_top, client_width, footer_height),
            close_button: Rect::new(
                saturating_sub(saturating_sub(client_width, right_padding), button_width),
                button_y,
                button_width,
                button_height,
            ),
        }
    }
}


proof fn lemma_scaled_nonnegative(value: i32, dpi: u32)
    requires
        value >= 0,
    ensures
        scaled(value, dpi) >= 0,
{
    assert(value * dpi >= 0) by (nonlinear_arith)
        requires
            value >= 0,
            dpi >= 0,
    ;
}

/// Wherever the column fits in the client area, each text row has margins of the same width on
/// its left and its right, and so lies inside the client area.
pub proof fn law_text_column_has_equal_margins(client_width: i32, dpi: u32, top: i32, height: i32)
    requires
        2 * scaled(CONTENT_HORIZONTAL_MARGIN, dpi) <= client_width,
    ensures
        ({
            let row = text_row(client_width, dpi, top, height);
            &&& row.x >= 0
            &&& row.x == client_width - (row.x + row.width)
            &&& row.x + row.width <= client_width
        }),
{
    lemma_scaled_nonnegative(CONTENT_HORIZONTAL_MARGIN, dpi);
}

/// Wherever the close button and its padding fit beside each other, the button lies inside the
/// client area and inside the footer.
pub proof fn law_close_button_stays_inside(client_width: i32, client_height: i32, dpi: u32)
    requires
        client_height >= 0,
        scaled(20, dpi) + min_i32(scaled(116, dpi), client_width) <= client_width,
    ensures
        ({
            let layout = about_layout(client_width, client_height, dpi);
            let button = layout.close_button;
            &&& button.x >= 0
            &&& button.x + button.width <= client_width
            &&& button.y >= layout.footer.y
            &&& button.y + button.height <= client_height
            &&& layout.footer.y + layout.footer.height == client_height
        }),
{
    lemma_scaled_nonnegative(20, dpi);
    lemma_scaled_nonnegative(116, dpi);
    lemma_scaled_nonnegative(42, dpi);
    lemma_scaled_nonnegative(76, dpi);
}


/// Where a window of `width` by `height` goes to stand centred in the work area whose edges are
/// `left`, `top`, `right` and `bottom`, each step held to the range of `i32`.
pub open spec fn centred_origin(
    left: i32,
    top: i32,
    right: i32,
    bottom: i32,
    width: i32,
    height: i32,
) -> (i32, i32) {
    (
        saturated(left + quotient_toward_zero(saturated(saturated(right - left) - width) as int, 2)),
        saturated(top + quotient_toward_zero(saturated(saturated(bottom - top) - height) as int, 2)),
    )
}

/// Where a window of `width` by `height` goes to stand centred in the work area whose edges are
/// `left`, `top`, `right` and `bottom`.
pub fn centered_origin(
    left: i32,
    top: i32,
    right: i32,
    bottom: i32,
    width: i32,
    height: i32,
) -> (origin: (i32, i32))
    ensures
        origin == centred_origin(left, top, right, bottom, width, height),
{
    (
        saturating_add(left, half(saturating_sub(saturating_sub(right, left), width))),
        saturating_add(top, half(saturating_sub(saturating_sub(bottom, top), height))),
    )
}

/// A window that fits the work area stands inside it, with margins that differ by at most a
/// pixel on either axis.
pub proof fn law_centred_window_stays_in_the_work_area(
    left: i32,
    top: i32,
    right: i32,
    bottom: i32,
    width: i32,
    height: i32,
)
    requires
        0 <= width <= right - left <= i32::MAX,
        0 <= height <= bottom - top <= i32::MAX,
    ensures
        ({
            let (x, y) = centred_origin(left, top, right, bottom, width, height);
            &&& left <= x && x + width <= right
            &&& top <= y && y + height <= bottom
            &&& 0 <= (right - (x + width)) - (x - left) <= 1
            &&& 0 <= (bottom - (y + height)) - (y - top) <= 1
        }),
{
}

/// The virtual key of Escape.
pub const ESCAPE_KEY: u32 = 0x1B;

/// The virtual key of Enter.
pub const ENTER_KEY: u32 = 0x0D;

/// The lowest density the dialog follows when the display density changes.
pub const MIN_DPI: u32 = 48;

/// The 16-bit word `word` read as a signed number.
pub open spec fn signed_word(word: int) -> i32 {
    if word >= 0x8000 {
        (word - 0x1_0000) as i32
    } else {
        word as i32
    }
}

/// The point that a pointer message carries in its packed parameter: the low word is `x`, the
/// next word is `y`, each a signed 16-bit number.
pub fn point_from_packed(packed: usize) -> (point: (i32, i32))
    ensures
        point == (signed_word(packed as int % 0x1_0000), signed_word(
            (packed as int / 0x1_0000) % 0x1_0000,
        )),
{
    let low = (packed % 0x1_0000) as i32;
    let high = ((packed / 0x1_0000) % 0x1_0000) as i32;
    let x: i32 = if low >= 0x8000 {
        low - 0x1_0000
    } else {
        low
    };
    let y: i32 = if high >= 0x8000 {
        high - 0x1_0000
    } else {
        high
    };
    (x, y)
}

/// The density that a density change carries in the low word of its parameter, never below
/// `MIN_DPI`.
pub fn dpi_from_change(packed: usize) -> (dpi: u32)
    ensures
        dpi == if packed as int % 0x1_0000 >= MIN_DPI {
            packed as int % 0x1_0000
        } else {
            MIN_DPI as int
        },
{
    let low = (packed % 0x1_0000) as u32;
    if low >= MIN_DPI {
        low
    } else {
        MIN_DPI
    }
}

/// What the user does to the About dialog.
#[derive(Clone, Copy, Debug, PartialEq, Eq, Structural)]
pub enum DialogInput {
    /// The left button went down at a point of the client area.
    LeftButtonDown { x: i32, y: i32 },
    /// The left button came up at a point of the client area.
    LeftButtonUp { x: i32, y: i32 },
    /// The dialog lost the pointer capture.
    CaptureChanged,
    /// A key went down.
    KeyDown { virtual_key: u32 },
    /// The window was asked to close.
    CloseRequested,
}

/// What the dialog does in answer.
#[derive(Clone, Copy, Debug, PartialEq, Eq, Structural)]
pub enum DialogReaction {
    /// Nothing changes.
    Nothing,
    /// Take the pointer capture and redraw the pressed close button.
    CaptureAndRedraw,
    /// Redraw the close button, now released.
    Redraw,
    /// Let the capture go and redraw the close button, now released.
    ReleaseAndRedraw,
    /// Let the capture go and close the dialog.
    ReleaseAndClose,
    /// Close the dialog.
    Close,
}

/// The dialog's pointer state: whether the close button is held down, and whether the user asked
/// for the project's page (which opens once the dialog has closed).
#[derive(Clone, Copy, Debug, PartialEq, Eq, Structural)]
pub struct DialogPointer {
    pub close_pressed: bool,
    pub open_repository_requested: bool,
}

/// The pointer state after `input` in a dialog laid out as `layout`, and the dialog's reaction.
pub open spec fn dialog_step(pointer: DialogPointer, layout: AboutLayout, input: DialogInput) -> (
    DialogPointer,
    DialogReaction,
) {
    match input {
        DialogInput::LeftButtonDown { x, y } => {
            if inside(layout.close_button, x, y) {
                (DialogPointer { close_pressed: true, ..pointer }, DialogReaction::CaptureAndRedraw)
            } else {
                (pointer, DialogReaction::Nothing)
            }
        },
        DialogInput::LeftButtonUp { x, y } => {
            if pointer.close_pressed {
                (
                    DialogPointer { close_pressed: false, ..pointer },
                    if inside(layout.close_button, x, y) {
                        DialogReaction::ReleaseAndClose
                    } else {
                        DialogReaction::ReleaseAndRedraw
                    },
                )
            } else if inside(layout.repository, x, y) {
                (
                    DialogPointer { open_repository_requested: true, ..pointer },
                    DialogReaction::Close,
                )
            } else {
                (pointer, DialogReaction::Nothing)
            }
        },
        DialogInput::CaptureChanged => {
            if pointer.close_pressed {
                (DialogPointer { close_pressed: false, ..pointer }, DialogReaction::Redraw)
            } else {
                (pointer, DialogReaction::Nothing)
            }
        },
        DialogInput::KeyDown { virtual_key } => {
            if virtual_key == ESCAPE_KEY || virtual_key == ENTER_KEY {
                (pointer, DialogReaction::Close)
            } else {
                (pointer, DialogReaction::Nothing)
            }
        },
        DialogInput::CloseRequested => (pointer, DialogReaction::Close),
    }
}

/// Whether the point (`x`, `y`) lies in `rect`, as `Rect::contains` decides.
pub open spec fn inside(rect: Rect, x: i32, y: i32) -> bool {
    x >= rect.x && x < saturated(rect.x + rect.width) && y >= rect.y && y < saturated(
        rect.y + rect.height,
    )
}

impl DialogPointer {
    /// A dialog that has just opened: nothing pressed, nothing requested.
    pub fn new() -> (pointer: Self)
        ensures
            !pointer.close_pressed,
            !pointer.open_repository_requested,
    {
        DialogPointer { close_pressed: false, open_repository_requested: false }
    }

    /// Takes `input` in a dialog laid out as `layout` and says what the dialog does.
    pub fn respond(&mut self, layout: &AboutLayout, input: DialogInput) -> (reaction:
        DialogReaction)
        ensures
            (*final(self), reaction) == dialog_step(*old(self), *layout, input),
    {
        match input {
            DialogInput::LeftButtonDown { x, y } => {
                if layout.close_button.contains(x, y) {
                    self.close_pressed = true;
                    DialogReaction::CaptureAndRedraw
                } else {
                    DialogReaction::Nothing
                }
            },
            DialogInput::LeftButtonUp { x, y } => {
                if self.close_pressed {
                    self.close_pressed = false;
                    if layout.close_button.contains(x, y) {
                        DialogReaction::ReleaseAndClose
                    } else {
                        DialogReaction::ReleaseAndRedraw
                    }
                } else if layout.repository.contains(x, y) {
                    self.open_repository_requested = true;
                    DialogReaction::Close
                } else {
                    DialogReaction::Nothing
                }
            },
            DialogInput::CaptureChanged => {
                if self.close_pressed {
                    self.close_pressed = false;
                    DialogReaction::Redraw
                } else {
                    DialogReaction::Nothing
                }
            },
            DialogInput::KeyDown { virtual_key } => {
                if virtual_key == ESCAPE_KEY || virtual_key == ENTER_KEY {
                    DialogReaction::Close
                } else {
                    DialogReaction::Nothing
                }
            },
            DialogInput::CloseRequested => DialogReaction::Close,
        }
    }
}

/// A press and a release on the close button close the dialog; a press on it released
/// anywhere else only redraws it, and leaves nothing pressed.
pub proof fn law_close_button_needs_press_and_release(
    pointer: DialogPointer,
    layout: AboutLayout,
    down_x: i32,
    down_y: i32,
    up_x: i32,
    up_y: i32,
)
    requires
        inside(layout.close_button, down_x, down_y),
    ensures
        ({
            let (pressed, first) = dialog_step(
                pointer,
                layout,
                DialogInput::LeftButtonDown { x: down_x, y: down_y },
            );
            let (released, second) = dialog_step(
                pressed,
                layout,
                DialogInput::LeftButtonUp { x: up_x, y: up_y },
            );
            &&& first == DialogReaction::CaptureAndRedraw
            &&& !released.close_pressed
            &&& released.open_repository_requested == pointer.open_repository_requested
            &&& second == if inside(layout.close_button, up_x, up_y) {
                DialogReaction::ReleaseAndClose
            } else {
                DialogReaction::ReleaseAndRedraw
            }
        }),
{
}

/// Once the capture is lost, a held close button is released, and the release of the button
/// that follows closes the dialog only where it lands on the project's page.
pub proof fn law_lost_capture_cancels_the_close_press(
    pointer: DialogPointer,
    layout: AboutLayout,
    x: i32,
    y: i32,
)
    ensures
        ({
            let (cancelled, _) = dialog_step(pointer, layout, DialogInput::CaptureChanged);
            let (after, reaction) = dialog_step(
                cancelled,
                layout,
                DialogInput::LeftButtonUp { x, y },
            );
            &&& !cancelled.close_pressed
            &&& (reaction == DialogReaction::Close) == inside(layout.repository, x, y)
            &&& reaction != DialogReaction::ReleaseAndClose
            &&& after.open_repository_requested == (pointer.open_repository_requested || inside(
                layout.repository,
                x,
                y,
            ))
        }),
{
}

/// The project's page is asked for only by a release on its row while the close button is not
/// held, and a request once made is never withdrawn.
pub proof fn law_repository_request_is_kept(
    pointer: DialogPointer,
    layout: AboutLayout,
    input: DialogInput,
)
    ensures
        ({
            let (after, _) = dialog_step(pointer, layout, input);
            &&& pointer.open_repository_requested ==> after.open_repository_requested
            &&& (!pointer.open_repository_requested && after.open_repository_requested) ==> (
            !pointer.close_pressed && exists|x: i32, y: i32|
                input == (DialogInput::LeftButtonUp { x, y }) && inside(layout.repository, x, y))
        }),
{
    if !pointer.open_repository_requested && dialog_step(pointer, layout, input).0.open_repository_requested {
        match input {
            DialogInput::LeftButtonUp { x, y } => {
                assert(input == (DialogInput::LeftButtonUp { x, y }));
            },
            _ => {},
        }
    }
}

} // verus!
