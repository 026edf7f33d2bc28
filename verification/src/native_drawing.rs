//! The integer parts of drawing with GDI: rectangles by their edges, the four bands of a frame,
//! font heights from point sizes, and packed colours.

use crate::about_dialog::saturated;
use vstd::prelude::*;

verus! {

/// A rectangle in physical pixels, by its edges; the right and bottom edges are excluded.
#[derive(Clone, Copy, Debug, Default, PartialEq, Eq, Structural)]
pub struct NativeRect {
    pub left: i32,
    pub top: i32,
    pub right: i32,
    pub bottom: i32,
}

/// The four bands of a frame of `thickness` (at least one pixel) drawn just inside `rect`: top,
/// bottom, left and right, each edge held to the range of `i32`.
pub open spec fn frame_bands(rect: NativeRect, thickness: i32) -> [NativeRect; 4] {
    let width = if thickness >= 1 {
        thickness
    } else {
        1
    };
    [
        NativeRect { bottom: saturated(rect.top + width), ..rect },
        NativeRect { top: saturated(rect.bottom - width), ..rect },
        NativeRect { right: saturated(rect.left + width), ..rect },
        NativeRect { left: saturated(rect.right - width), ..rect },
    ]
}

fn saturating_add(left: i32, right: i32) -> (sum: i32)
    ensures
        sum == saturated(left + right),
{
    let wide = left as i64 + right as i64;
    if wide > i32::MAX as i64 {
        i32::MAX
    } else if wide < i32::MIN as i64 {
        i32::MIN
    } else {
        wide as i32
    }
}

fn saturating_sub(left: i32, right: i32) -> (difference: i32)
    ensures
        difference == saturated(left - right),
{
    let wide = left as i64 - right as i64;
    if wide > i32::MAX as i64 {
        i32::MAX
    } else if wide < i32::MIN as i64 {
        i32::MIN
    } else {
        wide as i32
    }
}

/// The four bands that a frame of `thickness` paints inside `rect`.
pub fn frame_edges(rect: NativeRect, thickness: i32) -> (bands: [NativeRect; 4])
    ensures
        bands == frame_bands(rect, thickness),
{
    let width = if thickness >= 1 {
        thickness
    } else {
        1
    };
    [
        NativeRect { bottom: saturating_add(rect.top, width), ..rect },
        NativeRect { top: saturating_sub(rect.bottom, width), ..rect },
        NativeRect { right: saturating_add(rect.left, width), ..rect },
        NativeRect { left: saturating_sub(rect.right, width), ..rect },
    ]
}

/// The pixel height of a font of `points` at `dpi`, rounded to the nearest pixel, at least one
/// pixel and at most `i32::MAX`.
pub open spec fn point_pixels(dpi: u32, points: u32) -> i32 {
    let height = (points * dpi + 36) / 72;
    if height > i32::MAX {
        i32::MAX
    } else if height < 1 {
        1
    } else {
        height as i32
    }
}

/// The pixel height of a font of `points` at `dpi`.
pub fn font_pixel_height(dpi: u32, points: u32) -> (height: i32)
    ensures
        height == point_pixels(dpi, points),
{
    proof {
        assert(points * dpi <= 0xFFFF_FFFF * 0xFFFF_FFFF) by (nonlinear_arith)
            requires
                points <= 0xFFFF_FFFF,
                dpi <= 0xFFFF_FFFF,
        ;
    }
    let height = (points as u64 * dpi as u64 + 36) / 72;
    if height > i32::MAX as u64 {
        i32::MAX
    } else if height < 1 {
        1
    } else {
        height as i32
    }
}

/// A colour packed as Windows takes it: red in the low byte, then green, then blue.
pub fn rgb(red: u8, green: u8, blue: u8) -> (color: u32)
    ensures
        color == red + green * 0x100 + blue * 0x1_0000,
{
    let color = red as u32 | (green as u32) << 8 | (blue as u32) << 16;
    assert(color == red + green * 0x100 + blue * 0x1_0000) by (bit_vector)
        requires
            color == red as u32 | (green as u32) << 8 | (blue as u32) << 16,
    ;
    color
}

/// A frame of positive thickness that fits its rectangle paints only inside it, and its bands
/// meet the rectangle's four edges.
pub proof fn law_frame_bands_stay_inside(rect: NativeRect, thickness: i32)
    requires
        rect.left <= rect.right,
        rect.top <= rect.bottom,
        1 <= thickness,
        thickness <= rect.right - rect.left,
        thickness <= rect.bottom - rect.top,
    ensures
        forall|i: int|
            0 <= i < 4 ==> {
                let band = #[trigger] frame_bands(rect, thickness)[i];
                &&& rect.left <= band.left <= band.right <= rect.right
                &&& rect.top <= band.top <= band.bottom <= rect.bottom
            },
        frame_bands(rect, thickness)[0].top == rect.top,
        frame_bands(rect, thickness)[1].bottom == rect.bottom,
        frame_bands(rect, thickness)[2].left == rect.left,
        frame_bands(rect, thickness)[3].right == rect.right,
{
}

} // verus!
