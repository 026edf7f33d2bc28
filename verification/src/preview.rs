//! Where the Windows switcher draws a window's live thumbnail: the largest rectangle of the
//! source's proportions centred in the preview area, and the frame around it.

use crate::about_dialog::{quotient_toward_zero, saturated};
use crate::native_drawing::NativeRect;
use vstd::prelude::*;

verus! {

/// Where a thumbnail goes: its destination, the content its frame surrounds, the part of the
/// source it shows (empty for all of it), and whether it leaves out the source's title bar.
#[derive(Clone, Copy, Debug, PartialEq, Eq, Structural)]
pub struct PreviewPlacement {
    pub thumbnail_destination: NativeRect,
    pub frame_content: NativeRect,
    pub source: NativeRect,
    pub source_client_area_only: bool,
}

impl PreviewPlacement {
    pub fn new(
        thumbnail_destination: NativeRect,
        frame_content: NativeRect,
        source: NativeRect,
        source_client_area_only: bool,
    ) -> (placement: Self)
        ensures
            placement == (PreviewPlacement {
                thumbnail_destination,
                frame_content,
                source,
                source_client_area_only,
            }),
    {
        PreviewPlacement { thumbnail_destination, frame_content, source, source_client_area_only }
    }
}

fn saturating_sub(left: i32, right: i32) -> (difference: i32)
    ensures
        difference == saturated(left - right),
{
    let wide = left as i64 - right as i64;
    if wide > i32::MAX as i64 {
        i32::MAX
    } else if wide < i32::MIN as i64 {
        i32::MIN
    } else {
        wide as i32
    }
}

fn saturating_add(left: i32, right: i32) -> (sum: i32)
    ensures
        sum == saturated(left + right),
{
    let wide = left as i64 + right as i64;
    if wide > i32::MAX as i64 {
        i32::MAX
    } else if wide < i32::MIN as i64 {
        i32::MIN
    } else {
        wide as i32
    }
}

/// Whether `rect` encloses any pixel.
pub fn valid_rect(rect: NativeRect) -> (valid: bool)
    ensures
        valid == (rect.right > rect.left && rect.bottom > rect.top),
{
    rect.right > rect.left && rect.bottom > rect.top
}

/// `rect` shrunk by `amount` on every side, its edges held to the range of `i32`.
pub open spec fn inset(rect: NativeRect, amount: i32) -> NativeRect {
    NativeRect {
        left: saturated(rect.left + amount),
        top: saturated(rect.top + amount),
        right: saturated(rect.right - amount),
        bottom: saturated(rect.bottom - amount),
    }
}

/// `rect` shrunk by `amount` on every side.
pub fn inset_rectangle(rect: NativeRect, amount: i32) -> (inner: NativeRect)
    ensures
        inner == inset(rect, amount),
{
    NativeRect {
        left: saturating_add(rect.left, amount),
        top: saturating_add(rect.top, amount),
        right: saturating_sub(rect.right, amount),
        bottom: saturating_sub(rect.bottom, amount),
    }
}

pub open spec fn max_i32(left: i32, right: i32) -> i32 {
    if left >= right {
        left
    } else {
        right
    }
}

pub open spec fn min_i32(left: i32, right: i32) -> i32 {
    if left <= right {
        left
    } else {
        right
    }
}

/// `rect` grown by `amount` on every side but kept within `bounds`.
pub open spec fn outset(rect: NativeRect, amount: i32, bounds: NativeRect) -> NativeRect {
    NativeRect {
        left: max_i32(saturated(rect.left - amount), bounds.left),
        top: max_i32(saturated(rect.top - amount), bounds.top),
        right: min_i32(saturated(rect.right + amount), bounds.right),
        bottom: min_i32(saturated(rect.bottom + amount), bounds.bottom),
    }
}

/// `rect` grown by `amount` on every side but kept within `bounds`.
pub fn outset_rectangle(rect: NativeRect, amount: i32, bounds: NativeRect) -> (outer: NativeRect)
    ensures
        outer == outset(rect, amount, bounds),
{
    let left = saturating_sub(rect.left, amount);
    let top = saturating_sub(rect.top, amount);
    let right = saturating_add(rect.right, amount);
    let bottom = saturating_add(rect.bottom, amount);
    NativeRect {
        left: if left >= bounds.left {
            left
        } else {
            bounds.left
        },
        top: if top >= bounds.top {
            top
        } else {
            bounds.top
        },
        right: if right <= bounds.right {
            right
        } else {
            bounds.right
        },
        bottom: if bottom <= bounds.bottom {
            bottom
        } else {
            bounds.bottom
        },
    }
}

/// The size of the largest rectangle of the source's proportions, `source_width` by
/// `source_height`, that fits `host_width` by `host_height`: it takes the whole width or the
/// whole height, and the other side is rounded down.
pub open spec fn fitted_size(host_width: int, host_height: int, source_width: int, source_height: int) -> (
    int,
    int,
) {
    if host_width * source_height <= host_height * source_width {
        (host_width, source_height * host_width / source_width)
    } else {
        (source_width * host_height / source_height, host_height)
    }
}

/// The largest rectangle of the source's proportions centred in `bounds`; an empty rectangle at
/// the origin where `bounds` or the source is empty.
pub open spec fn fitted(bounds: NativeRect, source_width: i32, source_height: i32) -> NativeRect {
    let host_width = saturated(bounds.right - bounds.left);
    let host_height = saturated(bounds.bottom - bounds.top);
    if host_width <= 0 || host_height <= 0 || source_width <= 0 || source_height <= 0 {
        NativeRect { left: 0, top: 0, right: 0, bottom: 0 }
    } else {
        let (width, height) = fitted_size(
            host_width as int,
            host_height as int,
            source_width as int,
            source_height as int,
        );
        let left = bounds.left + (host_width - width) / 2;
        let top = bounds.top + (host_height - height) / 2;
        NativeRect {
            left: left as i32,
            top: top as i32,
            right: (left + width) as i32,
            bottom: (top + height) as i32,
        }
    }
}

proof fn lemma_fitted_size_fits(host_width: int, host_height: int, source_width: int, source_height: int)
    requires
        host_width > 0,
        host_height > 0,
        source_width > 0,
        source_height > 0,
    ensures
        ({
            let (width, height) = fitted_size(host_width, host_height, source_width, source_height);
            &&& 0 <= width <= host_width
            &&& 0 <= height <= host_height
        }),
{
    if host_width * source_height <= host_height * source_width {
        let height = source_height * host_width / source_width;
        assert(0 <= height <= host_height) by (nonlinear_arith)
            requires
                host_width > 0,
                host_height > 0,
                source_width > 0,
                source_height > 0,
                host_width * source_height <= host_height * source_width,
                height == source_height * host_width / source_width,
        {
            assert(source_height * host_width <= host_height * source_width);
            assert((host_height * source_width) / source_width == host_height);
        }
    } else {
        let width = source_width * host_height / source_height;
        assert(0 <= width <= host_width) by (nonlinear_arith)
            requires
                host_width > 0,
                host_height > 0,
                source_width > 0,
                source_height > 0,
                host_width * source_height > host_height * source_width,
                width == source_width * host_height / source_height,
        {
            assert(source_width * host_height <= host_width * source_height);
            assert((host_width * source_height) / source_height == host_width);
        }
    }
}

/// The largest rectangle of the source's proportions, `source_width` by `source_height`,
/// centred in `bounds`.
pub fn fit_rectangle(bounds: NativeRect, source_width: i32, source_height: i32) -> (fit: NativeRect)
    ensures
        fit == fitted(bounds, source_width, source_height),
{
    let host_width = saturating_sub(bounds.right, bounds.left);
    let host_height = saturating_sub(bounds.bottom, bounds.top);
    if host_width <= 0 || host_height <= 0 || source_width <= 0 || source_height <= 0 {
        return NativeRect { left: 0, top: 0, right: 0, bottom: 0 };
    }
    proof {
        lemma_fitted_size_fits(
            host_width as int,
            host_height as int,
            source_width as int,
            source_height as int,
        );
        assert(host_width * source_height <= 0x7FFF_FFFF * 0x7FFF_FFFF) by (nonlinear_arith)
            requires
                0 < host_width <= 0x7FFF_FFFF,
                0 < source_height <= 0x7FFF_FFFF,
        ;
        assert(host_height * source_width <= 0x7FFF_FFFF * 0x7FFF_FFFF) by (nonlinear_arith)
            requires
                0 < host_height <= 0x7FFF_FFFF,
                0 < source_width <= 0x7FFF_FFFF,
        ;
        assert(source_height * host_width <= 0x7FFF_FFFF * 0x7FFF_FFFF) by (nonlinear_arith)
            requires
                0 < host_width <= 0x7FFF_FFFF,
                0 < source_height <= 0x7FFF_FFFF,
        ;
        assert(source_width * host_height <= 0x7FFF_FFFF * 0x7FFF_FFFF) by (nonlinear_arith)
            requires
                0 < host_height <= 0x7FFF_FFFF,
                0 < source_width <= 0x7FFF_FFFF,
        ;
    }
    let host_width_64 = host_width as i64;
    let host_height_64 = host_height as i64;
    let source_width_64 = source_width as i64;
    let source_height_64 = source_height as i64;
    let (width, height): (i32, i32) = if host_width_64 * source_height_64 <= host_height_64
        * source_width_64 {
        let height = source_height_64 * host_width_64 / source_width_64;
        (host_width, height as i32)
    } else {
        let width = source_width_64 * host_height_64 / source_height_64;
        (width as i32, host_height)
    };
    proof {
        assert(host_width as int <= bounds.right - bounds.left);
        assert(host_height as int <= bounds.bottom - bounds.top);
    }
    let left = bounds.left + (host_width - width) / 2;
    let top = bounds.top + (host_height - height) / 2;
    NativeRect { left, top, right: left + width, bottom: top + height }
}

/// The frame drawn around a full-desktop preview: its content grown by the border, within the
/// preview area `host`; a window preview has none.
pub fn preview_background_frame(
    placement: PreviewPlacement,
    full_desktop: bool,
    border_width: i32,
    host: NativeRect,
) -> (frame: Option<NativeRect>)
    ensures
        frame == if full_desktop {
            Some(outset(placement.frame_content, border_width, host))
        } else {
            None::<NativeRect>
        },
{
    if full_desktop {
        Some(outset_rectangle(placement.frame_content, border_width, host))
    } else {
        None
    }
}

/// Where the thumbnail of a whole window goes in `host`: fitted to the source's proportions, the
/// frame around the same rectangle, all of the source shown with its title bar.
pub fn window_preview_layout(host: NativeRect, source_width: i32, source_height: i32) -> (placement:
    PreviewPlacement)
    ensures
        placement == (PreviewPlacement {
            thumbnail_destination: fitted(host, source_width, source_height),
            frame_content: fitted(host, source_width, source_height),
            source: NativeRect { left: 0, top: 0, right: 0, bottom: 0 },
            source_client_area_only: false,
        }),
{
    let destination = fit_rectangle(host, source_width, source_height);
    PreviewPlacement::new(
        destination,
        destination,
        NativeRect { left: 0, top: 0, right: 0, bottom: 0 },
        false,
    )
}

/// The margin around the preview area in a client area of `width` by `height`: a thirty-second
/// of the shorter side, at least 12 pixels.
pub open spec fn preview_padding(width: i32, height: i32) -> int {
    let shorter = if width <= height {
        width
    } else {
        height
    };
    let share = quotient_toward_zero(shorter as int, 32);
    if share >= 12 {
        share
    } else {
        12
    }
}

/// The preview area in a client area of `width` by `height` whose list ends at `list_right`:
/// right of the list and inside the client area, with the padding on every side and twice the
/// padding between the list and the preview.
pub fn preview_host(width: i32, height: i32, list_right: i32) -> (host: NativeRect)
    requires
        list_right + 2 * preview_padding(width, height) <= i32::MAX,
        width - preview_padding(width, height) >= i32::MIN,
        height - preview_padding(width, height) >= i32::MIN,
    ensures
        host == (NativeRect {
            left: (list_right + 2 * preview_padding(width, height)) as i32,
            top: preview_padding(width, height) as i32,
            right: (width - preview_padding(width, height)) as i32,
            bottom: (height - preview_padding(width, height)) as i32,
        }),
{
    let shorter = if width <= height {
        width
    } else {
        height
    };
    let share = shorter / 32;
    let padding = if share >= 12 {
        share
    } else {
        12
    };
    NativeRect {
        left: list_right + padding * 2,
        top: padding,
        right: width - padding,
        bottom: height - padding,
    }
}

/// A fitted thumbnail lies inside the preview area, takes its whole width or its whole height,
/// is centred along the other to within a pixel, and keeps the source's proportions to within a
/// pixel of the side it rounds.
pub proof fn law_fit_keeps_proportions_inside_the_host(
    bounds: NativeRect,
    source_width: i32,
    source_height: i32,
)
    requires
        bounds.right > bounds.left,
        bounds.bottom > bounds.top,
        source_width > 0,
        source_height > 0,
    ensures
        ({
            let fit = fitted(bounds, source_width, source_height);
            let host_width = saturated(bounds.right - bounds.left);
            let host_height = saturated(bounds.bottom - bounds.top);
            let width = fit.right - fit.left;
            let height = fit.bottom - fit.top;
            let left_margin = fit.left - bounds.left;
            let top_margin = fit.top - bounds.top;
            &&& bounds.left <= fit.left <= fit.right <= bounds.right
            &&& bounds.top <= fit.top <= fit.bottom <= bounds.bottom
            &&& width == host_width || height == host_height
            &&& 0 <= (host_width - width - left_margin) - left_margin <= 1
            &&& 0 <= (host_height - height - top_margin) - top_margin <= 1
            &&& width == host_width ==> height * source_width <= source_height * width < (height
                + 1) * source_width
            &&& width != host_width ==> width * source_height <= source_width * height < (width
                + 1) * source_height
        }),
{
    let host_width = saturated(bounds.right - bounds.left);
    let host_height = saturated(bounds.bottom - bounds.top);
    let (sw, sh) = (source_width as int, source_height as int);
    lemma_fitted_size_fits(host_width as int, host_height as int, sw, sh);
    if host_width * sh <= host_height * sw {
        let height = sh * host_width / sw;
        assert(height * sw <= sh * host_width < (height + 1) * sw) by (nonlinear_arith)
            requires
                sw > 0,
                height == sh * host_width / sw,
        {
            assert(sh * host_width == sw * (sh * host_width / sw) + (sh * host_width) % sw);
        }
    } else {
        let width = sw * host_height / sh;
        assert(width * sh <= sw * host_height < (width + 1) * sh) by (nonlinear_arith)
            requires
                sh > 0,
                width == sw * host_height / sh,
        {
            assert(sw * host_height == sh * (sw * host_height / sh) + (sw * host_height) % sh);
        }
    }
}

} // verus!
