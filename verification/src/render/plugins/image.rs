//! Still pictures: how a picture is fitted into its area.

use crate::text::str_eq;
use vstd::prelude::*;
use vstd::string::*;

verus! {

/// How a picture is fitted into its area.
#[derive(Debug, Clone, Copy, PartialEq, Eq, Structural)]
pub enum FitMode {
    /// Scaled to the area in both directions.
    Stretch,
    /// Scaled evenly until it covers the area, centred and cropped.
    Fill,
    /// Not scaled, centred.
    Center,
    /// Scaled evenly until it fits the area, centred.
    Fit,
}

/// The fit mode that a name stands for; any other name stands for `Fit`.
pub open spec fn fit_named(name: Seq<char>) -> FitMode {
    if name == "stretch"@ {
        FitMode::Stretch
    } else if name == "fill"@ {
        FitMode::Fill
    } else if name == "center"@ {
        FitMode::Center
    } else {
        FitMode::Fit
    }
}

/// Where a picture goes: the scale in each direction and the shift of its
/// top left corner, all as fractions. The shifts share one denominator.
#[derive(Debug, Clone, Copy, PartialEq, Eq, Structural)]
pub struct Placement {
    pub scale_x_num: u32,
    pub scale_x_den: u32,
    pub scale_y_num: u32,
    pub scale_y_den: u32,
    pub shift_x_num: i128,
    pub shift_y_num: i128,
    pub shift_den: u64,
}

/// The placement of a picture scaled evenly by `width / src_w`.
pub open spec fn by_width(src_w: u32, src_h: u32, width: u32, height: u32) -> Placement {
    Placement {
        scale_x_num: width,
        scale_x_den: src_w,
        scale_y_num: width,
        scale_y_den: src_w,
        shift_x_num: 0,
        shift_y_num: (height * src_w - width * src_h) as i128,
        shift_den: (2 * src_w) as u64,
    }
}

/// The placement of a picture scaled evenly by `height / src_h`.
pub open spec fn by_height(src_w: u32, src_h: u32, width: u32, height: u32) -> Placement {
    Placement {
        scale_x_num: height,
        scale_x_den: src_h,
        scale_y_num: height,
        scale_y_den: src_h,
        shift_x_num: (width * src_h - height * src_w) as i128,
        shift_y_num: 0,
        shift_den: (2 * src_h) as u64,
    }
}

/// Where a picture of a given size goes in an area of a given size.
///
/// Stretching scales each direction by itself. Filling scales evenly by the
/// larger, fitting by the smaller of the two factors `width / src_w` and
/// `height / src_h`, and centres the result. Centring leaves the size and
/// puts the middle of the picture on the middle of the area.
pub open spec fn placement(mode: FitMode, src_w: u32, src_h: u32, width: u32, height: u32) -> Placement {
    match mode {
        FitMode::Stretch => Placement {
            scale_x_num: width,
            scale_x_den: src_w,
            scale_y_num: height,
            scale_y_den: src_h,
            shift_x_num: 0,
            shift_y_num: 0,
            shift_den: 1,
        },
        FitMode::Center => Placement {
            scale_x_num: 1,
            scale_x_den: 1,
            scale_y_num: 1,
            scale_y_den: 1,
            shift_x_num: (width - src_w) as i128,
            shift_y_num: (height - src_h) as i128,
            shift_den: 2,
        },
        FitMode::Fill => if width * src_h >= height * src_w {
            by_width(src_w, src_h, width, height)
        } else {
            by_height(src_w, src_h, width, height)
        },
        FitMode::Fit => if width * src_h <= height * src_w {
            by_width(src_w, src_h, width, height)
        } else {
            by_height(src_w, src_h, width, height)
        },
    }
}

/// The fit mode that a name stands for.
pub fn fit_mode(name: &str) -> (r: FitMode)
    ensures
        r == fit_named(name@),
{
    if str_eq(name, "stretch") {
        FitMode::Stretch
    } else if str_eq(name, "fill") {
        FitMode::Fill
    } else if str_eq(name, "center") {
        FitMode::Center
    } else {
        FitMode::Fit
    }
}

/// The product of two lengths.
fn area(a: u32, b: u32) -> (r: i128)
    ensures
        r == a * b,
        0 <= r <= 0xffff_ffff * 0xffff_ffff,
{
    assert(a * b <= 0xffff_ffff * 0xffff_ffff) by (nonlinear_arith)
        requires
            a <= 0xffff_ffff,
            b <= 0xffff_ffff,
    ;
    a as i128 * b as i128
}

/// Says where a picture of a given size goes in an area of a given size.
pub fn place_image(mode: FitMode, src_w: u32, src_h: u32, width: u32, height: u32) -> (r: Placement)
    requires
        src_w > 0,
        src_h > 0,
    ensures
        r == placement(mode, src_w, src_h, width, height),
        r.scale_x_den > 0,
        r.scale_y_den > 0,
        r.shift_den > 0,
{
    let wide: i128 = area(width, src_h);
    let high: i128 = area(height, src_w);
    let use_width: bool = match mode {
        FitMode::Stretch => {
            return Placement {
                scale_x_num: width,
                scale_x_den: src_w,
                scale_y_num: height,
                scale_y_den: src_h,
                shift_x_num: 0,
                shift_y_num: 0,
                shift_den: 1,
            };
        },
        FitMode::Center => {
            return Placement {
                scale_x_num: 1,
                scale_x_den: 1,
                scale_y_num: 1,
                scale_y_den: 1,
                shift_x_num: width as i128 - src_w as i128,
                shift_y_num: height as i128 - src_h as i128,
                shift_den: 2,
            };
        },
        FitMode::Fill => wide >= high,
        FitMode::Fit => wide <= high,
    };
    if use_width {
        Placement {
            scale_x_num: width,
            scale_x_den: src_w,
            scale_y_num: width,
            scale_y_den: src_w,
            shift_x_num: 0,
            shift_y_num: high - wide,
            shift_den: 2 * src_w as u64,
        }
    } else {
        Placement {
            scale_x_num: height,
            scale_x_den: src_h,
            scale_y_num: height,
            scale_y_den: src_h,
            shift_x_num: wide - high,
            shift_y_num: 0,
            shift_den: 2 * src_h as u64,
        }
    }
}

/// A fitted picture lies within its area: scaled evenly, neither its width
/// nor its height exceeds the area's.
pub proof fn lemma_fit_stays_inside(src_w: u32, src_h: u32, width: u32, height: u32)
    requires
        src_w > 0,
        src_h > 0,
    ensures
        ({
            let p = placement(FitMode::Fit, src_w, src_h, width, height);
            &&& p.scale_x_num == p.scale_y_num && p.scale_x_den == p.scale_y_den
            &&& src_w * p.scale_x_num <= width * p.scale_x_den
            &&& src_h * p.scale_y_num <= height * p.scale_y_den
            &&& p.shift_x_num >= 0 && p.shift_y_num >= 0
        }),
{
    assert(src_w * width == width * src_w) by (nonlinear_arith);
    assert(src_h * height == height * src_h) by (nonlinear_arith);
    assert(src_h * width == width * src_h) by (nonlinear_arith);
    assert(src_w * height == height * src_w) by (nonlinear_arith);
    assert(width * src_h <= 0xffff_ffff * 0xffff_ffff) by (nonlinear_arith)
        requires
            width <= 0xffff_ffff,
            src_h <= 0xffff_ffff,
    ;
    assert(height * src_w <= 0xffff_ffff * 0xffff_ffff) by (nonlinear_arith)
        requires
            height <= 0xffff_ffff,
            src_w <= 0xffff_ffff,
    ;
}

} // verus!
