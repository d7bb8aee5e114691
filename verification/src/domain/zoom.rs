//! Zooming: scaling a box about its center, and the zoom box that a turn of
//! the mouse wheel gives.
//!
//! Factors are fractions of integers and every result is rounded once, from
//! the exact value.

use super::geometry::{fit_wide, Shape, BB};
use vstd::prelude::*;

verus! {

/// The integer nearest to `n / d`, for `d > 0`; a half is rounded away from
/// zero.
pub open spec fn round_div(n: int, d: int) -> int {
    if n >= 0 {
        (2 * n + d) / (2 * d)
    } else {
        -((2 * (-n) + d) / (2 * d))
    }
}

/// The thousandths of a notch that one turn of the wheel counts for at
/// most, in either direction.
pub const WHEEL_CLIP: i32 = 1000;

/// The denominator of the factor by which the wheel scales the zoom box:
/// a thousandth of a notch changes the factor by one part in this many, so
/// a whole notch changes it by a tenth.
pub const WHEEL_DENOMINATOR: u32 = 10000;

/// The wheel delta, cut down to one notch in either direction.
pub open spec fn clipped_delta(y_delta_milli: int) -> int {
    if y_delta_milli > WHEEL_CLIP {
        WHEEL_CLIP as int
    } else if y_delta_milli < -WHEEL_CLIP {
        -WHEEL_CLIP
    } else {
        y_delta_milli
    }
}

/// The numerator, over `WHEEL_DENOMINATOR`, of the factor that the wheel
/// scales the zoom box by: a tenth less for each notch.
pub open spec fn wheel_factor(y_delta_milli: int) -> int {
    WHEEL_DENOMINATOR - clipped_delta(y_delta_milli)
}

impl BB {
    /// The box scaled by `num / den` about its center, cut down to the
    /// image: width and height are the scaled sizes, rounded, and the
    /// minimal corner is the center less half of the exact scaled size,
    /// rounded.
    pub open spec fn spec_center_scale(self, num: int, den: int, shape: Shape) -> BB {
        Self::fit_to_image(
            round_div(2 * den * self.x + self.w * (den - num), 2 * den),
            round_div(2 * den * self.y + self.h * (den - num), 2 * den),
            round_div(num * self.w, den),
            round_div(num * self.h, den),
            shape,
        )
    }

    /// Scales the box by the factor `factor_num / factor_den` about its
    /// center and cuts the result down to the image, so that zooming at the
    /// border of the image gives the part of the scaled box that is left.
    pub fn center_scale(&self, factor_num: u32, factor_den: u32, shape: Shape) -> (bb: BB)
        requires
            factor_den > 0,
        ensures
            bb == self.spec_center_scale(factor_num as int, factor_den as int, shape),
            bb.spec_is_contained_in_image(shape),
    {
        let num = factor_num as i128;
        let den = factor_den as i128;
        let x = round_div_wide(
            scaled_corner_numerator(self.x, self.w, factor_num, factor_den),
            2 * den,
        );
        let y = round_div_wide(
            scaled_corner_numerator(self.y, self.h, factor_num, factor_den),
            2 * den,
        );
        let w = round_div_wide(scaled_size_numerator(self.w, factor_num), den);
        let h = round_div_wide(scaled_size_numerator(self.h, factor_num), den);
        fit_wide(x, y, w, h, shape)
    }
}

fn scaled_size_numerator(size: u32, num: u32) -> (r: i128)
    ensures
        r == num * size,
        0 <= r <= 0xffff_ffff * 0xffff_ffff,
{
    assert(0 <= num * size <= 0xffff_ffff * 0xffff_ffff) by (nonlinear_arith)
        requires
            0 <= num <= 0xffff_ffff,
            0 <= size <= 0xffff_ffff,
    ;
    num as i128 * size as i128
}

fn scaled_corner_numerator(pos: u32, size: u32, num: u32, den: u32) -> (r: i128)
    ensures
        r == 2 * den * pos + size * (den - num),
        -0x1_0000_0000_0000_0000 <= r <= 0x4_0000_0000_0000_0000,
{
    let d = den as i128;
    let diff = d - num as i128;
    assert(0 <= 2 * d * pos <= 2 * 0xffff_ffff * 0xffff_ffff) by (nonlinear_arith)
        requires
            0 <= d <= 0xffff_ffff,
            0 <= pos <= 0xffff_ffff,
    ;
    assert(-0xffff_ffff * 0xffff_ffff <= size * diff <= 0xffff_ffff * 0xffff_ffff)
        by (nonlinear_arith)
        requires
            -0xffff_ffff <= diff <= 0xffff_ffff,
            0 <= size <= 0xffff_ffff,
    ;
    2 * d * pos as i128 + size as i128 * diff
}

fn round_div_wide(n: i128, d: i128) -> (r: i128)
    requires
        0 < d <= 0x2_0000_0000,
        -0x8_0000_0000_0000_0000 <= n <= 0x8_0000_0000_0000_0000,
    ensures
        r == round_div(n as int, d as int),
        -0x20_0000_0000_0000_0000 <= r <= 0x20_0000_0000_0000_0000,
{
    if n >= 0 {
        proof {
            vstd::arithmetic::div_mod::lemma_div_pos_is_pos(2 * n + d, 2 * d);
            vstd::arithmetic::div_mod::lemma_div_is_ordered_by_denominator(2 * n + d, 1, 2 * d);
            assert((2 * n + d) / 1 == 2 * n + d);
        }
        (2 * n + d) / (2 * d)
    } else {
        proof {
            vstd::arithmetic::div_mod::lemma_div_pos_is_pos(2 * (-n) + d, 2 * d);
            vstd::arithmetic::div_mod::lemma_div_is_ordered_by_denominator(
                2 * (-n) + d,
                1,
                2 * d,
            );
            assert((2 * (-n) + d) / 1 == 2 * (-n) + d);
        }
        -((2 * (-n) + d) / (2 * d))
    }
}

/// The zoom box after a turn of the mouse wheel by `y_delta_milli`
/// thousandths of a notch. Without a zoom box the whole image is the box
/// that is scaled. A turn counts for one notch at most, and a notch scales
/// the box by a tenth about its center: a positive turn shrinks it, which
/// zooms in. The result is cut down to the image, and there always is one.
pub fn zoom_box_mouse_wheel(zoom_box: Option<BB>, shape_orig: Shape, y_delta_milli: i32) -> (r:
    Option<BB>)
    ensures
        r == Some(spec_zoom_box_mouse_wheel(zoom_box, shape_orig, y_delta_milli as int)),
        r matches Some(bb) && bb.spec_is_contained_in_image(shape_orig),
{
    let current_zb = if let Some(zb) = zoom_box {
        zb
    } else {
        BB::from_arr(&[0, 0, shape_orig.w, shape_orig.h])
    };
    let y_delta_clipped = if y_delta_milli > WHEEL_CLIP {
        WHEEL_CLIP
    } else if y_delta_milli < -WHEEL_CLIP {
        -WHEEL_CLIP
    } else {
        y_delta_milli
    };
    let factor: i64 = WHEEL_DENOMINATOR as i64 - y_delta_clipped as i64;
    Some(current_zb.center_scale(factor as u32, WHEEL_DENOMINATOR, shape_orig))
}

pub open spec fn spec_zoom_box_mouse_wheel(
    zoom_box: Option<BB>,
    shape_orig: Shape,
    y_delta_milli: int,
) -> BB {
    let current = match zoom_box {
        Some(zb) => zb,
        None => BB { x: 0, y: 0, w: shape_orig.w, h: shape_orig.h },
    };
    current.spec_center_scale(wheel_factor(y_delta_milli), WHEEL_DENOMINATOR as int, shape_orig)
}

} // verus!
