//! The mapping between positions in the view and positions in the original
//! image.
//!
//! The part of the image that is shown, the unscaled shape, is the zoom box
//! or, without one, the whole image. It is scaled into the window with one
//! factor for both axes, which gives the scaled shape: the shape of the view.
//! Along an axis with `u` unscaled and `s` scaled pixels a view coordinate
//! `v` and an original coordinate `o` correspond by `o - off = v * u / s`,
//! rounded as the functions below say.

use super::geometry::{Point, Shape, BB};
use vstd::prelude::*;

verus! {

/// `a / b`, rounded up, for `a >= 0` and `b > 0`.
pub open spec fn div_ceil(a: int, b: int) -> int {
    (a + b - 1) / b
}

pub open spec fn spec_shape_unscaled(zoom_box: Option<BB>, shape_orig: Shape) -> Shape {
    match zoom_box {
        Some(zb) => Shape { w: zb.w, h: zb.h },
        None => shape_orig,
    }
}

/// The largest shape with the aspect ratio of `unscaled` that fits into the
/// window: the axis along which `unscaled` is larger, in relation to the
/// window, fills the window, and the other is scaled by the same factor and
/// rounded down.
pub open spec fn spec_shape_scaled(unscaled: Shape, win: Shape) -> Shape {
    if unscaled.w * win.h >= unscaled.h * win.w {
        Shape { w: win.w, h: (unscaled.h * win.w / (unscaled.w as int)) as u32 }
    } else {
        Shape { w: (unscaled.w * win.h / (unscaled.h as int)) as u32, h: win.h }
    }
}

/// The offset of the shown part in the original image.
pub open spec fn spec_offset(zoom_box: Option<BB>) -> Point {
    match zoom_box {
        Some(zb) => (zb.x, zb.y),
        None => (0u32, 0u32),
    }
}

/// The shape of the view.
pub open spec fn spec_view_shape(shape_orig: Shape, shape_win: Shape, zoom_box: Option<BB>) -> Shape {
    spec_shape_scaled(spec_shape_unscaled(zoom_box, shape_orig), shape_win)
}

/// What every transform asks of its arguments: image and window have
/// positive sides, and a zoom box has positive sides and `u32` corners.
pub open spec fn transform_defined(shape_orig: Shape, shape_win: Shape, zoom_box: Option<BB>) -> bool {
    &&& shape_orig.is_positive()
    &&& shape_win.is_positive()
    &&& zoom_box matches Some(zb) ==> zb.is_positive() && zb.corners_fit()
}

/// The original coordinate of the view coordinate `x`. Where the view is
/// larger than the original the quotient is rounded up, so that the way
/// back, which rounds down, ends at `x` again; elsewhere it is rounded down.
pub open spec fn spec_coord_view_2_orig(x: int, n_transformed: int, n_orig: int, off: int) -> int {
    if n_transformed <= 0 {
        off
    } else if n_transformed > n_orig {
        off + div_ceil(x * n_orig, n_transformed)
    } else {
        off + (x * n_orig) / n_transformed
    }
}

/// The view coordinate of the original coordinate `x`, with the rounding
/// opposite to that of `spec_coord_view_2_orig`.
pub open spec fn spec_coord_orig_2_view(x: int, n_transformed: int, n_orig: int, off: int) -> int {
    if n_orig <= 0 {
        0
    } else if n_transformed > n_orig {
        ((x - off) * n_transformed) / n_orig
    } else {
        div_ceil((x - off) * n_transformed, n_orig)
    }
}

pub open spec fn spec_view_pos_to_orig_pos(
    view_pos: Point,
    shape_orig: Shape,
    shape_win: Shape,
    zoom_box: Option<BB>,
) -> (int, int) {
    let unscaled = spec_shape_unscaled(zoom_box, shape_orig);
    let scaled = spec_shape_scaled(unscaled, shape_win);
    let off = spec_offset(zoom_box);
    (
        spec_coord_view_2_orig(view_pos.0 as int, scaled.w as int, unscaled.w as int, off.0 as int),
        spec_coord_view_2_orig(view_pos.1 as int, scaled.h as int, unscaled.h as int, off.1 as int),
    )
}

/// The part of the original image that the view shows.
pub open spec fn is_visible(orig_pos: Point, shape_orig: Shape, zoom_box: Option<BB>) -> bool {
    match zoom_box {
        Some(zb) => zb.spec_contains(orig_pos),
        None => orig_pos.0 < shape_orig.w && orig_pos.1 < shape_orig.h,
    }
}

pub open spec fn spec_orig_pos_to_view_pos(
    orig_pos: Point,
    shape_orig: Shape,
    shape_win: Shape,
    zoom_box: Option<BB>,
) -> (int, int) {
    let unscaled = spec_shape_unscaled(zoom_box, shape_orig);
    let scaled = spec_shape_scaled(unscaled, shape_win);
    let off = spec_offset(zoom_box);
    (
        spec_coord_orig_2_view(orig_pos.0 as int, scaled.w as int, unscaled.w as int, off.0 as int),
        spec_coord_orig_2_view(orig_pos.1 as int, scaled.h as int, unscaled.h as int, off.1 as int),
    )
}

/// A quotient of a product is bounded by the factor that the divisor
/// bounds: for `0 <= x <= s`, both `x * u / s` and its rounding up are at
/// most `u`.
pub proof fn lemma_scaled_coord_bounded(x: int, u: int, s: int)
    requires
        0 <= x <= s,
        0 <= u,
        0 < s,
    ensures
        0 <= (x * u) / s <= u,
        0 <= div_ceil(x * u, s) <= u,
{
    assert(0 <= x * u <= s * u) by (nonlinear_arith)
        requires
            0 <= x <= s,
            0 <= u,
    ;
    assert(s * u == u * s) by (nonlinear_arith);
    vstd::arithmetic::div_mod::lemma_fundamental_div_mod_converse(s * u + s - 1, s, u, s - 1);
    vstd::arithmetic::div_mod::lemma_div_is_ordered(x * u + s - 1, s * u + s - 1, s);
    vstd::arithmetic::div_mod::lemma_div_is_ordered(x * u, x * u + s - 1, s);
    vstd::arithmetic::div_mod::lemma_div_pos_is_pos(x * u, s);
}

/// The scaled shape fits into the window.
pub proof fn lemma_shape_scaled_fits(unscaled: Shape, win: Shape)
    requires
        unscaled.is_positive(),
        win.is_positive(),
    ensures
        spec_shape_scaled(unscaled, win).w <= win.w,
        spec_shape_scaled(unscaled, win).h <= win.h,
        unscaled.w * win.h >= unscaled.h * win.w ==> spec_shape_scaled(unscaled, win).h
            == unscaled.h * win.w / (unscaled.w as int),
        unscaled.w * win.h < unscaled.h * win.w ==> spec_shape_scaled(unscaled, win).w
            == unscaled.w * win.h / (unscaled.h as int),
{
    let uw = unscaled.w as int;
    let uh = unscaled.h as int;
    let ww = win.w as int;
    let wh = win.h as int;
    if uw * wh >= uh * ww {
        vstd::arithmetic::div_mod::lemma_div_is_ordered(uh * ww, uw * wh, uw);
        assert(uw * wh == wh * uw) by (nonlinear_arith);
        vstd::arithmetic::div_mod::lemma_div_multiples_vanish(wh, uw);
        assert(0 <= uh * ww) by (nonlinear_arith)
            requires
                0 <= uh,
                0 <= ww,
        ;
        vstd::arithmetic::div_mod::lemma_div_pos_is_pos(uh * ww, uw);
    } else {
        vstd::arithmetic::div_mod::lemma_div_is_ordered(uw * wh, uh * ww, uh);
        assert(uh * ww == ww * uh) by (nonlinear_arith);
        vstd::arithmetic::div_mod::lemma_div_multiples_vanish(ww, uh);
        assert(0 <= uw * wh) by (nonlinear_arith)
            requires
                0 <= uw,
                0 <= wh,
        ;
        vstd::arithmetic::div_mod::lemma_div_pos_is_pos(uw * wh, uh);
    }
}

/// Along one axis, the way from the original to the view and back ends at
/// or after the coordinate it started from, and less than one view pixel
/// after it: exactly at it where the view is not smaller than the original,
/// and at most two pixels after it where the original is at most three
/// times as large as the view.
pub proof fn lemma_coord_round_trip(x: int, s: int, u: int, off: int)
    requires
        0 < s,
        0 < u,
        off <= x < off + u,
    ensures
        0 <= spec_coord_orig_2_view(x, s, u, off) <= s,
        x <= spec_coord_view_2_orig(spec_coord_orig_2_view(x, s, u, off), s, u, off),
        (spec_coord_view_2_orig(spec_coord_orig_2_view(x, s, u, off), s, u, off) - x) * s < u,
        s >= u ==> spec_coord_view_2_orig(spec_coord_orig_2_view(x, s, u, off), s, u, off) == x,
        u <= 3 * s ==> spec_coord_view_2_orig(spec_coord_orig_2_view(x, s, u, off), s, u, off)
            - x <= 2,
{
    let d = x - off;
    let v = spec_coord_orig_2_view(x, s, u, off);
    let back = spec_coord_view_2_orig(v, s, u, off);
    lemma_scaled_coord_bounded(d, s, u);
    assert(0 <= d * s) by (nonlinear_arith)
        requires
            0 <= d,
            0 < s,
    ;
    if s > u {
        assert(v == (d * s) / u);
        vstd::arithmetic::div_mod::lemma_fundamental_div_mod(d * s, u);
        vstd::arithmetic::div_mod::lemma_mod_pos_bound(d * s, u);
        let m = (d * s) % u;
        assert(v * u == d * s - m) by (nonlinear_arith)
            requires
                d * s == u * v + m,
        ;
        let r = v * u + s - 1 - d * s;
        assert(0 <= r < s);
        assert(v * u + s - 1 == d * s + r);
        vstd::arithmetic::div_mod::lemma_fundamental_div_mod_converse(v * u + s - 1, s, d, r);
        assert(back == off + d);
        assert((back - x) * s == 0) by (nonlinear_arith)
            requires
                back - x == 0,
        ;
    } else {
        assert(v == div_ceil(d * s, u));
        let n = d * s + u - 1;
        vstd::arithmetic::div_mod::lemma_fundamental_div_mod(n, u);
        vstd::arithmetic::div_mod::lemma_mod_pos_bound(n, u);
        let m = n % u;
        assert(v * u == n - m) by (nonlinear_arith)
            requires
                n == u * v + m,
        ;
        assert(d * s <= v * u < d * s + u);
        let b = (v * u) / s;
        assert(0 <= v * u);
        vstd::arithmetic::div_mod::lemma_fundamental_div_mod(v * u, s);
        vstd::arithmetic::div_mod::lemma_mod_pos_bound(v * u, s);
        let k = (v * u) % s;
        assert(b * s == v * u - k) by (nonlinear_arith)
            requires
                v * u == s * b + k,
        ;
        assert(back == off + b);
        assert(b >= d) by (nonlinear_arith)
            requires
                b * s > d * s - s,
                0 < s,
        ;
        assert((b - d) * s == b * s - d * s) by (nonlinear_arith);
        assert((back - x) * s < u);
        if u <= 3 * s {
            assert(b - d <= 2) by (nonlinear_arith)
                requires
                    (b - d) * s < 3 * s,
                    0 < s,
            ;
        }
        if s >= u {
            assert(b - d <= 0) by (nonlinear_arith)
                requires
                    (b - d) * s < s,
                    0 < s,
            ;
        }
    }
}

/// A visible pixel that is mapped to the view and back comes out at most
/// two pixels from where it was, along each axis on which the shown part of
/// the image is at most three times as large as the view, and exactly where
/// it was along each axis on which the view is not smaller than the shown
/// part. It never comes out before the pixel, and always less than one view
/// pixel after it.
pub proof fn lemma_round_trip(orig_pos: Point, shape_orig: Shape, shape_win: Shape, zoom_box: Option<BB>)
    requires
        transform_defined(shape_orig, shape_win, zoom_box),
        is_visible(orig_pos, shape_orig, zoom_box),
        spec_view_shape(shape_orig, shape_win, zoom_box).is_positive(),
    ensures
        ({
            let unscaled = spec_shape_unscaled(zoom_box, shape_orig);
            let scaled = spec_view_shape(shape_orig, shape_win, zoom_box);
            let view = spec_orig_pos_to_view_pos(orig_pos, shape_orig, shape_win, zoom_box);
            let back = spec_view_pos_to_orig_pos(
                (view.0 as u32, view.1 as u32),
                shape_orig,
                shape_win,
                zoom_box,
            );
            &&& 0 <= view.0 <= scaled.w && 0 <= view.1 <= scaled.h
            &&& orig_pos.0 <= back.0 && orig_pos.1 <= back.1
            &&& (back.0 - orig_pos.0) * scaled.w < unscaled.w
            &&& (back.1 - orig_pos.1) * scaled.h < unscaled.h
            &&& unscaled.w <= 3 * scaled.w ==> back.0 - orig_pos.0 <= 2
            &&& unscaled.h <= 3 * scaled.h ==> back.1 - orig_pos.1 <= 2
            &&& scaled.w >= unscaled.w ==> back.0 == orig_pos.0
            &&& scaled.h >= unscaled.h ==> back.1 == orig_pos.1
        }),
{
    let unscaled = spec_shape_unscaled(zoom_box, shape_orig);
    let scaled = spec_view_shape(shape_orig, shape_win, zoom_box);
    let off = spec_offset(zoom_box);
    lemma_coord_round_trip(orig_pos.0 as int, scaled.w as int, unscaled.w as int, off.0 as int);
    lemma_coord_round_trip(orig_pos.1 as int, scaled.h as int, unscaled.h as int, off.1 as int);
}

/// Where image and window have the same shape and nothing is zoomed, the
/// view is the image: a pixel keeps its position both ways.
pub proof fn lemma_identity_without_scaling(orig_pos: Point, shape: Shape)
    requires
        shape.is_positive(),
        orig_pos.0 < shape.w,
        orig_pos.1 < shape.h,
    ensures
        spec_view_shape(shape, shape, None) == shape,
        spec_orig_pos_to_view_pos(orig_pos, shape, shape, None) == (
            orig_pos.0 as int,
            orig_pos.1 as int,
        ),
        spec_view_pos_to_orig_pos(orig_pos, shape, shape, None) == (
            orig_pos.0 as int,
            orig_pos.1 as int,
        ),
{
    let w = shape.w as int;
    let h = shape.h as int;
    assert(w * h == h * w) by (nonlinear_arith);
    vstd::arithmetic::div_mod::lemma_div_multiples_vanish(h, w);
    assert(spec_view_shape(shape, shape, None) == shape);
    let x = orig_pos.0 as int;
    let y = orig_pos.1 as int;
    assert(x * w == w * x && y * h == h * y) by (nonlinear_arith);
    vstd::arithmetic::div_mod::lemma_div_multiples_vanish(x, w);
    vstd::arithmetic::div_mod::lemma_div_multiples_vanish(y, h);
    vstd::arithmetic::div_mod::lemma_fundamental_div_mod_converse(x * w + w - 1, w, x, w - 1);
    vstd::arithmetic::div_mod::lemma_fundamental_div_mod_converse(y * h + h - 1, h, y, h - 1);
}

/// Shape without scaling to the window.
pub fn shape_unscaled(zoom_box: &Option<BB>, shape_orig: Shape) -> (s: Shape)
    ensures
        s == spec_shape_unscaled(*zoom_box, shape_orig),
{
    match zoom_box {
        Some(zb) => zb.shape(),
        None => shape_orig,
    }
}

/// Shape of the image that fits into the window.
pub fn shape_scaled(shape_unscaled: Shape, shape_win: Shape) -> (s: Shape)
    requires
        shape_unscaled.is_positive(),
        shape_win.is_positive(),
    ensures
        s == spec_shape_scaled(shape_unscaled, shape_win),
        s.w <= shape_win.w,
        s.h <= shape_win.h,
{
    proof {
        lemma_shape_scaled_fits(shape_unscaled, shape_win);
    }
    let uw = shape_unscaled.w as u64;
    let uh = shape_unscaled.h as u64;
    let ww = shape_win.w as u64;
    let wh = shape_win.h as u64;
    assert(uw * wh <= 0xffff_ffff * 0xffff_ffff && uh * ww <= 0xffff_ffff * 0xffff_ffff)
        by (nonlinear_arith)
        requires
            uw <= 0xffff_ffff,
            uh <= 0xffff_ffff,
            ww <= 0xffff_ffff,
            wh <= 0xffff_ffff,
    ;
    if uw * wh >= uh * ww {
        Shape { w: shape_win.w, h: (uh * ww / uw) as u32 }
    } else {
        Shape { w: (uw * wh / uh) as u32, h: shape_win.h }
    }
}

/// Maps one view coordinate to the original image.
pub fn coord_view_2_orig(x: u32, n_transformed: u32, n_orig: u32, off: u32) -> (r: u32)
    requires
        x <= n_transformed,
        off + n_orig <= u32::MAX,
    ensures
        r == spec_coord_view_2_orig(x as int, n_transformed as int, n_orig as int, off as int),
        off <= r <= off + n_orig,
{
    if n_transformed == 0 {
        return off;
    }
    proof {
        lemma_scaled_coord_bounded(x as int, n_orig as int, n_transformed as int);
        assert(x * n_orig <= 0xffff_ffff * 0xffff_ffff) by (nonlinear_arith)
            requires
                0 <= x <= 0xffff_ffff,
                0 <= n_orig <= 0xffff_ffff,
        ;
    }
    let prod: u64 = x as u64 * n_orig as u64;
    let s: u64 = n_transformed as u64;
    let q: u64 = if n_transformed > n_orig {
        (prod + s - 1) / s
    } else {
        prod / s
    };
    off + q as u32
}

/// Maps one original coordinate to the view.
pub fn coord_orig_2_view(x: u32, n_transformed: u32, n_orig: u32, off: u32) -> (r: u32)
    requires
        off <= x <= off + n_orig,
    ensures
        r == spec_coord_orig_2_view(x as int, n_transformed as int, n_orig as int, off as int),
        r <= n_transformed,
{
    if n_orig == 0 {
        return 0;
    }
    proof {
        lemma_scaled_coord_bounded((x - off) as int, n_transformed as int, n_orig as int);
        assert((x - off) * n_transformed <= 0xffff_ffff * 0xffff_ffff) by (nonlinear_arith)
            requires
                0 <= x - off <= 0xffff_ffff,
                0 <= n_transformed <= 0xffff_ffff,
        ;
    }
    let prod: u64 = (x - off) as u64 * n_transformed as u64;
    let u: u64 = n_orig as u64;
    let q: u64 = if n_transformed > n_orig {
        prod / u
    } else {
        (prod + u - 1) / u
    };
    q as u32
}

/// Applies `transform` to both coordinates of `pos`, each with the scaled
/// size, the unscaled size and the offset of its axis. Every transform of a
/// position goes through this function, so both axes are treated alike.
pub fn pos_transform<F>(
    pos: Point,
    shape_orig: Shape,
    shape_win: Shape,
    zoom_box: &Option<BB>,
    transform: F,
) -> (r: Point) where F: Fn(u32, u32, u32, u32) -> u32
    requires
        transform_defined(shape_orig, shape_win, *zoom_box),
        call_requires(
            transform,
            (
                pos.0,
                spec_view_shape(shape_orig, shape_win, *zoom_box).w,
                spec_shape_unscaled(*zoom_box, shape_orig).w,
                spec_offset(*zoom_box).0,
            ),
        ),
        call_requires(
            transform,
            (
                pos.1,
                spec_view_shape(shape_orig, shape_win, *zoom_box).h,
                spec_shape_unscaled(*zoom_box, shape_orig).h,
                spec_offset(*zoom_box).1,
            ),
        ),
    ensures
        call_ensures(
            transform,
            (
                pos.0,
                spec_view_shape(shape_orig, shape_win, *zoom_box).w,
                spec_shape_unscaled(*zoom_box, shape_orig).w,
                spec_offset(*zoom_box).0,
            ),
            r.0,
        ),
        call_ensures(
            transform,
            (
                pos.1,
                spec_view_shape(shape_orig, shape_win, *zoom_box).h,
                spec_shape_unscaled(*zoom_box, shape_orig).h,
                spec_offset(*zoom_box).1,
            ),
            r.1,
        ),
{
    let unscaled = shape_unscaled(zoom_box, shape_orig);
    let scaled = shape_scaled(unscaled, shape_win);
    let (x_off, y_off) = match zoom_box {
        Some(c) => (c.x, c.y),
        None => (0, 0),
    };
    let (x, y) = pos;
    let x_tf = transform(x, scaled.w, unscaled.w, x_off);
    let y_tf = transform(y, scaled.h, unscaled.h, y_off);
    (x_tf, y_tf)
}

/// Converts the position of a pixel in the view to the coordinates of the
/// original image. The position may lie on the far edges of the view.
pub fn view_pos_to_orig_pos(
    view_pos: Point,
    shape_orig: Shape,
    shape_win: Shape,
    zoom_box: &Option<BB>,
) -> (r: Point)
    requires
        transform_defined(shape_orig, shape_win, *zoom_box),
        view_pos.0 <= spec_view_shape(shape_orig, shape_win, *zoom_box).w,
        view_pos.1 <= spec_view_shape(shape_orig, shape_win, *zoom_box).h,
    ensures
        r.0 == spec_view_pos_to_orig_pos(view_pos, shape_orig, shape_win, *zoom_box).0,
        r.1 == spec_view_pos_to_orig_pos(view_pos, shape_orig, shape_win, *zoom_box).1,
        spec_offset(*zoom_box).0 <= r.0 <= spec_offset(*zoom_box).0 + spec_shape_unscaled(
            *zoom_box,
            shape_orig,
        ).w,
        spec_offset(*zoom_box).1 <= r.1 <= spec_offset(*zoom_box).1 + spec_shape_unscaled(
            *zoom_box,
            shape_orig,
        ).h,
{
    pos_transform(view_pos, shape_orig, shape_win, zoom_box, coord_view_2_orig)
}

/// Converts a coordinate of the original image to the view, along an axis
/// that shows `min_max`, or all `n_coords` coordinates, in
/// `n_pixels_scaled` pixels. `None` if a `min_max` is given and the
/// coordinate lies outside of it.
pub fn orig_coord_to_view_coord(
    coord: u32,
    n_coords: u32,
    n_pixels_scaled: u32,
    min_max: &Option<(u32, u32)>,
) -> (r: Option<u32>)
    requires
        min_max is None ==> coord <= n_coords,
    ensures
        r == spec_orig_coord_to_view_coord(coord, n_coords, n_pixels_scaled, *min_max),
{
    match min_max {
        Some((min, max)) => {
            if coord < *min || *max <= coord {
                None
            } else {
                Some(coord_orig_2_view(coord, n_pixels_scaled, *max - *min, *min))
            }
        },
        None => Some(coord_orig_2_view(coord, n_pixels_scaled, n_coords, 0)),
    }
}

pub open spec fn spec_orig_coord_to_view_coord(
    coord: u32,
    n_coords: u32,
    n_pixels_scaled: u32,
    min_max: Option<(u32, u32)>,
) -> Option<u32> {
    match min_max {
        Some((min, max)) => if coord < min || max <= coord {
            None
        } else {
            Some(
                spec_coord_orig_2_view(
                    coord as int,
                    n_pixels_scaled as int,
                    max - min,
                    min as int,
                ) as u32,
            )
        },
        None => Some(
            spec_coord_orig_2_view(coord as int, n_pixels_scaled as int, n_coords as int, 0) as u32,
        ),
    }
}

/// Converts the position of a pixel of the original image to the view.
/// `None` if the view does not show the pixel.
pub fn orig_pos_to_view_pos(
    orig_pos: Point,
    shape_orig: Shape,
    shape_win: Shape,
    zoom_box: &Option<BB>,
) -> (r: Option<Point>)
    requires
        transform_defined(shape_orig, shape_win, *zoom_box),
        *zoom_box is None ==> orig_pos.0 <= shape_orig.w && orig_pos.1 <= shape_orig.h,
    ensures
        r is Some <==> (*zoom_box matches Some(zb) ==> zb.spec_contains(orig_pos)),
        r matches Some(p) ==> p.0 == spec_orig_pos_to_view_pos(
            orig_pos,
            shape_orig,
            shape_win,
            *zoom_box,
        ).0 && p.1 == spec_orig_pos_to_view_pos(orig_pos, shape_orig, shape_win, *zoom_box).1
            && p.0 <= spec_view_shape(shape_orig, shape_win, *zoom_box).w && p.1
            <= spec_view_shape(shape_orig, shape_win, *zoom_box).h,
{
    if let Some(zb) = zoom_box {
        if !zb.contains(orig_pos) {
            return None;
        }
    }
    Some(pos_transform(orig_pos, shape_orig, shape_win, zoom_box, coord_orig_2_view))
}

/// Converts a mouse position in the view, if there is one, to the
/// coordinates of the original image. `None` unless the position lies in
/// the image.
pub fn mouse_pos_to_orig_pos(
    mouse_pos: Option<(usize, usize)>,
    shape_orig: Shape,
    shape_win: Shape,
    zoom_box: &Option<BB>,
) -> (r: Option<Point>)
    requires
        transform_defined(shape_orig, shape_win, *zoom_box),
    ensures
        r == spec_mouse_pos_to_orig_pos(mouse_pos, shape_orig, shape_win, *zoom_box),
{
    match mouse_pos {
        None => None,
        Some((x, y)) => {
            let view = shape_scaled(shape_unscaled(zoom_box, shape_orig), shape_win);
            if x > view.w as usize || y > view.h as usize {
                None
            } else {
                let p = view_pos_to_orig_pos((x as u32, y as u32), shape_orig, shape_win, zoom_box);
                if p.0 < shape_orig.w && p.1 < shape_orig.h {
                    Some(p)
                } else {
                    None
                }
            }
        },
    }
}

/// The original position under the mouse: that of the view position, if the
/// mouse is on the view and the position lies in the image.
pub open spec fn spec_mouse_pos_to_orig_pos(
    mouse_pos: Option<(usize, usize)>,
    shape_orig: Shape,
    shape_win: Shape,
    zoom_box: Option<BB>,
) -> Option<Point> {
    match mouse_pos {
        None => None,
        Some((x, y)) => {
            let view = spec_view_shape(shape_orig, shape_win, zoom_box);
            if x > view.w || y > view.h {
                None
            } else {
                let p = spec_view_pos_to_orig_pos(
                    (x as u32, y as u32),
                    shape_orig,
                    shape_win,
                    zoom_box,
                );
                if p.0 < shape_orig.w && p.1 < shape_orig.h {
                    Some((p.0 as u32, p.1 as u32))
                } else {
                    None
                }
            }
        },
    }
}

} // verus!
