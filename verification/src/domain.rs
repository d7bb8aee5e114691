//! Shapes, bounding boxes and the mapping between view and original
//! coordinates.

mod drawable;
mod geometry;
mod text;
mod transform;
mod zoom;

pub use geometry::{lemma_translate_iff_contained, Point, Shape, BB};
pub use transform::{
    coord_orig_2_view, coord_view_2_orig, div_ceil, is_visible, lemma_coord_round_trip,
    lemma_identity_without_scaling, lemma_round_trip,
    lemma_scaled_coord_bounded,
    lemma_shape_scaled_fits, mouse_pos_to_orig_pos, orig_coord_to_view_coord,
    orig_pos_to_view_pos, pos_transform, shape_scaled, shape_unscaled, spec_coord_orig_2_view,
    spec_coord_view_2_orig, spec_mouse_pos_to_orig_pos, spec_offset,
    spec_orig_coord_to_view_coord, spec_orig_pos_to_view_pos, spec_shape_scaled,
    spec_shape_unscaled, spec_view_pos_to_orig_pos, spec_view_shape, transform_defined,
    view_pos_to_orig_pos,
};
pub use drawable::{
    both, corners_in_view, find_enclosing_bb, is_extent_of, lemma_pixel_index, pixels_of,
    spec_bounds_in, BbViewCornerIterator,
    BbViewPointIterator, GeoFig, MakeDrawable, Polygon, ViewCorners,
};
pub use zoom::{
    clipped_delta, round_div, spec_zoom_box_mouse_wheel, wheel_factor, zoom_box_mouse_wheel,
    WHEEL_CLIP, WHEEL_DENOMINATOR,
};
pub use text::{
    decimal, decimal_value, digit_char, digit_value, field_value, first_comma, is_digit,
    is_number, lemma_decimal_is_number, lemma_decimal_value_grows, lemma_first_comma_at,
    lemma_skip_spaces_at, lemma_text_round_trip, lemma_decimal_value_nonnegative, skip_spaces,
    skip_spaces_back, spec_bb_text, spec_parse_bb,
};
