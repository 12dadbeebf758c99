//! Colours as the display takes them, and the way between them and vectors.

use crate::scalar::unit;
use crate::scalar::Scalar;
use crate::vector::Vector3;
use vstd::prelude::*;

verus! {

/// A colour of four bytes: red, green, blue and opacity.
#[derive(Clone, Copy, Debug, PartialEq, Eq, Structural)]
pub struct Color {
    pub r: u8,
    pub g: u8,
    pub b: u8,
    pub a: u8,
}

impl Color {
    /// The opaque colour with the given red, green and blue.
    #[allow(non_snake_case)]
    pub fn RGB(r: u8, g: u8, b: u8) -> (c: Color)
        ensures
            c == (Color { r, g, b, a: 255 }),
    {
        Color { r, g, b, a: 255 }
    }
}

/// The colour that a vector is shown as: each component cut down to its whole
/// part and held to the range of a byte.
pub open spec fn spec_get_color(vec: Vector3) -> Color {
    Color { r: vec.x.spec_to_u8(), g: vec.y.spec_to_u8(), b: vec.z.spec_to_u8(), a: 255 }
}

/// Whether the single-precision number `s` is exactly the count `v`.
pub open spec fn counts(s: Scalar, v: u8) -> bool {
    !s.nan() && !s.negative() && s.scaled() == v * unit()
}

/// Whether the three components of `vec` are exactly the red, green and blue of
/// `col`.
pub open spec fn holds_color(vec: Vector3, col: Color) -> bool {
    counts(vec.x, col.r) && counts(vec.y, col.g) && counts(vec.z, col.b)
}

/// Turns a vector into the colour it is shown as.
pub fn get_color(vec: Vector3) -> (c: Color)
    ensures
        c == spec_get_color(vec),
{
    Color::RGB(vec.x.to_u8(), vec.y.to_u8(), vec.z.to_u8())
}

/// Turns a colour into the vector of its red, green and blue. The opacity is
/// left behind.
pub fn get_vector(col: Color) -> (v: Vector3)
    ensures
        holds_color(v, col),
{
    Vector3::new(Scalar::from_u8(col.r), Scalar::from_u8(col.g), Scalar::from_u8(col.b))
}

/// Only one vector holds a given colour.
pub proof fn lemma_one_vector_per_color(v: Vector3, w: Vector3, col: Color)
    requires
        holds_color(v, col),
        holds_color(w, col),
    ensures
        v == w,
{
    v.x.lemma_value_fixes_code(w.x);
    v.y.lemma_value_fixes_code(w.y);
    v.z.lemma_value_fixes_code(w.z);
}

/// An opaque colour that went into a vector comes back out of it unchanged.
pub proof fn lemma_color_round_trip(vec: Vector3, col: Color)
    requires
        holds_color(vec, col),
    ensures
        spec_get_color(vec) == (Color { r: col.r, g: col.g, b: col.b, a: 255 }),
{
    vec.x.lemma_byte_round_trip(col.r);
    vec.y.lemma_byte_round_trip(col.g);
    vec.z.lemma_byte_round_trip(col.b);
}

} // verus!
