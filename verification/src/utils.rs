//! The other way from a vector to a colour.

use crate::colors::holds_color;
use crate::colors::spec_get_color;
use crate::colors::Color;
use crate::vector::Vector3;
use vstd::prelude::*;

verus! {

/// The low eight bits of a 32-bit integer, as a byte.
pub open spec fn spec_low_byte(i: i32) -> u8 {
    ((i as int) % 256) as u8
}

/// The colour of a vector whose components are first cast to 32-bit integers
/// and then cut to their low eight bits: a channel of 256 comes out as 0, and
/// one of -1 as 255.
pub open spec fn spec_vector_to_color(color: Vector3) -> Color {
    Color {
        r: spec_low_byte(color.x.spec_to_i32()),
        g: spec_low_byte(color.y.spec_to_i32()),
        b: spec_low_byte(color.z.spec_to_i32()),
        a: 255,
    }
}

/// Cuts a 32-bit integer to its low eight bits.
pub fn low_byte(i: i32) -> (b: u8)
    ensures
        b == spec_low_byte(i),
{
    let lifted: i64 = i as i64 + 0x8000_0000;
    (lifted % 256) as u8
}

/// Turns a vector into a colour by way of 32-bit integers.
pub fn vector_to_color(color: Vector3) -> (c: Color)
    ensures
        c == spec_vector_to_color(color),
{
    Color::RGB(low_byte(color.x.to_i32()), low_byte(color.y.to_i32()), low_byte(color.z.to_i32()))
}

/// Where every component is a count of at most 255, the colour is the same
/// as the one that the cast to bytes gives.
pub proof fn lemma_counts_come_out_alike(color: Vector3, col: Color)
    requires
        holds_color(color, col),
    ensures
        spec_vector_to_color(color) == spec_get_color(color),
{
    color.x.lemma_byte_round_trip(col.r);
    color.y.lemma_byte_round_trip(col.g);
    color.z.lemma_byte_round_trip(col.b);
}

} // verus!
