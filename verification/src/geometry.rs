//! Plain geometric data: fixed-point vectors, colors, and the rectangle
//! hit test shared by every interactive widget kind.

use vstd::prelude::*;

verus! {

/// A two-component fixed-point vector, used for positions, sizes and
/// pointer coordinates, in units of 1/`fixed::COORD_ONE`.
#[derive(Clone, Copy, PartialEq, Eq, Structural, Debug)]
pub struct Vec2 {
    pub x: i64,
    pub y: i64,
}

impl Vec2 {
    pub fn new(x: i64, y: i64) -> (v: Vec2)
        ensures
            v == (Vec2 { x, y }),
    {
        Vec2 { x, y }
    }
}

/// An RGBA color. The toolkit carries it for the host's renderer and
/// never reads it.
#[derive(Clone, Copy, PartialEq, Eq, Structural, Debug)]
pub struct Color {
    pub r: u8,
    pub g: u8,
    pub b: u8,
    pub a: u8,
}

impl Color {
    pub fn new(r: u8, g: u8, b: u8, a: u8) -> (c: Color)
        ensures
            c == (Color { r, g, b, a }),
    {
        Color { r, g, b, a }
    }
}

/// p displaced by the movement from `from` to `to`, each axis saturated
/// into the representable range.
pub open spec fn vec_offset_sat(p: Vec2, to: Vec2, from: Vec2) -> Vec2 {
    Vec2 {
        x: crate::fixed::sat64(p.x + to.x - from.x) as i64,
        y: crate::fixed::sat64(p.y + to.y - from.y) as i64,
    }
}

/// The pointer lies strictly inside the rectangle spanned from
/// `position` over `size`, on both axes: the hit test used by every
/// widget kind. Both edges are exclusive.
pub open spec fn in_rect(m: Vec2, position: Vec2, size: Vec2) -> bool {
    position.x < m.x < position.x + size.x && position.y < m.y < position.y + size.y
}

/// Executable hit test. The edge sums are formed in a wider integer
/// type, so arbitrary coordinates are accepted.
pub fn hit_test(m: Vec2, position: Vec2, size: Vec2) -> (hit: bool)
    ensures
        hit == in_rect(m, position, size),
{
    m.x > position.x && (m.x as i128) < position.x as i128 + size.x as i128 && m.y > position.y
        && (m.y as i128) < position.y as i128 + size.y as i128
}

} // verus!
