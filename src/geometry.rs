use vstd::prelude::*;

verus! {

/// Position of an entity's center. `z` only orders drawing; collision
/// ignores it.
#[derive(Clone, Copy, Debug, PartialEq, Eq, Structural)]
pub struct Position {
    pub x: i64,
    pub y: i64,
    pub z: i64,
}

/// Half width and half height of an entity's rectangle.
#[derive(Clone, Copy, Debug, PartialEq, Eq, Structural)]
pub struct Extent {
    pub half_width: u32,
    pub half_height: u32,
}

/// The side of the first rectangle through which the second one touches it.
#[derive(Clone, Copy, Debug, PartialEq, Eq, Structural)]
pub enum Side {
    /// The second rectangle lies above the first.
    Top,
    /// The second rectangle lies below the first.
    Bottom,
    /// The second rectangle lies to the left of the first.
    Left,
    /// The second rectangle lies to the right of the first.
    Right,
}

pub open spec fn abs(v: int) -> int {
    if v < 0 { -v } else { v }
}

/// How deep the rectangles reach into each other along x; negative when
/// they are apart on that axis, zero when their edges touch.
pub open spec fn depth_x(a: Position, ae: Extent, b: Position, be: Extent) -> int {
    ae.half_width + be.half_width - abs(b.x - a.x)
}

/// How deep the rectangles reach into each other along y.
pub open spec fn depth_y(a: Position, ae: Extent, b: Position, be: Extent) -> int {
    ae.half_height + be.half_height - abs(b.y - a.y)
}

/// Rectangles that overlap or touch along an edge are in contact. The side
/// is taken on the axis of smaller penetration, the vertical one on a tie.
/// Where the centers line up on the chosen axis, the second rectangle counts
/// as below (vertical) or to the left (horizontal).
pub open spec fn side_of(a: Position, ae: Extent, b: Position, be: Extent) -> Option<Side> {
    let px = depth_x(a, ae, b, be);
    let py = depth_y(a, ae, b, be);
    if px < 0 || py < 0 {
        None
    } else if py <= px {
        if b.y <= a.y { Some(Side::Bottom) } else { Some(Side::Top) }
    } else {
        if b.x <= a.x { Some(Side::Left) } else { Some(Side::Right) }
    }
}

fn abs_diff_i128(p: i64, q: i64) -> (r: i128)
    ensures
        r == abs(q - p),
{
    let d: i128 = q as i128 - p as i128;
    if d < 0 { -d } else { d }
}

/// Tests rectangle `a` against rectangle `b` and reports the side of `a`
/// that `b` touches, if any.
pub fn collide(a_pos: Position, a_ext: Extent, b_pos: Position, b_ext: Extent) -> (r: Option<Side>)
    ensures
        r == side_of(a_pos, a_ext, b_pos, b_ext),
{
    let px: i128 = a_ext.half_width as i128 + b_ext.half_width as i128 - abs_diff_i128(a_pos.x, b_pos.x);
    let py: i128 = a_ext.half_height as i128 + b_ext.half_height as i128 - abs_diff_i128(a_pos.y, b_pos.y);
    if px < 0 || py < 0 {
        None
    } else if py <= px {
        if b_pos.y <= a_pos.y { Some(Side::Bottom) } else { Some(Side::Top) }
    } else {
        if b_pos.x <= a_pos.x { Some(Side::Left) } else { Some(Side::Right) }
    }
}

} // verus!
