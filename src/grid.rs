//! The world's bounding box in cells, its six walls, and the grid lines drawn
//! on them. Points here are in whole cells; scaling them to world lengths is
//! left to the caller.
use vstd::prelude::*;

verus! {

/// Extent of the world box in cells along each axis.
#[derive(Clone, Copy, Debug, PartialEq, Eq, Structural)]
pub struct GridSize {
    pub x: u32,
    pub y: u32,
    pub z: u32,
}

/// One face of the world box: the low or the high face on an axis.
#[derive(Clone, Copy, Debug, PartialEq, Eq, Structural)]
pub enum Wall {
    XMin,
    XMax,
    YMin,
    YMax,
    ZMin,
    ZMax,
}

/// A grid corner, in cells.
#[derive(Clone, Copy, Debug, PartialEq, Eq, Structural)]
pub struct GridPoint {
    pub x: u32,
    pub y: u32,
    pub z: u32,
}

/// The position of a wall in the order XMin, XMax, YMin, YMax, ZMin, ZMax.
pub open spec fn spec_wall_index(w: Wall) -> nat {
    match w {
        Wall::XMin => 0,
        Wall::XMax => 1,
        Wall::YMin => 2,
        Wall::YMax => 3,
        Wall::ZMin => 4,
        Wall::ZMax => 5,
    }
}

pub fn wall_index(w: Wall) -> (r: usize)
    ensures
        r == spec_wall_index(w),
{
    match w {
        Wall::XMin => 0,
        Wall::XMax => 1,
        Wall::YMin => 2,
        Wall::YMax => 3,
        Wall::ZMin => 4,
        Wall::ZMax => 5,
    }
}

/// The wall on one axis that does not face the camera: the high wall when
/// the eye is below the target on that axis, else the low wall.
pub open spec fn back_wall(low: Wall, high: Wall, eye_below_target: bool) -> Wall {
    if eye_below_target {
        high
    } else {
        low
    }
}

/// The three walls that face away from the camera, one per axis, in x, y, z
/// order. Each flag tells whether the eye's coordinate on that axis is less
/// than the target's.
pub fn back_walls(x_below: bool, y_below: bool, z_below: bool) -> (r: [Wall; 3])
    ensures
        r@ == seq![
            back_wall(Wall::XMin, Wall::XMax, x_below),
            back_wall(Wall::YMin, Wall::YMax, y_below),
            back_wall(Wall::ZMin, Wall::ZMax, z_below),
        ],
{
    let wx = if x_below {
        Wall::XMax
    } else {
        Wall::XMin
    };
    let wy = if y_below {
        Wall::YMax
    } else {
        Wall::YMin
    };
    let wz = if z_below {
        Wall::ZMax
    } else {
        Wall::ZMin
    };
    let r = [wx, wy, wz];
    assert(r@ =~= seq![wx, wy, wz]);
    r
}

/// The axis that a wall is perpendicular to.
#[derive(Clone, Copy, Debug, PartialEq, Eq, Structural)]
pub enum Axis {
    X,
    Y,
    Z,
}

/// A point on a wall perpendicular to `axis` at height `f`, given by its two
/// in-plane coordinates in x, y, z order: `p` on the first remaining axis and
/// `q` on the second.
pub open spec fn on_wall(axis: Axis, f: u32, p: u32, q: u32) -> GridPoint {
    match axis {
        Axis::X => GridPoint { x: f, y: p, z: q },
        Axis::Y => GridPoint { x: p, y: f, z: q },
        Axis::Z => GridPoint { x: p, y: q, z: f },
    }
}

/// A wall's axis, its height, and the box's extents on its two in-plane axes.
pub open spec fn wall_frame(size: GridSize, w: Wall) -> (Axis, u32, u32, u32) {
    match w {
        Wall::XMin => (Axis::X, 0, size.y, size.z),
        Wall::XMax => (Axis::X, size.x, size.y, size.z),
        Wall::YMin => (Axis::Y, 0, size.x, size.z),
        Wall::YMax => (Axis::Y, size.y, size.x, size.z),
        Wall::ZMin => (Axis::Z, 0, size.x, size.y),
        Wall::ZMax => (Axis::Z, size.z, size.x, size.y),
    }
}

/// Number of grid lines on a wall: one per cell boundary on each in-plane axis.
pub open spec fn wall_line_count(size: GridSize, w: Wall) -> nat {
    let (_, _, ep, eq) = wall_frame(size, w);
    ((ep + 1) + (eq + 1)) as nat
}

/// Endpoint `j % 2` of line `j / 2` on a wall. Lines `0..=ep` run across the
/// second in-plane axis at first-axis coordinate 0, 1, ..., `ep`; the lines
/// after them run across the first in-plane axis at second-axis coordinate
/// 0, 1, ..., `eq`.
pub open spec fn wall_vertex(size: GridSize, w: Wall, j: int) -> GridPoint {
    let (axis, f, ep, eq) = wall_frame(size, w);
    let l = j / 2;
    let start = j % 2 == 0;
    if l <= ep {
        on_wall(axis, f, l as u32, if start { 0 } else { eq })
    } else {
        on_wall(axis, f, if start { 0 } else { ep }, (l - (ep + 1)) as u32)
    }
}

/// The grid of one wall as a list of line endpoints, two per line.
pub open spec fn wall_vertices(size: GridSize, w: Wall) -> Seq<GridPoint> {
    Seq::new(2 * wall_line_count(size, w), |j: int| wall_vertex(size, w, j))
}

/// The grids of several walls, one after the other.
pub open spec fn grid_vertices(size: GridSize, walls: Seq<Wall>) -> Seq<GridPoint>
    decreases walls.len(),
{
    if walls.len() == 0 {
        Seq::empty()
    } else {
        grid_vertices(size, walls.drop_last()) + wall_vertices(size, walls.last())
    }
}

fn point_on_wall(axis: Axis, f: u32, p: u32, q: u32) -> (r: GridPoint)
    ensures
        r == on_wall(axis, f, p, q),
{
    match axis {
        Axis::X => GridPoint { x: f, y: p, z: q },
        Axis::Y => GridPoint { x: p, y: f, z: q },
        Axis::Z => GridPoint { x: p, y: q, z: f },
    }
}

fn frame_of(size: GridSize, w: Wall) -> (r: (Axis, u32, u32, u32))
    ensures
        r == wall_frame(size, w),
{
    match w {
        Wall::XMin => (Axis::X, 0, size.y, size.z),
        Wall::XMax => (Axis::X, size.x, size.y, size.z),
        Wall::YMin => (Axis::Y, 0, size.x, size.z),
        Wall::YMax => (Axis::Y, size.y, size.x, size.z),
        Wall::ZMin => (Axis::Z, 0, size.x, size.y),
        Wall::ZMax => (Axis::Z, size.z, size.x, size.y),
    }
}

/// Appends the grid of one wall to `out`.
fn push_wall_grid(out: &mut Vec<GridPoint>, size: GridSize, w: Wall)
    ensures
        final(out)@ == old(out)@ + wall_vertices(size, w),
{
    let ghost start = out@;
    let ghost target = wall_vertices(size, w);
    let (axis, f, ep, eq) = frame_of(size, w);
    let mut l: u64 = 0;
    while l <= ep as u64
        invariant
            l <= ep as u64 + 1,
            (axis, f, ep, eq) == wall_frame(size, w),
            target == wall_vertices(size, w),
            out@ == start + target.subrange(0, 2 * l as int),
        decreases ep as u64 + 1 - l,
    {
        let a = point_on_wall(axis, f, l as u32, 0);
        let b = point_on_wall(axis, f, l as u32, eq);
        out.push(a);
        out.push(b);
        assert(target[2 * l as int] == a);
        assert(target[2 * l as int + 1] == b);
        assert(out@ =~= start + target.subrange(0, 2 * (l + 1) as int));
        l = l + 1;
    }
    let mut m: u64 = 0;
    while m <= eq as u64
        invariant
            m <= eq as u64 + 1,
            (axis, f, ep, eq) == wall_frame(size, w),
            target == wall_vertices(size, w),
            out@ == start + target.subrange(0, 2 * (ep + 1 + m) as int),
        decreases eq as u64 + 1 - m,
    {
        let a = point_on_wall(axis, f, 0, m as u32);
        let b = point_on_wall(axis, f, ep, m as u32);
        out.push(a);
        out.push(b);
        assert(target[2 * (ep + 1 + m) as int] == a);
        assert(target[2 * (ep + 1 + m) as int + 1] == b);
        assert(out@ =~= start + target.subrange(0, 2 * (ep + 1 + m + 1) as int));
        m = m + 1;
    }
    assert(target.subrange(0, target.len() as int) =~= target);
}

/// The grid lines of the given walls, in the walls' order: a list of line
/// endpoints, two per line, in cells.
pub fn build_wall_grid(size: GridSize, walls: &[Wall]) -> (r: Vec<GridPoint>)
    ensures
        r@ == grid_vertices(size, walls@),
{
    let mut out: Vec<GridPoint> = Vec::new();
    let mut i: usize = 0;
    while i < walls.len()
        invariant
            0 <= i <= walls@.len(),
            out@ == grid_vertices(size, walls@.subrange(0, i as int)),
        decreases walls@.len() - i,
    {
        let ghost before = out@;
        push_wall_grid(&mut out, size, walls[i]);
        proof {
            let next = walls@.subrange(0, i + 1);
            assert(next.drop_last() =~= walls@.subrange(0, i as int));
            assert(next.last() == walls@[i as int]);
        }
        i = i + 1;
    }
    assert(walls@.subrange(0, walls@.len() as int) =~= walls@);
    out
}

} // verus!
