//! Lattice coordinates: points, positions, and the placement of a grid in the world.

use vstd::prelude::*;

verus! {

/// Lattice units in one world unit.
pub const UNITS: i64 = 1000;

/// Largest magnitude of a wall coordinate.
pub const WALL_LIMIT: i64 = 0x800_0000;

/// Largest magnitude of a radius or of a wall thickness.
pub const REACH_LIMIT: i64 = 0x400_0000;

/// Largest magnitude of a horizontal coordinate of an agent.
pub const POSITION_LIMIT: i64 = 0x1000_0000;

/// Largest size of a cell.
pub const CELL_SIZE_LIMIT: i64 = 0x4000;

/// Largest magnitude of a coordinate of the corner of cell (0, 0).
pub const ORIGIN_LIMIT: i64 = 0x400_0000;

/// A vector in the horizontal plane.
pub struct Vec2 {
    pub x: int,
    pub z: int,
}

/// A vector in space; `y` points up.
pub struct Vec3 {
    pub x: int,
    pub y: int,
    pub z: int,
}

pub open spec fn dot(a: Vec2, b: Vec2) -> int {
    a.x * b.x + a.z * b.z
}

pub open spec fn length_squared(a: Vec2) -> int {
    dot(a, a)
}

pub open spec fn minus(a: Vec2, b: Vec2) -> Vec2 {
    Vec2 { x: a.x - b.x, z: a.z - b.z }
}

pub open spec fn plus(a: Vec2, b: Vec2) -> Vec2 {
    Vec2 { x: a.x + b.x, z: a.z + b.z }
}

/// The horizontal part of a vector in space.
pub open spec fn flat(p: Vec3) -> Vec2 {
    Vec2 { x: p.x, z: p.z }
}

pub open spec fn within(v: int, limit: int) -> bool {
    -limit <= v <= limit
}

/// The dot product with a vector whose components are -1, 0 or 1.
pub proof fn lemma_dot_with_axis(n: Vec2, v: Vec2)
    requires
        -1 <= n.x <= 1,
        -1 <= n.z <= 1,
    ensures
        dot(n, v) == (if n.x == 1 {
            v.x
        } else if n.x == -1 {
            -v.x
        } else {
            0
        }) + (if n.z == 1 {
            v.z
        } else if n.z == -1 {
            -v.z
        } else {
            0
        }),
{
    assert(n.x * v.x == (if n.x == 1 {
        v.x
    } else if n.x == -1 {
        -v.x
    } else {
        0
    })) by (nonlinear_arith)
        requires
            -1 <= n.x <= 1,
    ;
    assert(n.z * v.z == (if n.z == 1 {
        v.z
    } else if n.z == -1 {
        -v.z
    } else {
        0
    })) by (nonlinear_arith)
        requires
            -1 <= n.z <= 1,
    ;
}

/// A lattice point of the horizontal plane.
#[derive(Clone, Copy, Debug, PartialEq, Eq, Structural)]
pub struct Point {
    pub x: i64,
    pub z: i64,
}

impl View for Point {
    type V = Vec2;

    open spec fn view(&self) -> Vec2 {
        Vec2 { x: self.x as int, z: self.z as int }
    }
}

/// A lattice point of space: where an agent stands, `y` being its eye height.
#[derive(Clone, Copy, Debug, PartialEq, Eq, Structural)]
pub struct Position {
    pub x: i64,
    pub y: i64,
    pub z: i64,
}

impl View for Position {
    type V = Vec3;

    open spec fn view(&self) -> Vec3 {
        Vec3 { x: self.x as int, y: self.y as int, z: self.z as int }
    }
}

impl Position {
    /// Whether the horizontal coordinates are small enough to be tested against walls.
    pub open spec fn in_range(&self) -> bool {
        within(self.x as int, POSITION_LIMIT as int) && within(self.z as int, POSITION_LIMIT as int)
    }
}

/// Where a grid lies in the world: the size of a cell and the corner of cell (0, 0).
pub struct Frame {
    pub cell_size: int,
    pub origin: Vec2,
}

/// The world point of the grid corner `(i, j)`: the north-west corner of cell `(i, j)`.
pub open spec fn corner(frame: Frame, i: int, j: int) -> Vec2 {
    Vec2 { x: frame.origin.x + i * frame.cell_size, z: frame.origin.z + j * frame.cell_size }
}

/// Twice the world point of the centre of cell `(x, y)`; doubled to stay whole.
pub open spec fn twice_centre(frame: Frame, x: int, y: int) -> Vec2 {
    Vec2 {
        x: 2 * frame.origin.x + (2 * x + 1) * frame.cell_size,
        z: 2 * frame.origin.z + (2 * y + 1) * frame.cell_size,
    }
}

pub open spec fn valid_frame(frame: Frame) -> bool {
    &&& 0 < frame.cell_size <= CELL_SIZE_LIMIT
    &&& within(frame.origin.x, ORIGIN_LIMIT as int)
    &&& within(frame.origin.z, ORIGIN_LIMIT as int)
}

/// The frame that centres a grid of `width` by `height` cells on the world origin.
pub open spec fn centred_frame(width: int, height: int, cell_size: int) -> Frame {
    Frame { cell_size, origin: Vec2 { x: -(width * cell_size) / 2, z: -(height * cell_size) / 2 } }
}

/// The index of the cell that holds the coordinate `offset` from the origin:
/// `offset / cell_size`, rounded down.
pub open spec fn cell_index(cell_size: int, offset: int) -> int {
    offset / cell_size
}

/// A coordinate from the near side of cell `i` up to its far side lies in cell `i`.
pub proof fn lemma_cell_index(cell_size: int, i: int, offset: int)
    requires
        cell_size > 0,
        i * cell_size <= offset < (i + 1) * cell_size,
    ensures
        cell_index(cell_size, offset) == i,
{
    assert((i + 1) * cell_size == i * cell_size + cell_size) by (nonlinear_arith);
    vstd::arithmetic::div_mod::lemma_fundamental_div_mod_converse(
        offset,
        cell_size,
        i,
        offset - i * cell_size,
    );
}

/// From the grid to the world and back: the centre of cell `(x, y)` lies in cell
/// `(x, y)`. The centre is taken doubled, and so is the cell size.
pub proof fn lemma_centre_round_trip(frame: Frame, x: int, y: int)
    requires
        frame.cell_size > 0,
    ensures
        cell_index(2 * frame.cell_size, twice_centre(frame, x, y).x - 2 * frame.origin.x) == x,
        cell_index(2 * frame.cell_size, twice_centre(frame, x, y).z - 2 * frame.origin.z) == y,
{
    let s = frame.cell_size;
    assert(x * (2 * s) <= (2 * x + 1) * s < (x + 1) * (2 * s)) by (nonlinear_arith)
        requires
            s > 0,
    ;
    assert(y * (2 * s) <= (2 * y + 1) * s < (y + 1) * (2 * s)) by (nonlinear_arith)
        requires
            s > 0,
    ;
    lemma_cell_index(2 * s, x, (2 * x + 1) * s);
    lemma_cell_index(2 * s, y, (2 * y + 1) * s);
}

/// `a / b`, rounded down.
fn floor_div(a: i64, b: i64) -> (out: i64)
    requires
        b > 0,
        a > i64::MIN,
    ensures
        out == (a as int) / (b as int),
{
    if a >= 0 {
        a / b
    } else {
        let n: i64 = -a;
        let q: i64 = n / b;
        let r: i64 = n % b;
        proof {
            vstd::arithmetic::div_mod::lemma_fundamental_div_mod(n as int, b as int);
            assert(q * b == b * q) by (nonlinear_arith);
            lemma_floor_of_negative(a as int, b as int, q as int, r as int);
        }
        if r == 0 {
            -q
        } else {
            -q - 1
        }
    }
}

proof fn lemma_floor_of_negative(a: int, b: int, q: int, r: int)
    requires
        b > 0,
        a < 0,
        -a == q * b + r,
        0 <= r < b,
    ensures
        a / b == (if r == 0 {
            -q
        } else {
            -q - 1
        }),
{
    if r == 0 {
        assert(a == (-q) * b + 0) by (nonlinear_arith)
            requires
                -a == q * b + r,
                r == 0,
        ;
        vstd::arithmetic::div_mod::lemma_fundamental_div_mod_converse(a, b, -q, 0);
    } else {
        assert(a == (-q - 1) * b + (b - r)) by (nonlinear_arith)
            requires
                -a == q * b + r,
        ;
        vstd::arithmetic::div_mod::lemma_fundamental_div_mod_converse(a, b, -q - 1, b - r);
    }
}

/// The placement of a grid in the world.
#[derive(Clone, Copy, Debug)]
pub struct WorldTransform {
    cell_size: i64,
    origin_x: i64,
    origin_z: i64,
}

impl View for WorldTransform {
    type V = Frame;

    closed spec fn view(&self) -> Frame {
        Frame {
            cell_size: self.cell_size as int,
            origin: Vec2 { x: self.origin_x as int, z: self.origin_z as int },
        }
    }
}

impl WorldTransform {
    #[verifier::type_invariant]
    spec fn inv(&self) -> bool {
        valid_frame(self@)
    }

    /// A transform with the given cell size and origin, if they are within the limits.
    pub fn new(cell_size: i64, origin: Point) -> (out: Option<WorldTransform>)
        ensures
            out is Some <==> valid_frame(Frame { cell_size: cell_size as int, origin: origin@ }),
            out matches Some(t) ==> t@ == (Frame { cell_size: cell_size as int, origin: origin@ }),
    {
        if 0 < cell_size && cell_size <= CELL_SIZE_LIMIT && -ORIGIN_LIMIT <= origin.x && origin.x
            <= ORIGIN_LIMIT && -ORIGIN_LIMIT <= origin.z && origin.z <= ORIGIN_LIMIT {
            Some(WorldTransform { cell_size, origin_x: origin.x, origin_z: origin.z })
        } else {
            None
        }
    }

    /// The transform that centres a grid of `width` by `height` cells on the world
    /// origin. There is none where the cell size is not positive or too large,
    /// where the grid is too large, or where the grid's extent is an odd number of
    /// lattice units, so that its half is no lattice point.
    pub fn centered(width: usize, height: usize, cell_size: i64) -> (out: Option<WorldTransform>)
        ensures
            out is Some <==> {
                &&& 0 < cell_size <= CELL_SIZE_LIMIT
                &&& width <= crate::grid::MAX_CELLS
                &&& height <= crate::grid::MAX_CELLS
                &&& (width * cell_size) % 2 == 0
                &&& (height * cell_size) % 2 == 0
            },
            out matches Some(t) ==> {
                &&& t@ == centred_frame(width as int, height as int, cell_size as int)
                &&& 2 * t@.origin.x == -(width * cell_size)
                &&& 2 * t@.origin.z == -(height * cell_size)
            },
    {
        if cell_size <= 0 || cell_size > CELL_SIZE_LIMIT || width > crate::grid::MAX_CELLS || height
            > crate::grid::MAX_CELLS {
            return None;
        }
        assert(0 <= width * cell_size <= 4096 * 0x4000) by (nonlinear_arith)
            requires
                0 <= width <= 4096,
                0 < cell_size <= 0x4000,
        ;
        assert(0 <= height * cell_size <= 4096 * 0x4000) by (nonlinear_arith)
            requires
                0 <= height <= 4096,
                0 < cell_size <= 0x4000,
        ;
        let span_x: i64 = (width as i64) * cell_size;
        let span_z: i64 = (height as i64) * cell_size;
        if span_x % 2 != 0 || span_z % 2 != 0 {
            return None;
        }
        Some(WorldTransform { cell_size, origin_x: -(span_x / 2), origin_z: -(span_z / 2) })
    }

    /// The world point of the grid corner `(i, j)`.
    pub fn corner(&self, i: usize, j: usize) -> (out: Point)
        requires
            i <= crate::grid::MAX_CELLS,
            j <= crate::grid::MAX_CELLS,
        ensures
            out@ == corner(self@, i as int, j as int),
            within(out.x as int, WALL_LIMIT as int),
            within(out.z as int, WALL_LIMIT as int),
            valid_frame(self@),
    {
        proof {
            use_type_invariant(self);
        }
        let size = self.cell_size;
        assert(0 <= i * size <= 4096 * 0x4000) by (nonlinear_arith)
            requires
                0 <= i <= 4096,
                0 < size <= 0x4000,
        ;
        assert(0 <= j * size <= 4096 * 0x4000) by (nonlinear_arith)
            requires
                0 <= j <= 4096,
                0 < size <= 0x4000,
        ;
        Point { x: self.origin_x + (i as i64) * size, z: self.origin_z + (j as i64) * size }
    }

    /// The column and row of the cell that holds the world point `p`, counted
    /// from cell (0, 0) and on beyond the grid on every side.
    pub fn cell_at(&self, p: Point) -> (out: (i64, i64))
        requires
            within(p.x as int, POSITION_LIMIT as int),
            within(p.z as int, POSITION_LIMIT as int),
        ensures
            out.0 == cell_index(self@.cell_size, p.x - self@.origin.x),
            out.1 == cell_index(self@.cell_size, p.z - self@.origin.z),
    {
        proof {
            use_type_invariant(self);
        }
        (
            floor_div(p.x - self.origin_x, self.cell_size),
            floor_div(p.z - self.origin_z, self.cell_size),
        )
    }

    /// The size of a cell.
    pub fn cell_size(&self) -> (out: i64)
        ensures
            out == self@.cell_size,
            valid_frame(self@),
    {
        proof {
            use_type_invariant(self);
        }
        self.cell_size
    }

    /// The world point of the corner of cell (0, 0).
    pub fn origin(&self) -> (out: Point)
        ensures
            out@ == self@.origin,
            valid_frame(self@),
    {
        proof {
            use_type_invariant(self);
        }
        Point { x: self.origin_x, z: self.origin_z }
    }
}

} // verus!
