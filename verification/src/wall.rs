//! Wall segments, and their extraction from the exposed faces of a grid.

use vstd::prelude::*;
use crate::grid::{grid_height, grid_width, wall_at, Grid, MAX_CELLS};
use crate::space::{
    corner, minus, within, Frame, Point, Vec2, WorldTransform, REACH_LIMIT, WALL_LIMIT,
};

verus! {

/// A side of a cell. North is towards row 0, west towards column 0.
#[derive(Clone, Copy, Debug, PartialEq, Eq, Structural)]
pub enum Face {
    North,
    South,
    West,
    East,
}

/// A face of a cell of the grid.
pub struct FaceAt {
    pub x: int,
    pub y: int,
    pub face: Face,
}

/// The cell on the other side of a face.
pub open spec fn neighbour(x: int, y: int, face: Face) -> (int, int) {
    match face {
        Face::North => (x, y - 1),
        Face::South => (x, y + 1),
        Face::West => (x - 1, y),
        Face::East => (x + 1, y),
    }
}

/// Whether a face separates a wall cell from a free cell or from the outside of the grid.
pub open spec fn exposed(cells: Seq<Seq<bool>>, x: int, y: int, face: Face) -> bool {
    wall_at(cells, x, y) && !wall_at(cells, neighbour(x, y, face).0, neighbour(x, y, face).1)
}

pub open spec fn face_if_exposed(cells: Seq<Seq<bool>>, x: int, y: int, face: Face) -> Seq<FaceAt> {
    if exposed(cells, x, y, face) {
        seq![FaceAt { x, y, face }]
    } else {
        Seq::empty()
    }
}

/// The exposed faces of cell `(x, y)`: north, south, west, east.
pub open spec fn cell_faces(cells: Seq<Seq<bool>>, x: int, y: int) -> Seq<FaceAt> {
    face_if_exposed(cells, x, y, Face::North) + face_if_exposed(cells, x, y, Face::South)
        + face_if_exposed(cells, x, y, Face::West) + face_if_exposed(cells, x, y, Face::East)
}

/// The exposed faces of the first `n` cells of row `y`, west to east.
pub open spec fn row_faces(cells: Seq<Seq<bool>>, y: int, n: int) -> Seq<FaceAt>
    decreases n,
{
    if n <= 0 {
        Seq::empty()
    } else {
        row_faces(cells, y, n - 1) + cell_faces(cells, n - 1, y)
    }
}

/// The exposed faces of the first `m` rows, north to south.
pub open spec fn faces_through(cells: Seq<Seq<bool>>, m: int) -> Seq<FaceAt>
    decreases m,
{
    if m <= 0 {
        Seq::empty()
    } else {
        faces_through(cells, m - 1) + row_faces(cells, m - 1, grid_width(cells))
    }
}

/// Every exposed face of the grid, row by row, and within a row cell by cell.
pub open spec fn exposed_faces(cells: Seq<Seq<bool>>) -> Seq<FaceAt> {
    faces_through(cells, grid_height(cells))
}

/// An oriented wall segment. It stands on the ground from `start` to `end`, is
/// `height` tall, and its solid body reaches `thickness` behind it.
pub struct Wall {
    pub start: Vec2,
    pub end: Vec2,
    pub height: int,
    pub thickness: int,
}

pub open spec fn direction(w: Wall) -> Vec2 {
    minus(w.end, w.start)
}

pub open spec fn signum(v: int) -> int {
    if v > 0 {
        1
    } else if v < 0 {
        -1
    } else {
        0
    }
}

/// The unit vector a quarter turn from the wall's direction `(dx, dz)`: `(-dz, dx)`
/// brought to length one.
pub open spec fn unit_normal(w: Wall) -> Vec2 {
    Vec2 { x: -signum(direction(w).z), z: signum(direction(w).x) }
}

/// Whether the wall runs along one axis and has a length.
pub open spec fn axis_parallel(w: Wall) -> bool {
    (direction(w).x == 0) != (direction(w).z == 0)
}

pub open spec fn valid_wall(w: Wall) -> bool {
    &&& axis_parallel(w)
    &&& within(w.start.x, WALL_LIMIT as int)
    &&& within(w.start.z, WALL_LIMIT as int)
    &&& within(w.end.x, WALL_LIMIT as int)
    &&& within(w.end.z, WALL_LIMIT as int)
    &&& within(w.thickness, REACH_LIMIT as int)
}

/// The wall segment of a face. It runs along the face so that its normal points
/// out of the cell.
pub open spec fn wall_of_face(frame: Frame, f: FaceAt, height: int, thickness: int) -> Wall {
    match f.face {
        Face::North => Wall {
            start: corner(frame, f.x + 1, f.y),
            end: corner(frame, f.x, f.y),
            height,
            thickness,
        },
        Face::South => Wall {
            start: corner(frame, f.x, f.y + 1),
            end: corner(frame, f.x + 1, f.y + 1),
            height,
            thickness,
        },
        Face::West => Wall {
            start: corner(frame, f.x, f.y),
            end: corner(frame, f.x, f.y + 1),
            height,
            thickness,
        },
        Face::East => Wall {
            start: corner(frame, f.x + 1, f.y + 1),
            end: corner(frame, f.x + 1, f.y),
            height,
            thickness,
        },
    }
}

pub open spec fn walls_of_faces(faces: Seq<FaceAt>, frame: Frame, height: int, thickness: int) -> Seq<
    Wall,
> {
    faces.map_values(|f: FaceAt| wall_of_face(frame, f, height, thickness))
}

/// The wall segments of a grid: one for each exposed face, in the order of `exposed_faces`.
pub open spec fn segments_of(cells: Seq<Seq<bool>>, frame: Frame, height: int, thickness: int) -> Seq<
    Wall,
> {
    walls_of_faces(exposed_faces(cells), frame, height, thickness)
}

/// A wall segment in world space.
#[derive(Clone, Copy, Debug, PartialEq, Eq)]
pub struct WallSegment {
    start: Point,
    end: Point,
    height: i64,
    thickness: i64,
}

impl View for WallSegment {
    type V = Wall;

    closed spec fn view(&self) -> Wall {
        Wall {
            start: self.start@,
            end: self.end@,
            height: self.height as int,
            thickness: self.thickness as int,
        }
    }
}

/// What a list of segments holds.
pub open spec fn walls_of(segments: Seq<WallSegment>) -> Seq<Wall> {
    segments.map_values(|s: WallSegment| s@)
}

impl WallSegment {
    #[verifier::type_invariant]
    spec fn inv(&self) -> bool {
        valid_wall(self@)
    }

    /// The segment from `start` to `end`. There is none where the two coincide,
    /// where the segment runs along neither axis, or where a coordinate or the
    /// thickness is beyond its limit.
    pub fn new(start: Point, end: Point, height: i64, thickness: i64) -> (out: Option<WallSegment>)
        ensures
            out is Some <==> valid_wall(
                Wall { start: start@, end: end@, height: height as int, thickness: thickness as int },
            ),
            out matches Some(s) ==> s@ == (Wall {
                start: start@,
                end: end@,
                height: height as int,
                thickness: thickness as int,
            }),
    {
        let along_x = start.z == end.z && start.x != end.x;
        let along_z = start.x == end.x && start.z != end.z;
        if (along_x || along_z) && -WALL_LIMIT <= start.x && start.x <= WALL_LIMIT && -WALL_LIMIT
            <= start.z && start.z <= WALL_LIMIT && -WALL_LIMIT <= end.x && end.x <= WALL_LIMIT
            && -WALL_LIMIT <= end.z && end.z <= WALL_LIMIT && -REACH_LIMIT <= thickness
            && thickness <= REACH_LIMIT {
            Some(WallSegment { start, end, height, thickness })
        } else {
            None
        }
    }

    /// Where the segment starts.
    pub fn start(&self) -> (out: Point)
        ensures
            out@ == self@.start,
            valid_wall(self@),
    {
        proof {
            use_type_invariant(self);
        }
        self.start
    }

    /// Where the segment ends.
    pub fn end(&self) -> (out: Point)
        ensures
            out@ == self@.end,
            valid_wall(self@),
    {
        proof {
            use_type_invariant(self);
        }
        self.end
    }

    /// How tall the wall is.
    pub fn height(&self) -> (out: i64)
        ensures
            out == self@.height,
            valid_wall(self@),
    {
        proof {
            use_type_invariant(self);
        }
        self.height
    }

    /// How far the wall's body reaches behind the segment.
    pub fn thickness(&self) -> (out: i64)
        ensures
            out == self@.thickness,
            valid_wall(self@),
    {
        proof {
            use_type_invariant(self);
        }
        self.thickness
    }

    /// The unit normal of the segment.
    pub fn normal(&self) -> (out: Point)
        ensures
            out@ == unit_normal(self@),
            valid_wall(self@),
    {
        proof {
            use_type_invariant(self);
        }
        let dx: i64 = self.end.x - self.start.x;
        let dz: i64 = self.end.z - self.start.z;
        let nx: i64 = if dz > 0 {
            -1
        } else if dz < 0 {
            1
        } else {
            0
        };
        let nz: i64 = if dx > 0 {
            1
        } else if dx < 0 {
            -1
        } else {
            0
        };
        Point { x: nx, z: nz }
    }
}

/// The walls of two lists of faces, one after the other, are the walls of the
/// two lists joined.
proof fn lemma_walls_of_joined(
    a: Seq<FaceAt>,
    b: Seq<FaceAt>,
    frame: Frame,
    height: int,
    thickness: int,
)
    ensures
        walls_of_faces(a + b, frame, height, thickness) == walls_of_faces(
            a,
            frame,
            height,
            thickness,
        ) + walls_of_faces(b, frame, height, thickness),
{
    let joined = walls_of_faces(a + b, frame, height, thickness);
    let left = walls_of_faces(a, frame, height, thickness);
    let right = walls_of_faces(b, frame, height, thickness);
    assert(joined.len() == (left + right).len());
    assert forall|i: int| 0 <= i < joined.len() implies joined[i] == (left + right)[i] by {
        if i < a.len() {
            assert((a + b)[i] == a[i]);
        } else {
            assert((a + b)[i] == b[i - a.len()]);
        }
    }
    assert(joined =~= left + right);
}

/// The walls of the faces of a cell, face by face.
proof fn lemma_walls_of_cell(
    cells: Seq<Seq<bool>>,
    x: int,
    y: int,
    frame: Frame,
    height: int,
    thickness: int,
)
    ensures
        walls_of_faces(cell_faces(cells, x, y), frame, height, thickness) == wall_if_exposed(
            cells,
            x,
            y,
            Face::North,
            frame,
            height,
            thickness,
        ) + wall_if_exposed(cells, x, y, Face::South, frame, height, thickness) + wall_if_exposed(
            cells,
            x,
            y,
            Face::West,
            frame,
            height,
            thickness,
        ) + wall_if_exposed(cells, x, y, Face::East, frame, height, thickness),
{
    let n = face_if_exposed(cells, x, y, Face::North);
    let s = face_if_exposed(cells, x, y, Face::South);
    let w = face_if_exposed(cells, x, y, Face::West);
    let e = face_if_exposed(cells, x, y, Face::East);
    lemma_walls_of_joined(n + s + w, e, frame, height, thickness);
    lemma_walls_of_joined(n + s, w, frame, height, thickness);
    lemma_walls_of_joined(n, s, frame, height, thickness);
    lemma_wall_if_exposed(cells, x, y, Face::North, frame, height, thickness);
    lemma_wall_if_exposed(cells, x, y, Face::South, frame, height, thickness);
    lemma_wall_if_exposed(cells, x, y, Face::West, frame, height, thickness);
    lemma_wall_if_exposed(cells, x, y, Face::East, frame, height, thickness);
}

proof fn lemma_wall_if_exposed(
    cells: Seq<Seq<bool>>,
    x: int,
    y: int,
    face: Face,
    frame: Frame,
    height: int,
    thickness: int,
)
    ensures
        walls_of_faces(face_if_exposed(cells, x, y, face), frame, height, thickness)
            == wall_if_exposed(cells, x, y, face, frame, height, thickness),
{
    assert(walls_of_faces(face_if_exposed(cells, x, y, face), frame, height, thickness)
        =~= wall_if_exposed(cells, x, y, face, frame, height, thickness));
}

/// The wall of a face, or nothing where the face is not exposed.
spec fn wall_if_exposed(
    cells: Seq<Seq<bool>>,
    x: int,
    y: int,
    face: Face,
    frame: Frame,
    height: int,
    thickness: int,
) -> Seq<Wall> {
    if exposed(cells, x, y, face) {
        seq![wall_of_face(frame, FaceAt { x, y, face }, height, thickness)]
    } else {
        Seq::empty()
    }
}

/// The wall segment of one face of cell `(x, y)`.
fn face_segment(
    transform: &WorldTransform,
    x: usize,
    y: usize,
    face: Face,
    height: i64,
    thickness: i64,
) -> (out: WallSegment)
    requires
        x < MAX_CELLS,
        y < MAX_CELLS,
        within(thickness as int, REACH_LIMIT as int),
    ensures
        out@ == wall_of_face(
            transform@,
            FaceAt { x: x as int, y: y as int, face },
            height as int,
            thickness as int,
        ),
{
    let (start, end) = match face {
        Face::North => (transform.corner(x + 1, y), transform.corner(x, y)),
        Face::South => (transform.corner(x, y + 1), transform.corner(x + 1, y + 1)),
        Face::West => (transform.corner(x, y), transform.corner(x, y + 1)),
        Face::East => (transform.corner(x + 1, y + 1), transform.corner(x + 1, y)),
    };
    proof {
        let size = transform@.cell_size;
        assert((x + 1) * size == x * size + size) by (nonlinear_arith);
        assert((y + 1) * size == y * size + size) by (nonlinear_arith);
    }
    WallSegment { start, end, height, thickness }
}

/// Adds the segment of one face of cell `(x, y)` to `out`, if the face is open.
fn push_face(
    out: &mut Vec<WallSegment>,
    grid: &Grid,
    transform: &WorldTransform,
    x: usize,
    y: usize,
    face: Face,
    height: i64,
    thickness: i64,
    open: bool,
)
    requires
        x < MAX_CELLS,
        y < MAX_CELLS,
        within(thickness as int, REACH_LIMIT as int),
        open == exposed(grid@, x as int, y as int, face),
    ensures
        walls_of(final(out)@) == walls_of(old(out)@) + wall_if_exposed(
            grid@,
            x as int,
            y as int,
            face,
            transform@,
            height as int,
            thickness as int,
        ),
{
    if open {
        let s = face_segment(transform, x, y, face, height, thickness);
        out.push(s);
        assert(walls_of(out@) =~= walls_of(old(out)@) + seq![s@]);
    } else {
        assert(walls_of(out@) =~= walls_of(old(out)@) + Seq::<Wall>::empty());
    }
}

/// Adds the segments of the exposed faces of cell `(x, y)` to `out`.
fn push_cell(
    out: &mut Vec<WallSegment>,
    grid: &Grid,
    transform: &WorldTransform,
    x: usize,
    y: usize,
    height: i64,
    thickness: i64,
)
    requires
        x < MAX_CELLS,
        y < MAX_CELLS,
        within(thickness as int, REACH_LIMIT as int),
    ensures
        walls_of(final(out)@) == walls_of(old(out)@) + walls_of_faces(
            cell_faces(grid@, x as int, y as int),
            transform@,
            height as int,
            thickness as int,
        ),
{
    let wall = grid.is_wall(x, y);
    let north = if y == 0 {
        wall
    } else {
        wall && !grid.is_wall(x, y - 1)
    };
    let south = wall && !grid.is_wall(x, y + 1);
    let west = if x == 0 {
        wall
    } else {
        wall && !grid.is_wall(x - 1, y)
    };
    let east = wall && !grid.is_wall(x + 1, y);
    push_face(out, grid, transform, x, y, Face::North, height, thickness, north);
    push_face(out, grid, transform, x, y, Face::South, height, thickness, south);
    push_face(out, grid, transform, x, y, Face::West, height, thickness, west);
    push_face(out, grid, transform, x, y, Face::East, height, thickness, east);
    proof {
        lemma_walls_of_cell(
            grid@,
            x as int,
            y as int,
            transform@,
            height as int,
            thickness as int,
        );
        let n = wall_if_exposed(
            grid@,
            x as int,
            y as int,
            Face::North,
            transform@,
            height as int,
            thickness as int,
        );
        let s = wall_if_exposed(
            grid@,
            x as int,
            y as int,
            Face::South,
            transform@,
            height as int,
            thickness as int,
        );
        let w = wall_if_exposed(
            grid@,
            x as int,
            y as int,
            Face::West,
            transform@,
            height as int,
            thickness as int,
        );
        let e = wall_if_exposed(
            grid@,
            x as int,
            y as int,
            Face::East,
            transform@,
            height as int,
            thickness as int,
        );
        let before = walls_of(old(out)@);
        assert(before + n + s + w + e =~= before + (n + s + w + e));
    }
}

/// The wall segments of a grid placed by `transform`: one for each face of a
/// wall cell that borders a free cell or the outside of the grid. The cells are
/// visited row by row from the north, each row from the west, and the faces of a
/// cell in the order north, south, west, east.
pub fn extract_segments(
    grid: &Grid,
    transform: &WorldTransform,
    height: i64,
    thickness: i64,
) -> (out: Vec<WallSegment>)
    requires
        within(thickness as int, REACH_LIMIT as int),
    ensures
        walls_of(out@) == segments_of(grid@, transform@, height as int, thickness as int),
{
    let rows = grid.height();
    let cols = grid.width();
    let mut out: Vec<WallSegment> = Vec::new();
    let ghost cells = grid@;
    let ghost frame = transform@;
    proof {
        assert(walls_of(out@) =~= walls_of_faces(
            faces_through(cells, 0),
            frame,
            height as int,
            thickness as int,
        ));
    }
    let mut y: usize = 0;
    while y < rows
        invariant
            cells == grid@,
            frame == transform@,
            rows == grid_height(cells),
            cols == grid_width(cells),
            rows <= MAX_CELLS,
            cols <= MAX_CELLS,
            within(thickness as int, REACH_LIMIT as int),
            y <= rows,
            walls_of(out@) == walls_of_faces(
                faces_through(cells, y as int),
                frame,
                height as int,
                thickness as int,
            ),
        decreases rows - y,
    {
        let mut x: usize = 0;
        proof {
            assert(faces_through(cells, y as int) + row_faces(cells, y as int, 0)
                =~= faces_through(cells, y as int));
        }
        while x < cols
            invariant
                cells == grid@,
                frame == transform@,
                cols == grid_width(cells),
                rows <= MAX_CELLS,
                cols <= MAX_CELLS,
                within(thickness as int, REACH_LIMIT as int),
                y < rows,
                x <= cols,
                walls_of(out@) == walls_of_faces(
                    faces_through(cells, y as int) + row_faces(cells, y as int, x as int),
                    frame,
                    height as int,
                    thickness as int,
                ),
            decreases cols - x,
        {
            let ghost listed = faces_through(cells, y as int) + row_faces(cells, y as int, x as int);
            push_cell(&mut out, grid, transform, x, y, height, thickness);
            proof {
                lemma_walls_of_joined(
                    listed,
                    cell_faces(cells, x as int, y as int),
                    frame,
                    height as int,
                    thickness as int,
                );
                assert(listed + cell_faces(cells, x as int, y as int) =~= faces_through(
                    cells,
                    y as int,
                ) + row_faces(cells, y as int, x as int + 1));
            }
            x += 1;
        }
        y += 1;
    }
    out
}

} // verus!
