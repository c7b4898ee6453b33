//! The level as the game uses it: the walls of a grid with their colliders and meshes.

use vstd::prelude::*;
use crate::collision::{walls_of_colliders, WallCollider, WALL_THICKNESS};
use crate::grid::{grid_height, grid_width, Grid};
use crate::mesh::{create_wall, create_wall_edge, is_edge_mesh, is_wall_mesh, Color, Mesh};
use crate::space::{centred_frame, Frame, WorldTransform};
use crate::wall::{extract_segments, segments_of, walls_of, Wall, WallSegment};

verus! {

/// The size of a cell of the garage: two world units.
pub const CELL_SIZE: i64 = 2000;

/// The height of the walls of the garage: four world units.
pub const WALL_HEIGHT: i64 = 4000;

/// The garage built from a grid.
pub struct Garage {
    pub transform: WorldTransform,
    pub segments: Vec<WallSegment>,
    pub colliders: Vec<WallCollider>,
    pub walls: Vec<Mesh>,
    pub edges: Vec<Mesh>,
}

/// The placement of the garage: the grid is centred on the world origin.
pub open spec fn garage_frame(cells: Seq<Seq<bool>>) -> Frame {
    centred_frame(grid_width(cells), grid_height(cells), CELL_SIZE as int)
}

/// The walls of the garage.
pub open spec fn garage_walls(cells: Seq<Seq<bool>>) -> Seq<Wall> {
    segments_of(cells, garage_frame(cells), WALL_HEIGHT as int, WALL_THICKNESS as int)
}

/// The colliders of a list of segments, one for each, in their order.
pub fn create_colliders(segments: &Vec<WallSegment>) -> (out: Vec<WallCollider>)
    ensures
        walls_of_colliders(out@) == walls_of(segments@),
{
    let mut out: Vec<WallCollider> = Vec::new();
    let mut i: usize = 0;
    while i < segments.len()
        invariant
            i <= segments.len(),
            out@.len() == i,
            forall|j: int| 0 <= j < i ==> (#[trigger] out@[j])@ == segments@[j]@,
        decreases segments.len() - i,
    {
        out.push(WallCollider::from_segment(segments[i]));
        i += 1;
    }
    proof {
        assert(walls_of_colliders(out@) =~= walls_of(segments@));
    }
    out
}

/// The meshes of a list of segments: for each segment its box, in white, and its
/// outline, in the order of the segments. A list without segments has none.
pub fn create_wall_meshes(segments: &Vec<WallSegment>) -> (out: (Vec<Mesh>, Vec<Mesh>))
    ensures
        out.0@.len() == segments@.len(),
        out.1@.len() == segments@.len(),
        forall|i: int|
            0 <= i < segments@.len() ==> is_wall_mesh(
                #[trigger] out.0@[i],
                segments@[i]@,
                Color::white(),
            ),
        forall|i: int| 0 <= i < segments@.len() ==> is_edge_mesh(#[trigger] out.1@[i], segments@[i]@),
{
    let mut walls: Vec<Mesh> = Vec::new();
    let mut edges: Vec<Mesh> = Vec::new();
    let mut i: usize = 0;
    while i < segments.len()
        invariant
            i <= segments.len(),
            walls@.len() == i,
            edges@.len() == i,
            forall|j: int|
                0 <= j < i ==> is_wall_mesh(#[trigger] walls@[j], segments@[j]@, Color::white()),
            forall|j: int| 0 <= j < i ==> is_edge_mesh(#[trigger] edges@[j], segments@[j]@),
        decreases segments.len() - i,
    {
        walls.push(create_wall(&segments[i], Color::white()));
        edges.push(create_wall_edge(&segments[i]));
        i += 1;
    }
    (walls, edges)
}

/// The garage of a grid: the grid centred on the world origin with cells of
/// `CELL_SIZE`, a wall segment of `WALL_HEIGHT` and `WALL_THICKNESS` for each
/// exposed face, and for each segment a collider, a box and an outline.
pub fn create_parking_garage(grid: &Grid) -> (out: Garage)
    ensures
        out.transform@ == garage_frame(grid@),
        walls_of(out.segments@) == garage_walls(grid@),
        walls_of_colliders(out.colliders@) == garage_walls(grid@),
        out.walls@.len() == out.segments@.len(),
        out.edges@.len() == out.segments@.len(),
        forall|i: int|
            0 <= i < out.segments@.len() ==> is_wall_mesh(
                #[trigger] out.walls@[i],
                out.segments@[i]@,
                Color::white(),
            ),
        forall|i: int|
            0 <= i < out.segments@.len() ==> is_edge_mesh(
                #[trigger] out.edges@[i],
                out.segments@[i]@,
            ),
{
    let width = grid.width();
    let height = grid.height();
    assert((width * 2000) % 2 == 0 && (height * 2000) % 2 == 0) by (nonlinear_arith);
    let transform = match WorldTransform::centered(width, height, CELL_SIZE) {
        Some(t) => t,
        None => vstd::pervasive::unreached(),
    };
    let segments = extract_segments(grid, &transform, WALL_HEIGHT, WALL_THICKNESS);
    let colliders = create_colliders(&segments);
    let (walls, edges) = create_wall_meshes(&segments);
    Garage { transform, segments, colliders, walls, edges }
}

} // verus!
