//! The meshes of a wall segment: the box of the wall and the outline at its corners.

use vstd::prelude::*;
use crate::space::{plus, Position, Vec2, Vec3};
use crate::wall::{direction, signum, unit_normal, valid_wall, Wall, WallSegment};

verus! {

/// Half the width of an outline strip: five hundredths of a world unit.
pub const EDGE_THICKNESS: i64 = 50;

/// How far an outline strip stands out beyond the end of its wall: two
/// hundredths of a world unit.
pub const EDGE_OFFSET: i64 = 20;

/// One whole, for a colour channel and for a texture coordinate.
pub const FULL: i64 = 1000;

/// A colour; each channel runs from 0 to `FULL`.
#[derive(Clone, Copy, Debug, PartialEq, Eq, Structural)]
pub struct Color {
    pub r: i64,
    pub g: i64,
    pub b: i64,
}

impl Color {
    pub open spec fn white_spec() -> Color {
        Color { r: FULL, g: FULL, b: FULL }
    }

    pub open spec fn black_spec() -> Color {
        Color { r: 0, g: 0, b: 0 }
    }

    pub open spec fn grey_spec() -> Color {
        Color { r: 500, g: 500, b: 500 }
    }

    #[verifier::when_used_as_spec(white_spec)]
    pub fn white() -> (out: Color)
        ensures
            out == Color::white_spec(),
    {
        Color { r: FULL, g: FULL, b: FULL }
    }

    #[verifier::when_used_as_spec(black_spec)]
    pub fn black() -> (out: Color)
        ensures
            out == Color::black_spec(),
    {
        Color { r: 0, g: 0, b: 0 }
    }

    /// The colour of a wall before it is tinted.
    #[verifier::when_used_as_spec(grey_spec)]
    pub fn grey() -> (out: Color)
        ensures
            out == Color::grey_spec(),
    {
        Color { r: 500, g: 500, b: 500 }
    }
}

/// Which mesh of a wall segment a mesh is.
#[derive(Clone, Copy, Debug, PartialEq, Eq, Structural)]
pub enum MeshKind {
    Wall,
    WallEdge,
}

/// A vertex of a mesh, as the mesh builder states it.
pub struct Vertex {
    pub position: Vec3,
    pub color: Color,
    pub tex_u: int,
    pub tex_v: int,
    pub model_type: int,
}

/// A vertex of a mesh. The texture coordinates run from 0 to `FULL`; the model
/// type is 1 on a wall, which takes the wall texture, and 0 elsewhere.
#[derive(Clone, Copy, Debug, PartialEq, Eq)]
pub struct ModelVertex {
    pub position: Position,
    pub color: Color,
    pub tex_u: i64,
    pub tex_v: i64,
    pub model_type: u32,
}

impl View for ModelVertex {
    type V = Vertex;

    open spec fn view(&self) -> Vertex {
        Vertex {
            position: self.position@,
            color: self.color,
            tex_u: self.tex_u as int,
            tex_v: self.tex_v as int,
            model_type: self.model_type as int,
        }
    }
}

/// What a list of vertices holds.
pub open spec fn vertices_of(vertices: Seq<ModelVertex>) -> Seq<Vertex> {
    vertices.map_values(|v: ModelVertex| v@)
}

/// A mesh: vertices, and triangles as triples of indices into them.
#[derive(Debug)]
pub struct Mesh {
    pub kind: MeshKind,
    pub vertices: Vec<ModelVertex>,
    pub indices: Vec<u16>,
    pub color: Color,
    pub is_wall: bool,
}

/// `length` along the direction of sign `sign`.
pub open spec fn toward(sign: int, length: int) -> int {
    if sign > 0 {
        length
    } else if sign < 0 {
        -length
    } else {
        0
    }
}

/// How far the back face of the wall's box lies from its front face: the
/// thickness, along the normal.
pub open spec fn depth(w: Wall) -> Vec2 {
    Vec2 { x: toward(unit_normal(w).x, w.thickness), z: toward(unit_normal(w).z, w.thickness) }
}

/// The unit vector along the wall.
pub open spec fn unit_tangent(w: Wall) -> Vec2 {
    Vec2 { x: signum(direction(w).x), z: signum(direction(w).z) }
}

/// Vertex `i` of the wall's box, from 0 to 7. The first four are the front face,
/// the last four the back face; each face runs from the bottom at the wall's
/// start to the bottom at its end, up to the top at its end, and back to the top
/// at its start. The texture spans each face once.
pub open spec fn wall_vertex(w: Wall, color: Color, i: int) -> Vertex {
    let at_end = i % 4 == 1 || i % 4 == 2;
    let at_top = i % 4 >= 2;
    let foot = if at_end {
        w.end
    } else {
        w.start
    };
    let ground = if i >= 4 {
        plus(foot, depth(w))
    } else {
        foot
    };
    Vertex {
        position: Vec3 { x: ground.x, y: if at_top {
            w.height
        } else {
            0
        }, z: ground.z },
        color,
        tex_u: if at_end {
            FULL as int
        } else {
            0
        },
        tex_v: if at_top {
            0
        } else {
            FULL as int
        },
        model_type: 1,
    }
}

pub open spec fn wall_vertices(w: Wall, color: Color) -> Seq<Vertex> {
    Seq::new(8, |i: int| wall_vertex(w, color, i))
}

/// The twelve triangles of the box: front, back, top, bottom, left, right.
pub open spec fn wall_indices() -> Seq<u16> {
    seq![
        0u16, 2, 1, 0, 3, 2,
        4, 5, 6, 4, 6, 7,
        3, 6, 2, 3, 7, 6,
        0, 1, 5, 0, 5, 4,
        0, 7, 3, 0, 4, 7,
        1, 6, 5, 1, 2, 6,
    ]
}

/// Vertex `i` of the wall's outline, from 0 to 15: four upright strips of four
/// vertices each, at the front start, the front end, the back start and the back
/// end of the wall. A strip stands `EDGE_OFFSET` beyond the end of the wall, and
/// runs from `EDGE_THICKNESS` before its corner to `EDGE_THICKNESS` behind it in
/// both coordinates, from the ground to the top.
pub open spec fn edge_vertex(w: Wall, i: int) -> Vertex {
    let strip = i / 4;
    let at_end = strip % 2 == 1;
    let at_back = strip >= 2;
    let behind = i % 4 == 1 || i % 4 == 2;
    let at_top = i % 4 >= 2;
    let foot = if at_end {
        w.end
    } else {
        w.start
    };
    let ground = if at_back {
        plus(foot, depth(w))
    } else {
        foot
    };
    let widen = if behind {
        EDGE_THICKNESS as int
    } else {
        -EDGE_THICKNESS as int
    };
    let out = if at_end {
        EDGE_OFFSET as int
    } else {
        -EDGE_OFFSET as int
    };
    Vertex {
        position: Vec3 {
            x: ground.x + widen + toward(unit_tangent(w).x, out),
            y: if at_top {
                w.height
            } else {
                0
            },
            z: ground.z + widen + toward(unit_tangent(w).z, out),
        },
        color: Color::black(),
        tex_u: 0,
        tex_v: 0,
        model_type: 0,
    }
}

pub open spec fn edge_vertices(w: Wall) -> Seq<Vertex> {
    Seq::new(16, |i: int| edge_vertex(w, i))
}

/// The two triangles of each of the four strips.
pub open spec fn edge_indices() -> Seq<u16> {
    seq![
        0u16, 1, 2, 0, 2, 3,
        4, 5, 6, 4, 6, 7,
        8, 9, 10, 8, 10, 11,
        12, 13, 14, 12, 14, 15,
    ]
}

/// Whether `m` is the box of wall `w` in the given colour: its eight vertices
/// and twelve triangles, to be drawn with the wall texture over a grey ground.
pub open spec fn is_wall_mesh(m: Mesh, w: Wall, color: Color) -> bool {
    &&& m.kind == MeshKind::Wall
    &&& vertices_of(m.vertices@) == wall_vertices(w, color)
    &&& m.indices@ == wall_indices()
    &&& m.color == Color::grey()
    &&& m.is_wall
}

/// Whether `m` is the outline of wall `w`: its sixteen vertices and eight
/// triangles, all black.
pub open spec fn is_edge_mesh(m: Mesh, w: Wall) -> bool {
    &&& m.kind == MeshKind::WallEdge
    &&& vertices_of(m.vertices@) == edge_vertices(w)
    &&& m.indices@ == edge_indices()
    &&& m.color == Color::black()
    &&& !m.is_wall
}

/// Every triangle of the two meshes names vertices that the mesh has.
pub proof fn lemma_indices_in_range()
    ensures
        wall_indices().len() == 36,
        forall|i: int| 0 <= i < 36 ==> (#[trigger] wall_indices()[i]) < 8,
        edge_indices().len() == 24,
        forall|i: int| 0 <= i < 24 ==> (#[trigger] edge_indices()[i]) < 16,
{
}

fn toward_of(sign: i64, length: i64) -> (out: i64)
    requires
        length > i64::MIN,
    ensures
        out == toward(sign as int, length as int),
{
    if sign > 0 {
        length
    } else if sign < 0 {
        -length
    } else {
        0
    }
}

/// The ground point of a corner of the wall's box.
fn box_corner(segment: &WallSegment, at_end: bool, at_back: bool) -> (out: (i64, i64))
    ensures
        valid_wall(segment@),
        ({
            let foot = if at_end {
                segment@.end
            } else {
                segment@.start
            };
            let ground = if at_back {
                plus(foot, depth(segment@))
            } else {
                foot
            };
            out.0 == ground.x && out.1 == ground.z
        }),
        -0x1000_0000 <= out.0 <= 0x1000_0000,
        -0x1000_0000 <= out.1 <= 0x1000_0000,
{
    let foot = if at_end {
        segment.end()
    } else {
        segment.start()
    };
    if at_back {
        let normal = segment.normal();
        let thickness = segment.thickness();
        (foot.x + toward_of(normal.x, thickness), foot.z + toward_of(normal.z, thickness))
    } else {
        (foot.x, foot.z)
    }
}

/// The box of a wall segment: eight vertices of the given colour, and twelve
/// triangles.
pub fn create_wall(segment: &WallSegment, color: Color) -> (out: Mesh)
    ensures
        is_wall_mesh(out, segment@, color),
{
    let height = segment.height();
    let mut vertices: Vec<ModelVertex> = Vec::new();
    let mut i: usize = 0;
    while i < 8
        invariant
            i <= 8,
            height == segment@.height,
            vertices@.len() == i,
            forall|j: int| 0 <= j < i ==> (#[trigger] vertices@[j])@ == wall_vertex(segment@, color, j),
        decreases 8 - i,
    {
        let at_end = i % 4 == 1 || i % 4 == 2;
        let at_top = i % 4 >= 2;
        let (x, z) = box_corner(segment, at_end, i >= 4);
        let v = ModelVertex {
            position: Position { x, y: if at_top {
                height
            } else {
                0
            }, z },
            color,
            tex_u: if at_end {
                FULL
            } else {
                0
            },
            tex_v: if at_top {
                0
            } else {
                FULL
            },
            model_type: 1,
        };
        vertices.push(v);
        i += 1;
    }
    let indices: Vec<u16> = vec![
        0, 2, 1, 0, 3, 2,
        4, 5, 6, 4, 6, 7,
        3, 6, 2, 3, 7, 6,
        0, 1, 5, 0, 5, 4,
        0, 7, 3, 0, 4, 7,
        1, 6, 5, 1, 2, 6,
    ];
    proof {
        assert(vertices_of(vertices@) =~= wall_vertices(segment@, color));
        assert(indices@ =~= wall_indices());
    }
    Mesh { kind: MeshKind::Wall, vertices, indices, color: Color::grey(), is_wall: true }
}

/// The outline of a wall segment: four black strips, one at each upright edge of
/// its box.
pub fn create_wall_edge(segment: &WallSegment) -> (out: Mesh)
    ensures
        is_edge_mesh(out, segment@),
{
    let height = segment.height();
    let start = segment.start();
    let end = segment.end();
    let dx: i64 = end.x - start.x;
    let dz: i64 = end.z - start.z;
    let mut vertices: Vec<ModelVertex> = Vec::new();
    let mut i: usize = 0;
    while i < 16
        invariant
            i <= 16,
            height == segment@.height,
            dx == direction(segment@).x,
            dz == direction(segment@).z,
            vertices@.len() == i,
            forall|j: int| 0 <= j < i ==> (#[trigger] vertices@[j])@ == edge_vertex(segment@, j),
        decreases 16 - i,
    {
        let strip = i / 4;
        let at_end = strip % 2 == 1;
        let behind = i % 4 == 1 || i % 4 == 2;
        let at_top = i % 4 >= 2;
        let (x, z) = box_corner(segment, at_end, strip >= 2);
        let widen: i64 = if behind {
            EDGE_THICKNESS
        } else {
            -EDGE_THICKNESS
        };
        let out: i64 = if at_end {
            EDGE_OFFSET
        } else {
            -EDGE_OFFSET
        };
        let v = ModelVertex {
            position: Position {
                x: x + widen + toward_of(dx, out),
                y: if at_top {
                    height
                } else {
                    0
                },
                z: z + widen + toward_of(dz, out),
            },
            color: Color::black(),
            tex_u: 0,
            tex_v: 0,
            model_type: 0,
        };
        proof {
            assert(toward(dx as int, out as int) == toward(unit_tangent(segment@).x, out as int));
            assert(toward(dz as int, out as int) == toward(unit_tangent(segment@).z, out as int));
        }
        vertices.push(v);
        i += 1;
    }
    let indices: Vec<u16> = vec![
        0, 1, 2, 0, 2, 3,
        4, 5, 6, 4, 6, 7,
        8, 9, 10, 8, 10, 11,
        12, 13, 14, 12, 14, 15,
    ];
    proof {
        assert(vertices_of(vertices@) =~= edge_vertices(segment@));
        assert(indices@ =~= edge_indices());
    }
    Mesh { kind: MeshKind::WallEdge, vertices, indices, color: Color::black(), is_wall: false }
}

} // verus!
