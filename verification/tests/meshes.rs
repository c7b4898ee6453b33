use parking_garage::collision::WALL_THICKNESS;
use parking_garage::garage::{
    create_colliders, create_parking_garage, create_wall_meshes, CELL_SIZE, WALL_HEIGHT,
};
use parking_garage::grid::{create_default_map, Grid};
use parking_garage::mesh::{create_wall, create_wall_edge, Color, Mesh, MeshKind};
use parking_garage::space::{Point, Position, WorldTransform};
use parking_garage::wall::{extract_segments, WallSegment};

fn segment() -> WallSegment {
    WallSegment::new(Point { x: 0, z: 0 }, Point { x: 2000, z: 0 }, 4000, 300).expect("a segment")
}

fn positions(m: &Mesh) -> Vec<(i64, i64, i64)> {
    m.vertices.iter().map(|v| (v.position.x, v.position.y, v.position.z)).collect()
}

#[test]
fn wall_box_has_eight_corners() {
    let m = create_wall(&segment(), Color::white());
    assert_eq!(m.kind, MeshKind::Wall);
    assert!(m.is_wall);
    assert_eq!(m.color, Color { r: 500, g: 500, b: 500 });
    assert_eq!(m.color, Color::grey());
    assert_eq!(
        positions(&m),
        vec![
            (0, 0, 0),
            (2000, 0, 0),
            (2000, 4000, 0),
            (0, 4000, 0),
            (0, 0, 300),
            (2000, 0, 300),
            (2000, 4000, 300),
            (0, 4000, 300),
        ]
    );
    let tex: Vec<(i64, i64)> = m.vertices.iter().map(|v| (v.tex_u, v.tex_v)).collect();
    assert_eq!(
        tex,
        vec![(0, 1000), (1000, 1000), (1000, 0), (0, 0), (0, 1000), (1000, 1000), (1000, 0), (0, 0)]
    );
    for v in &m.vertices {
        assert_eq!(v.color, Color { r: 1000, g: 1000, b: 1000 });
        assert_eq!(v.model_type, 1);
    }
}

#[test]
fn wall_box_has_twelve_triangles() {
    let m = create_wall(&segment(), Color::black());
    assert_eq!(
        m.indices,
        vec![
            0, 2, 1, 0, 3, 2, 4, 5, 6, 4, 6, 7, 3, 6, 2, 3, 7, 6, 0, 1, 5, 0, 5, 4, 0, 7, 3, 0, 4,
            7, 1, 6, 5, 1, 2, 6
        ]
    );
    // a closed box: each of the twelve edges of each triangle pair is shared, so
    // every corner is used by at least three triangles
    for corner in 0..8u16 {
        assert!(m.indices.iter().filter(|i| **i == corner).count() >= 3);
    }
    // and the three corners of a triangle lie in one face of the box
    let bits = |i: u16| -> (bool, bool, bool) { (i % 4 == 1 || i % 4 == 2, i % 4 >= 2, i >= 4) };
    for t in m.indices.chunks(3) {
        let (a, b, c) = (bits(t[0]), bits(t[1]), bits(t[2]));
        let flat = (a.0 == b.0 && b.0 == c.0) || (a.1 == b.1 && b.1 == c.1) || (a.2 == b.2 && b.2 == c.2);
        assert!(flat);
        assert!(t[0] != t[1] && t[1] != t[2] && t[0] != t[2]);
    }
    for v in &m.vertices {
        assert_eq!(v.color, Color::black());
    }
}

#[test]
fn wall_box_extends_along_the_normal() {
    let s = WallSegment::new(Point { x: 5, z: 900 }, Point { x: 5, z: 100 }, 70, 30).expect("a segment");
    assert_eq!(s.normal(), Point { x: 1, z: 0 });
    let m = create_wall(&s, Color::white());
    assert_eq!(
        positions(&m),
        vec![
            (5, 0, 900),
            (5, 0, 100),
            (5, 70, 100),
            (5, 70, 900),
            (35, 0, 900),
            (35, 0, 100),
            (35, 70, 100),
            (35, 70, 900),
        ]
    );
}

#[test]
fn outline_has_four_strips() {
    let m = create_wall_edge(&segment());
    assert_eq!(m.kind, MeshKind::WallEdge);
    assert!(!m.is_wall);
    assert_eq!(m.color, Color { r: 0, g: 0, b: 0 });
    assert_eq!(
        positions(&m),
        vec![
            // front start: 20 before the start of the wall
            (-70, 0, -50),
            (30, 0, 50),
            (30, 4000, 50),
            (-70, 4000, -50),
            // front end: 20 beyond the end
            (1970, 0, -50),
            (2070, 0, 50),
            (2070, 4000, 50),
            (1970, 4000, -50),
            // back start
            (-70, 0, 250),
            (30, 0, 350),
            (30, 4000, 350),
            (-70, 4000, 250),
            // back end
            (1970, 0, 250),
            (2070, 0, 350),
            (2070, 4000, 350),
            (1970, 4000, 250),
        ]
    );
    assert_eq!(
        m.indices,
        vec![0, 1, 2, 0, 2, 3, 4, 5, 6, 4, 6, 7, 8, 9, 10, 8, 10, 11, 12, 13, 14, 12, 14, 15]
    );
    for v in &m.vertices {
        assert_eq!(v.color, Color::black());
        assert_eq!((v.tex_u, v.tex_v), (0, 0));
        assert_eq!(v.model_type, 0);
    }
}

#[test]
fn outline_follows_the_direction_of_the_wall() {
    let s = WallSegment::new(Point { x: 0, z: 1000 }, Point { x: 0, z: 0 }, 10, 300).expect("a segment");
    let m = create_wall_edge(&s);
    let p = positions(&m);
    // the wall runs towards -z; its normal is +x
    assert_eq!(p[0], (-50, 0, 1000 - 50 + 20));
    assert_eq!(p[1], (50, 0, 1000 + 50 + 20));
    assert_eq!(p[4], (-50, 0, -50 - 20));
    assert_eq!(p[9], (300 + 50, 0, 1000 + 50 + 20));
    assert_eq!(p[14], (300 + 50, 10, 50 - 20));
}

#[test]
fn every_segment_has_a_pair_of_meshes() {
    let g = create_default_map();
    let t = WorldTransform::centered(g.width(), g.height(), 2000).expect("a transform");
    let segments = extract_segments(&g, &t, 4000, 300);
    let (walls, edges) = create_wall_meshes(&segments);
    assert_eq!(walls.len(), segments.len());
    assert_eq!(edges.len(), segments.len());
    for i in 0..segments.len() {
        assert_eq!(walls[i].kind, MeshKind::Wall);
        assert_eq!(edges[i].kind, MeshKind::WallEdge);
        assert_eq!(walls[i].vertices.len(), 8);
        assert_eq!(walls[i].indices.len(), 36);
        assert_eq!(edges[i].vertices.len(), 16);
        assert_eq!(edges[i].indices.len(), 24);
        assert_eq!(walls[i].vertices[0].position.x, segments[i].start().x);
        assert_eq!(walls[i].vertices[0].position.z, segments[i].start().z);
        assert_eq!(walls[i].vertices[2].position.x, segments[i].end().x);
        assert_eq!(walls[i].vertices[2].position.y, segments[i].height());
        assert_eq!(walls[i].vertices[0].color, Color::white());
        assert_eq!(positions(&walls[i]), positions(&create_wall(&segments[i], Color::white())));
        assert_eq!(positions(&edges[i]), positions(&create_wall_edge(&segments[i])));
    }
}

#[test]
fn no_segment_no_mesh() {
    let (walls, edges) = create_wall_meshes(&Vec::new());
    assert!(walls.is_empty());
    assert!(edges.is_empty());
    assert!(create_colliders(&Vec::new()).is_empty());
    let open = Grid::from_rows(vec![vec![0, 0], vec![0, 0]]).expect("a grid");
    let garage = create_parking_garage(&open);
    assert!(garage.segments.is_empty());
    assert!(garage.colliders.is_empty());
    assert!(garage.walls.is_empty());
    assert!(garage.edges.is_empty());
}

#[test]
fn colliders_follow_the_segments() {
    let segments = vec![
        segment(),
        WallSegment::new(Point { x: 0, z: 1000 }, Point { x: 0, z: 0 }, 10, 300).expect("a segment"),
    ];
    let colliders = create_colliders(&segments);
    assert_eq!(colliders.len(), 2);
    for i in 0..2 {
        assert_eq!(colliders[i].segment(), segments[i]);
        assert_eq!(colliders[i].normal(), segments[i].normal());
    }
}

#[test]
fn garage_of_the_default_map() {
    assert_eq!(CELL_SIZE, 2000);
    assert_eq!(WALL_HEIGHT, 4000);
    let g = create_default_map();
    let garage = create_parking_garage(&g);
    assert_eq!(garage.transform.cell_size(), 2000);
    assert_eq!(garage.transform.origin(), Point { x: -20000, z: -15000 });
    let t = WorldTransform::centered(20, 15, CELL_SIZE).expect("a transform");
    let segments = extract_segments(&g, &t, WALL_HEIGHT, WALL_THICKNESS);
    assert_eq!(garage.segments, segments);
    assert_eq!(garage.colliders.len(), segments.len());
    assert_eq!(garage.walls.len(), segments.len());
    assert_eq!(garage.edges.len(), segments.len());
    for i in 0..segments.len() {
        assert_eq!(garage.colliders[i].segment(), segments[i]);
    }
    // the first segment is the north face of cell (0, 0)
    assert_eq!(garage.segments[0].start(), Point { x: -18000, z: -15000 });
    assert_eq!(garage.segments[0].end(), Point { x: -20000, z: -15000 });
    // inside the garage, by the western wall, the player is kept at its radius
    let p = Position { x: -18000 + 100, y: 1800, z: -11000 };
    let out = parking_garage::motion::resolve_motion(&garage.colliders, p, 500, 1000);
    assert_eq!(out, Position { x: -18000 + 500, y: 1800, z: -11000 });
    // in the open middle of a room nothing moves
    let p = Position { x: -10000, y: 1800, z: -8000 };
    assert_eq!(parking_garage::motion::resolve_motion(&garage.colliders, p, 500, 1000), p);
}
