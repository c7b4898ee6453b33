//! Collision of an agent's circular footprint with a wall, and the correction
//! that ends it.

use vstd::prelude::*;
use crate::reach::{outward_step, outward_step_of};
use crate::space::{
    dot, flat, length_squared, minus, within, Point, Position, Vec2, Vec3, POSITION_LIMIT,
    REACH_LIMIT, WALL_LIMIT,
};
use crate::vector::{dot_product, squared_length};
use crate::wall::{unit_normal, valid_wall, Wall, WallSegment};

verus! {

/// The thickness of a wall built without one of its own: three tenths of a world unit.
pub const WALL_THICKNESS: i64 = 300;

pub open spec fn lesser(a: int, b: int) -> int {
    if a <= b {
        a
    } else {
        b
    }
}

pub open spec fn greater(a: int, b: int) -> int {
    if a <= b {
        b
    } else {
        a
    }
}

/// `v`, brought between `a` and `b`.
pub open spec fn clamped(v: int, a: int, b: int) -> int {
    if v < lesser(a, b) {
        lesser(a, b)
    } else if v > greater(a, b) {
        greater(a, b)
    } else {
        v
    }
}

/// The point of the wall's segment that is nearest to `p`: the projection of `p`
/// on the line of the wall, kept between the wall's ends.
pub open spec fn closest_point(w: Wall, p: Vec2) -> Vec2 {
    Vec2 { x: clamped(p.x, w.start.x, w.end.x), z: clamped(p.z, w.start.z, w.end.z) }
}

/// From the nearest point of the wall to `p`.
pub open spec fn offset(w: Wall, p: Vec2) -> Vec2 {
    minus(p, closest_point(w, p))
}

/// Positive in front of the wall, where its normal points, and negative behind it.
pub open spec fn side(w: Wall, p: Vec2) -> int {
    dot(offset(w, p), unit_normal(w))
}

/// How far from the wall the centre of a footprint of radius `r` has to stay: `r`
/// in front of the wall and on its line, and the wall's thickness more behind it.
pub open spec fn clearance(w: Wall, p: Vec2, r: int) -> int {
    if side(w, p) >= 0 {
        r
    } else {
        r + w.thickness
    }
}

/// Whether a footprint of radius `r` at `p` overlaps the wall: `p` is no higher
/// than the wall, and nearer to the wall's segment than the clearance.
pub open spec fn collides(w: Wall, p: Vec3, r: int) -> bool {
    &&& p.y <= w.height
    &&& clearance(w, flat(p), r) > 0
    &&& length_squared(offset(w, flat(p))) < clearance(w, flat(p), r) * clearance(w, flat(p), r)
}

/// A coordinate of the corrected position: away from `from`, on the side of `a`,
/// by the outward step of `a`.
pub open spec fn pushed(from: int, a: int, d2: int, c: int) -> int {
    if a > 0 {
        from + outward_step(a, d2, c)
    } else if a < 0 {
        from - outward_step(-a, d2, c)
    } else {
        from
    }
}

/// The position that ends a collision. A position that does not collide stays.
/// One that does moves away from the nearest point of the wall, along the
/// offset, to the clearance; each coordinate of the move is rounded away from
/// the wall to a whole lattice unit. A position on the wall's segment itself has
/// no offset, and moves along the wall's normal. The height stays.
pub open spec fn resolved(w: Wall, p: Vec3, r: int) -> Vec3 {
    let q = closest_point(w, flat(p));
    let o = offset(w, flat(p));
    let d2 = length_squared(o);
    let c = clearance(w, flat(p), r);
    if !collides(w, p, r) {
        p
    } else if d2 == 0 {
        Vec3 { x: q.x + unit_normal(w).x * c, y: p.y, z: q.z + unit_normal(w).z * c }
    } else {
        Vec3 { x: pushed(q.x, o.x, d2, c), y: p.y, z: pushed(q.z, o.z, d2, c) }
    }
}

/// The wall that runs from `start` to `end`, given as `[x, y, z]`; it stands on
/// the ground whatever `y` is.
pub open spec fn wall_between(start: [i64; 3], end: [i64; 3], height: i64, thickness: i64) -> Wall {
    Wall {
        start: Vec2 { x: start[0] as int, z: start[2] as int },
        end: Vec2 { x: end[0] as int, z: end[2] as int },
        height: height as int,
        thickness: thickness as int,
    }
}

/// A wall segment with its normal, to test positions against.
#[derive(Clone, Copy, Debug)]
pub struct WallCollider {
    segment: WallSegment,
    normal: Point,
}

impl View for WallCollider {
    type V = Wall;

    closed spec fn view(&self) -> Wall {
        self.segment@
    }
}

/// What a list of colliders holds.
pub open spec fn walls_of_colliders(colliders: Seq<WallCollider>) -> Seq<Wall> {
    colliders.map_values(|c: WallCollider| c@)
}

/// What the measuring of a position against a wall finds.
struct Measure {
    closest: Point,
    offset: Point,
    distance_squared: i64,
    clearance: i64,
}

fn clamp_between(v: i64, a: i64, b: i64) -> (out: i64)
    ensures
        out == clamped(v as int, a as int, b as int),
{
    let lo: i64 = if a <= b {
        a
    } else {
        b
    };
    let hi: i64 = if a <= b {
        b
    } else {
        a
    };
    if v < lo {
        lo
    } else if v > hi {
        hi
    } else {
        v
    }
}

impl WallCollider {
    #[verifier::type_invariant]
    spec fn inv(&self) -> bool {
        self.normal@ == unit_normal(self.segment@)
    }

    /// The collider of the wall from `start` to `end`, given as `[x, y, z]`. There
    /// is none where the two coincide on the ground, where the wall runs along
    /// neither axis, or where a coordinate or the thickness is beyond its limit.
    pub fn new(start: [i64; 3], end: [i64; 3], height: i64, thickness: i64) -> (out: Option<
        WallCollider,
    >)
        ensures
            out is Some <==> valid_wall(wall_between(start, end, height, thickness)),
            out matches Some(c) ==> c@ == wall_between(start, end, height, thickness),
    {
        let from = Point { x: start[0], z: start[2] };
        let to = Point { x: end[0], z: end[2] };
        match WallSegment::new(from, to, height, thickness) {
            Some(segment) => Some(WallCollider::from_segment(segment)),
            None => None,
        }
    }

    /// The collider of a wall segment.
    pub fn from_segment(segment: WallSegment) -> (out: WallCollider)
        ensures
            out@ == segment@,
    {
        let normal = segment.normal();
        WallCollider { segment, normal }
    }

    /// The segment of the collider.
    pub fn segment(&self) -> (out: WallSegment)
        ensures
            out@ == self@,
            valid_wall(self@),
    {
        let h = self.segment.height();
        self.segment
    }

    /// The unit normal of the wall.
    pub fn normal(&self) -> (out: Point)
        ensures
            out@ == unit_normal(self@),
    {
        proof {
            use_type_invariant(self);
        }
        self.normal
    }

    fn measure(&self, position: Position, radius: i64) -> (out: Measure)
        requires
            position.in_range(),
            within(radius as int, REACH_LIMIT as int),
        ensures
            valid_wall(self@),
            out.closest@ == closest_point(self@, flat(position@)),
            out.offset@ == offset(self@, flat(position@)),
            out.distance_squared == length_squared(offset(self@, flat(position@))),
            out.clearance == clearance(self@, flat(position@), radius as int),
            within(out.closest.x as int, WALL_LIMIT as int),
            within(out.closest.z as int, WALL_LIMIT as int),
            0 <= out.distance_squared < 0x800_0000_0000_0000,
            within(out.clearance as int, 2 * REACH_LIMIT),
    {
        proof {
            use_type_invariant(self);
        }
        let start = self.segment.start();
        let end = self.segment.end();
        let thickness = self.segment.thickness();
        let closest = Point {
            x: clamp_between(position.x, start.x, end.x),
            z: clamp_between(position.z, start.z, end.z),
        };
        let offset = Point { x: position.x - closest.x, z: position.z - closest.z };
        proof {
            lemma_square_bound(offset.x as int, 0x1800_0000);
            lemma_square_bound(offset.z as int, 0x1800_0000);
        }
        let distance_squared = squared_length(offset);
        let side = dot_product(offset, self.normal);
        let clearance = if side >= 0 {
            radius
        } else {
            radius + thickness
        };
        Measure { closest, offset, distance_squared, clearance }
    }

    /// Whether a footprint of the given radius at `position` overlaps the wall.
    pub fn check_collision(&self, position: Position, radius: i64) -> (out: bool)
        requires
            position.in_range(),
            within(radius as int, REACH_LIMIT as int),
        ensures
            out == collides(self@, position@, radius as int),
    {
        if position.y > self.segment.height() {
            return false;
        }
        let m = self.measure(position, radius);
        if m.clearance <= 0 {
            return false;
        }
        proof {
            lemma_square_bound(m.clearance as int, 2 * REACH_LIMIT);
        }
        m.distance_squared < m.clearance * m.clearance
    }

    /// The position that ends the collision with the wall: `position` itself
    /// where there is none.
    pub fn resolve_collision(&self, position: Position, radius: i64) -> (out: Position)
        requires
            position.in_range(),
            within(radius as int, REACH_LIMIT as int),
        ensures
            out@ == resolved(self@, position@, radius as int),
            out.in_range(),
    {
        if !self.check_collision(position, radius) {
            return position;
        }
        let m = self.measure(position, radius);
        let normal = self.normal();
        if m.distance_squared == 0 {
            assert(-m.clearance <= normal.x * m.clearance <= m.clearance) by (nonlinear_arith)
                requires
                    -1 <= normal.x <= 1,
                    m.clearance > 0,
            ;
            assert(-m.clearance <= normal.z * m.clearance <= m.clearance) by (nonlinear_arith)
                requires
                    -1 <= normal.z <= 1,
                    m.clearance > 0,
            ;
            Position {
                x: m.closest.x + normal.x * m.clearance,
                y: position.y,
                z: m.closest.z + normal.z * m.clearance,
            }
        } else {
            proof {
                lemma_component_bound(m.offset@);
            }
            Position {
                x: push_from(m.closest.x, m.offset.x, m.distance_squared, m.clearance),
                y: position.y,
                z: push_from(m.closest.z, m.offset.z, m.distance_squared, m.clearance),
            }
        }
    }
}

/// The collider of the wall from `start` to `end` with the thickness of all
/// walls, `WALL_THICKNESS`.
pub fn create_wall_collider(start: [i64; 3], end: [i64; 3], height: i64) -> (out: Option<
    WallCollider,
>)
    ensures
        out is Some <==> valid_wall(wall_between(start, end, height, WALL_THICKNESS)),
        out matches Some(c) ==> c@ == wall_between(start, end, height, WALL_THICKNESS),
{
    WallCollider::new(start, end, height, WALL_THICKNESS)
}

fn push_from(from: i64, a: i64, d2: i64, c: i64) -> (out: i64)
    requires
        within(from as int, WALL_LIMIT as int),
        a * a <= d2,
        0 < d2 < 0x800_0000_0000_0000,
        0 < c <= 2 * REACH_LIMIT,
    ensures
        out == pushed(from as int, a as int, d2 as int, c as int),
        within(out as int, POSITION_LIMIT as int),
{
    if a > 0 {
        from + outward_step_of(a, d2, c)
    } else if a < 0 {
        assert((-a) * (-a) == a * a) by (nonlinear_arith);
        assert(a > -0x4000_0000) by (nonlinear_arith)
            requires
                a * a <= d2,
                d2 < 0x800_0000_0000_0000,
                a < 0,
        ;
        from - outward_step_of(-a, d2, c)
    } else {
        from
    }
}

proof fn lemma_square_bound(v: int, limit: int)
    requires
        -limit <= v <= limit,
    ensures
        0 <= v * v <= limit * limit,
{
    assert(0 <= v * v <= limit * limit) by (nonlinear_arith)
        requires
            -limit <= v <= limit,
    ;
}

/// No component of a vector is longer than the vector.
pub proof fn lemma_component_bound(o: Vec2)
    ensures
        o.x * o.x <= length_squared(o),
        o.z * o.z <= length_squared(o),
        length_squared(o) >= 0,
        length_squared(o) == 0 <==> o.x == 0 && o.z == 0,
{
    assert(o.x * o.x >= 0 && (o.x * o.x == 0 <==> o.x == 0)) by (nonlinear_arith);
    assert(o.z * o.z >= 0 && (o.z * o.z == 0 <==> o.z == 0)) by (nonlinear_arith);
}

} // verus!
