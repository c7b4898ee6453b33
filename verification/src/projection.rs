//! The normal of a wall and the nearest point of a wall, held against their
//! definitions in the plane.

use vstd::prelude::*;
use crate::collision::{closest_point, greater, lesser};
use crate::space::{dot, length_squared, minus, Vec2};
use crate::wall::{axis_parallel, direction, unit_normal, Wall};

verus! {

/// The length of a wall that runs along an axis.
pub open spec fn wall_length(w: Wall) -> int {
    greater(direction(w).x, -direction(w).x) + greater(direction(w).z, -direction(w).z)
}

/// The share of the wall at which `p` projects on its line, times the squared
/// length of the wall, kept between the wall's ends.
pub open spec fn clamped_share(w: Wall, p: Vec2) -> int {
    let along = dot(minus(p, w.start), direction(w));
    let whole = length_squared(direction(w));
    if along < 0 {
        0
    } else if along > whole {
        whole
    } else {
        along
    }
}

/// Whether `s` is a point of the wall's segment.
pub open spec fn on_wall(w: Wall, s: Vec2) -> bool {
    &&& lesser(w.start.x, w.end.x) <= s.x <= greater(w.start.x, w.end.x)
    &&& lesser(w.start.z, w.end.z) <= s.z <= greater(w.start.z, w.end.z)
}

/// The normal of a wall with direction `(dx, dz)` is `(-dz, dx)` divided by the
/// wall's length: it has length one and stands at a right angle to the wall.
pub proof fn lemma_normal_is_unit_perpendicular(w: Wall)
    requires
        axis_parallel(w),
    ensures
        wall_length(w) > 0,
        wall_length(w) * wall_length(w) == length_squared(direction(w)),
        unit_normal(w).x * wall_length(w) == -direction(w).z,
        unit_normal(w).z * wall_length(w) == direction(w).x,
        length_squared(unit_normal(w)) == 1,
        dot(unit_normal(w), direction(w)) == 0,
{
    let d = direction(w);
    let n = unit_normal(w);
    let len = wall_length(w);
    assert(n.x * len == -d.z && n.z * len == d.x && len * len == d.x * d.x + d.z * d.z && n.x
        * n.x + n.z * n.z == 1 && n.x * d.x + n.z * d.z == 0) by (nonlinear_arith)
        requires
            (d.x == 0) != (d.z == 0),
            len == (if d.x >= 0 {
                d.x
            } else {
                -d.x
            }) + (if d.z >= 0 {
                d.z
            } else {
                -d.z
            }),
            n.x == (if d.z > 0 {
                -1int
            } else if d.z < 0 {
                1int
            } else {
                0int
            }),
            n.z == (if d.x > 0 {
                1int
            } else if d.x < 0 {
                -1int
            } else {
                0int
            }),
    ;
}

proof fn lemma_projection_on_axis(from: int, to: int, v: int, q: int)
    requires
        from != to,
        q == (if v < lesser(from, to) {
            lesser(from, to)
        } else if v > greater(from, to) {
            greater(from, to)
        } else {
            v
        }),
    ensures
        ({
            let d = to - from;
            let along = (v - from) * d;
            let whole = d * d;
            let share = if along < 0 {
                0
            } else if along > whole {
                whole
            } else {
                along
            };
            whole * (q - from) == share * d
        }),
{
    let d = to - from;
    let u = v - from;
    let along = u * d;
    let whole = d * d;
    let share = if along < 0 {
        0
    } else if along > whole {
        whole
    } else {
        along
    };
    let r = q - from;
    assert(r == (if d > 0 {
        if u < 0 {
            0
        } else if u > d {
            d
        } else {
            u
        }
    } else {
        if u > 0 {
            0
        } else if u < d {
            d
        } else {
            u
        }
    }));
    assert(whole * r == share * d) by (nonlinear_arith)
        requires
            d != 0,
            along == u * d,
            whole == d * d,
            share == (if along < 0 {
                0
            } else if along > whole {
                whole
            } else {
                along
            }),
            r == (if d > 0 {
                if u < 0 {
                    0
                } else if u > d {
                    d
                } else {
                    u
                }
            } else {
                if u > 0 {
                    0
                } else if u < d {
                    d
                } else {
                    u
                }
            }),
    ;
}

/// The nearest point of a wall is the projection of `p` on the line of the wall,
/// kept between the wall's ends: it lies at the share
/// `clamp(dot(p - start, end - start) / |end - start|^2, 0, 1)` of the way from
/// the start to the end. The division is cleared here.
pub proof fn lemma_closest_point_is_projection(w: Wall, p: Vec2)
    requires
        axis_parallel(w),
    ensures
        on_wall(w, closest_point(w, p)),
        length_squared(direction(w)) * (closest_point(w, p).x - w.start.x) == clamped_share(w, p)
            * direction(w).x,
        length_squared(direction(w)) * (closest_point(w, p).z - w.start.z) == clamped_share(w, p)
            * direction(w).z,
{
    let d = direction(w);
    let q = closest_point(w, p);
    let u = minus(p, w.start);
    let share = clamped_share(w, p);
    let whole = length_squared(d);
    if d.z == 0 {
        lemma_projection_on_axis(w.start.x, w.end.x, p.x, q.x);
        assert(dot(u, d) == u.x * d.x && whole == d.x * d.x) by (nonlinear_arith)
            requires
                d.z == 0,
                dot(u, d) == u.x * d.x + u.z * d.z,
                whole == d.x * d.x + d.z * d.z,
        ;
        assert(whole * 0 == share * d.z) by (nonlinear_arith)
            requires
                d.z == 0,
        ;
    } else {
        lemma_projection_on_axis(w.start.z, w.end.z, p.z, q.z);
        assert(dot(u, d) == u.z * d.z && whole == d.z * d.z) by (nonlinear_arith)
            requires
                d.x == 0,
                dot(u, d) == u.x * d.x + u.z * d.z,
                whole == d.x * d.x + d.z * d.z,
        ;
        assert(whole * 0 == share * d.x) by (nonlinear_arith)
            requires
                d.x == 0,
        ;
    }
}

/// No point of the wall's segment is nearer to `p` than the nearest point.
pub proof fn lemma_closest_point_is_nearest(w: Wall, p: Vec2, s: Vec2)
    requires
        on_wall(w, s),
    ensures
        length_squared(minus(p, closest_point(w, p))) <= length_squared(minus(p, s)),
{
    let a = minus(p, closest_point(w, p));
    let b = minus(p, s);
    assert(a.x * a.x <= b.x * b.x) by (nonlinear_arith)
        requires
            (0 <= a.x <= b.x) || (b.x <= a.x <= 0),
    ;
    assert(a.z * a.z <= b.z * b.z) by (nonlinear_arith)
        requires
            (0 <= a.z <= b.z) || (b.z <= a.z <= 0),
    ;
}

} // verus!
