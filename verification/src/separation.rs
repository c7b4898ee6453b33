//! What a correction achieves: the corrected position is clear of the wall, and
//! correcting it again changes nothing.

use vstd::prelude::*;
use crate::collision::{
    clearance, closest_point, collides, lemma_component_bound, offset, pushed, resolved, side,
};
use crate::reach::{lemma_outward_step, outward_step};
use crate::space::{dot, flat, lemma_dot_with_axis, length_squared, Vec2, Vec3};
use crate::wall::{axis_parallel, unit_normal, Wall};

verus! {

/// A position above the top of a wall does not collide with it, however near it
/// is, and is left where it is.
pub proof fn lemma_above_the_wall(w: Wall, p: Vec3, r: int)
    requires
        p.y > w.height,
    ensures
        !collides(w, p, r),
        resolved(w, p, r) == p,
{
}

/// A position that does not collide is left where it is, and no correction
/// changes the height.
pub proof fn lemma_clear_position_stays(w: Wall, p: Vec3, r: int)
    ensures
        !collides(w, p, r) ==> resolved(w, p, r) == p,
        resolved(w, p, r).y == p.y,
{
}

/// How far a coordinate is pushed: the outward step of the offset's component.
spec fn step_of(a: int, d2: int, c: int) -> int {
    if a > 0 {
        outward_step(a, d2, c)
    } else if a < 0 {
        outward_step(-a, d2, c)
    } else {
        0
    }
}

proof fn lemma_step_of(a: int, d2: int, c: int)
    requires
        0 < c,
        0 < d2,
        a * a <= d2,
    ensures
        0 <= step_of(a, d2, c) <= c,
        a == 0 <==> step_of(a, d2, c) == 0,
        step_of(a, d2, c) * step_of(a, d2, c) * d2 >= a * a * c * c,
        a * a == d2 ==> step_of(a, d2, c) == c,
{
    if a > 0 {
        lemma_outward_step(a, d2, c);
    } else if a < 0 {
        assert((-a) * (-a) == a * a) by (nonlinear_arith);
        lemma_outward_step(-a, d2, c);
        assert((-a) * (-a) * c * c == a * a * c * c) by (nonlinear_arith);
    } else {
        assert(0 * 0 * d2 >= a * a * c * c) by (nonlinear_arith)
            requires
                a == 0,
        ;
    }
}

proof fn lemma_steps_reach(kx: int, kz: int, ox: int, oz: int, d2: int, c: int)
    requires
        kx * kx * d2 >= ox * ox * c * c,
        kz * kz * d2 >= oz * oz * c * c,
        d2 == ox * ox + oz * oz,
        d2 > 0,
    ensures
        kx * kx + kz * kz >= c * c,
{
    let a = kx * kx;
    let b = kz * kz;
    let x = ox * ox;
    let z = oz * oz;
    let cc = c * c;
    assert(ox * ox * c * c == x * cc) by (nonlinear_arith)
        requires
            x == ox * ox,
            cc == c * c,
    ;
    assert(oz * oz * c * c == z * cc) by (nonlinear_arith)
        requires
            z == oz * oz,
            cc == c * c,
    ;
    assert(a + b >= cc) by (nonlinear_arith)
        requires
            a * d2 >= x * cc,
            b * d2 >= z * cc,
            d2 == x + z,
            d2 > 0,
    ;
}

/// After the correction the position does not collide with the wall.
pub proof fn lemma_resolved_is_clear(w: Wall, p: Vec3, r: int)
    requires
        axis_parallel(w),
    ensures
        !collides(w, resolved(w, p, r), r),
{
    if collides(w, p, r) {
        let p2 = flat(p);
        let q = closest_point(w, p2);
        let o = offset(w, p2);
        let d2 = length_squared(o);
        let c = clearance(w, p2, r);
        let n = unit_normal(w);
        let t = resolved(w, p, r);
        let t2 = flat(t);
        lemma_component_bound(o);
        assert(-1 <= n.x <= 1 && -1 <= n.z <= 1);
        assert((n.x == 0) != (n.z == 0));
        lemma_dot_with_axis(n, o);
        assert(dot(o, n) == dot(n, o)) by (nonlinear_arith)
            requires
                dot(o, n) == o.x * n.x + o.z * n.z,
                dot(n, o) == n.x * o.x + n.z * o.z,
        ;
        if d2 == 0 {
            assert(side(w, p2) == 0);
            assert(c == r);
            lemma_axis_times(n.x, c);
            lemma_axis_times(n.z, c);
            assert(closest_point(w, t2) == q);
            let o2 = offset(w, t2);
            assert(o2 == Vec2 { x: n.x * c, z: n.z * c });
            lemma_dot_with_axis(n, o2);
            assert(dot(o2, n) == dot(n, o2)) by (nonlinear_arith)
                requires
                    dot(o2, n) == o2.x * n.x + o2.z * n.z,
                    dot(n, o2) == n.x * o2.x + n.z * o2.z,
            ;
            assert(side(w, t2) == c);
            assert(clearance(w, t2, r) == c);
            assert(length_squared(o2) == c * c) by (nonlinear_arith)
                requires
                    length_squared(o2) == o2.x * o2.x + o2.z * o2.z,
                    (o2.x == 0 && (o2.z == c || o2.z == -c)) || (o2.z == 0 && (o2.x == c || o2.x
                        == -c)),
            ;
        } else {
            let kx = step_of(o.x, d2, c);
            let kz = step_of(o.z, d2, c);
            lemma_step_of(o.x, d2, c);
            lemma_step_of(o.z, d2, c);
            assert(t2.x == pushed(q.x, o.x, d2, c));
            assert(t2.z == pushed(q.z, o.z, d2, c));
            assert(closest_point(w, t2) == q);
            let o2 = offset(w, t2);
            assert(o2.x == kx || o2.x == -kx);
            assert(o2.z == kz || o2.z == -kz);
            assert(o2.x * o2.x == kx * kx) by (nonlinear_arith)
                requires
                    o2.x == kx || o2.x == -kx,
            ;
            assert(o2.z * o2.z == kz * kz) by (nonlinear_arith)
                requires
                    o2.z == kz || o2.z == -kz,
            ;
            lemma_steps_reach(kx, kz, o.x, o.z, d2, c);
            assert(length_squared(o2) >= c * c);
            lemma_dot_with_axis(n, o2);
            assert(dot(o2, n) == dot(n, o2)) by (nonlinear_arith)
                requires
                    dot(o2, n) == o2.x * n.x + o2.z * n.z,
                    dot(n, o2) == n.x * o2.x + n.z * o2.z,
            ;
            assert((side(w, t2) >= 0) == (side(w, p2) >= 0));
            assert(clearance(w, t2, r) == c);
        }
    }
}

proof fn lemma_axis_times(n: int, c: int)
    requires
        -1 <= n <= 1,
    ensures
        n * c == (if n == 1 {
            c
        } else if n == -1 {
            -c
        } else {
            0
        }),
{
    assert(n * c == (if n == 1 {
        c
    } else if n == -1 {
        -c
    } else {
        0
    })) by (nonlinear_arith)
        requires
            -1 <= n <= 1,
    ;
}

/// A corrected position is a fixed point: correcting it again changes nothing.
pub proof fn lemma_resolved_is_settled(w: Wall, p: Vec3, r: int)
    requires
        axis_parallel(w),
    ensures
        resolved(w, resolved(w, p, r), r) == resolved(w, p, r),
{
    lemma_resolved_is_clear(w, p, r);
}

/// Where the offset from the wall lies along an axis, as it does beside the
/// wall, the corrected position is at exactly the clearance from the nearest
/// point of the wall, on the same side.
pub proof fn lemma_straight_push(w: Wall, p: Vec3, r: int)
    requires
        collides(w, p, r),
        offset(w, flat(p)).x == 0 || offset(w, flat(p)).z == 0,
        offset(w, flat(p)) != (Vec2 { x: 0, z: 0 }),
    ensures
        ({
            let q = closest_point(w, flat(p));
            let o = offset(w, flat(p));
            let c = clearance(w, flat(p), r);
            let t = resolved(w, p, r);
            &&& o.x > 0 ==> t.x == q.x + c && t.z == p.z
            &&& o.x < 0 ==> t.x == q.x - c && t.z == p.z
            &&& o.z > 0 ==> t.z == q.z + c && t.x == p.x
            &&& o.z < 0 ==> t.z == q.z - c && t.x == p.x
        }),
{
    let o = offset(w, flat(p));
    let d2 = length_squared(o);
    let c = clearance(w, flat(p), r);
    lemma_component_bound(o);
    lemma_step_of(o.x, d2, c);
    lemma_step_of(o.z, d2, c);
    assert(0 * 0 == 0) by (nonlinear_arith);
}

} // verus!
