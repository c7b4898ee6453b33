//! The motion of an agent among walls: one pass of corrections, wall after wall.

use vstd::prelude::*;
use crate::collision::{collides, resolved, walls_of_colliders, WallCollider};
use crate::separation::lemma_resolved_is_clear;
use crate::space::{within, Position, Vec3, REACH_LIMIT};
use crate::wall::{axis_parallel, Wall};

verus! {

/// The radius of the player's footprint: half a world unit.
pub const PLAYER_RADIUS: i64 = 500;

/// The lowest eye height: one world unit.
pub const MIN_EYE_HEIGHT: i64 = 1000;

/// Whether a footprint of radius `r` at `p` overlaps any of the walls.
pub open spec fn collides_with_any(walls: Seq<Wall>, p: Vec3, r: int) -> bool {
    exists|i: int| 0 <= i < walls.len() && collides(#[trigger] walls[i], p, r)
}

/// The position after the corrections of the first `n` walls, each applied to
/// what the one before it left.
pub open spec fn resolved_through(walls: Seq<Wall>, p: Vec3, r: int, n: int) -> Vec3
    decreases n,
{
    if n <= 0 {
        p
    } else {
        resolved(walls[n - 1], resolved_through(walls, p, r, n - 1), r)
    }
}

/// `p`, lifted to the floor height where it is below it.
pub open spec fn raised(p: Vec3, floor: int) -> Vec3 {
    if p.y < floor {
        Vec3 { x: p.x, y: floor, z: p.z }
    } else {
        p
    }
}

/// Where a move to `p` ends: after one pass of corrections through all the
/// walls in their order, and then the lift to the floor height.
pub open spec fn settled(walls: Seq<Wall>, p: Vec3, r: int, floor: int) -> Vec3 {
    raised(resolved_through(walls, p, r, walls.len() as int), floor)
}

/// Whether a footprint of the given radius at `position` overlaps any wall.
pub fn any_collision(colliders: &Vec<WallCollider>, position: Position, radius: i64) -> (out: bool)
    requires
        position.in_range(),
        within(radius as int, REACH_LIMIT as int),
    ensures
        out == collides_with_any(walls_of_colliders(colliders@), position@, radius as int),
{
    let ghost walls = walls_of_colliders(colliders@);
    let mut i: usize = 0;
    while i < colliders.len()
        invariant
            i <= colliders.len(),
            walls == walls_of_colliders(colliders@),
            position.in_range(),
            within(radius as int, REACH_LIMIT as int),
            forall|j: int| 0 <= j < i ==> !collides(#[trigger] walls[j], position@, radius as int),
        decreases colliders.len() - i,
    {
        if colliders[i].check_collision(position, radius) {
            assert(collides(walls[i as int], position@, radius as int));
            return true;
        }
        i += 1;
    }
    false
}

/// Where a move to `position` ends. The position is corrected against every
/// collider in turn, each correction starting from what the one before it left;
/// there is one pass and no more. Then the position is lifted to `floor` where
/// it is below it.
pub fn resolve_motion(
    colliders: &Vec<WallCollider>,
    position: Position,
    radius: i64,
    floor: i64,
) -> (out: Position)
    requires
        position.in_range(),
        within(radius as int, REACH_LIMIT as int),
    ensures
        out@ == settled(walls_of_colliders(colliders@), position@, radius as int, floor as int),
        out.in_range(),
{
    let ghost walls = walls_of_colliders(colliders@);
    let mut at = position;
    let mut i: usize = 0;
    while i < colliders.len()
        invariant
            i <= colliders.len(),
            walls == walls_of_colliders(colliders@),
            at.in_range(),
            within(radius as int, REACH_LIMIT as int),
            at@ == resolved_through(walls, position@, radius as int, i as int),
        decreases colliders.len() - i,
    {
        at = colliders[i].resolve_collision(at, radius);
        i += 1;
    }
    if at.y < floor {
        Position { x: at.x, y: floor, z: at.z }
    } else {
        at
    }
}

/// A position that overlaps no wall is moved by no correction.
pub proof fn lemma_free_position_stays(walls: Seq<Wall>, p: Vec3, r: int, n: int)
    requires
        !collides_with_any(walls, p, r),
        0 <= n <= walls.len(),
    ensures
        resolved_through(walls, p, r, n) == p,
    decreases n,
{
    if n > 0 {
        lemma_free_position_stays(walls, p, r, n - 1);
        assert(!collides(walls[n - 1], p, r));
    }
}

/// Where a move ends, the agent is not below the floor height, and stands where
/// the pass of corrections left it.
pub proof fn lemma_settled_on_the_floor(walls: Seq<Wall>, p: Vec3, r: int, floor: int)
    ensures
        settled(walls, p, r, floor).y >= floor,
        settled(walls, p, r, floor).y >= p.y,
        settled(walls, p, r, floor).x == resolved_through(walls, p, r, walls.len() as int).x,
        settled(walls, p, r, floor).z == resolved_through(walls, p, r, walls.len() as int).z,
{
    lemma_pass_keeps_height(walls, p, r, walls.len() as int);
}

/// The pass of corrections leaves the height as it is.
pub proof fn lemma_pass_keeps_height(walls: Seq<Wall>, p: Vec3, r: int, n: int)
    ensures
        resolved_through(walls, p, r, n).y == p.y,
    decreases n,
{
    if n > 0 {
        lemma_pass_keeps_height(walls, p, r, n - 1);
    }
}

/// Where a move ends, the agent is clear of the wall that was corrected last.
/// Of the walls before it the single pass promises nothing: the correction of a
/// later wall may push the agent back into an earlier one.
pub proof fn lemma_last_wall_is_clear(walls: Seq<Wall>, p: Vec3, r: int, floor: int)
    requires
        walls.len() > 0,
        axis_parallel(walls.last()),
    ensures
        !collides(walls.last(), settled(walls, p, r, floor), r),
{
    let n = walls.len() as int;
    lemma_resolved_is_clear(walls[n - 1], resolved_through(walls, p, r, n - 1), r);
}

} // verus!
