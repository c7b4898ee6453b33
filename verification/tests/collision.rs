use parking_garage::collision::{create_wall_collider, WallCollider, WALL_THICKNESS};
use parking_garage::motion::{any_collision, resolve_motion, MIN_EYE_HEIGHT, PLAYER_RADIUS};
use parking_garage::reach::outward_step_of;
use parking_garage::space::{Point, Position, UNITS};

/// The wall of the scenario: from (0, 0, 0) to (2, 0, 0), four high, 0.3 thick.
fn wall() -> WallCollider {
    WallCollider::new([0, 0, 0], [2 * UNITS, 0, 0], 4 * UNITS, 300).expect("a collider")
}

fn at(x: i64, y: i64, z: i64) -> Position {
    Position { x, y, z }
}

#[test]
fn in_front_of_the_wall_the_agent_is_pushed_to_its_radius() {
    let w = wall();
    assert_eq!(w.normal(), Point { x: 0, z: 1 });
    assert!(w.check_collision(at(1000, 0, 100), 500));
    assert_eq!(w.resolve_collision(at(1000, 0, 100), 500), at(1000, 0, 500));
}

#[test]
fn behind_the_wall_the_agent_is_pushed_to_radius_and_thickness() {
    let w = wall();
    assert!(w.check_collision(at(1000, 0, -100), 500));
    assert_eq!(w.resolve_collision(at(1000, 0, -100), 500), at(1000, 0, -800));
}

#[test]
fn clearance_is_the_radius_in_front_and_thickness_more_behind() {
    let w = wall();
    assert!(w.check_collision(at(1000, 0, 499), 500));
    assert!(!w.check_collision(at(1000, 0, 500), 500));
    assert!(w.check_collision(at(1000, 0, -799), 500));
    assert!(!w.check_collision(at(1000, 0, -800), 500));
    assert!(w.check_collision(at(1000, 0, -501), 500));
}

#[test]
fn above_the_wall_nothing_collides() {
    let w = wall();
    assert!(w.check_collision(at(1000, 4000, 0), 500));
    assert!(!w.check_collision(at(1000, 4001, 0), 500));
    assert!(!w.check_collision(at(1000, 4001, 100), 500));
    assert!(!w.check_collision(at(1000, i64::MAX, -100), 0x400_0000));
    assert_eq!(w.resolve_collision(at(1000, 4001, 100), 500), at(1000, 4001, 100));
}

#[test]
fn far_from_the_wall_nothing_moves() {
    let w = wall();
    for p in [at(1000, 0, 500), at(-500, 0, 0), at(2500, 0, 0), at(3000, 1000, 3000), at(-400, 0, 300)] {
        assert!(!w.check_collision(p, 500));
        assert_eq!(w.resolve_collision(p, 500), p);
    }
}

#[test]
fn on_the_wall_itself_the_agent_is_pushed_along_the_normal() {
    let w = wall();
    assert!(w.check_collision(at(1000, 0, 0), 500));
    assert_eq!(w.resolve_collision(at(1000, 0, 0), 500), at(1000, 0, 500));
    assert_eq!(w.resolve_collision(at(0, 0, 0), 500), at(0, 0, 500));
    let back = WallCollider::new([0, 0, 2000], [0, 0, 0], 4000, 300).expect("a collider");
    assert_eq!(back.normal(), Point { x: 1, z: 0 });
    assert_eq!(back.resolve_collision(at(0, 0, 700), 500), at(500, 0, 700));
}

#[test]
fn beyond_the_end_of_the_wall_the_agent_is_pushed_from_the_end() {
    let w = wall();
    // on the line of the wall: counted in front of it
    assert!(w.check_collision(at(2300, 0, 0), 500));
    assert_eq!(w.resolve_collision(at(2300, 0, 0), 500), at(2500, 0, 0));
    assert_eq!(w.resolve_collision(at(-1, 0, 0), 500), at(-500, 0, 0));
    // offset (-30, 40) of length 50, scaled to 500
    assert_eq!(w.resolve_collision(at(-30, 0, 40), 500), at(-300, 0, 400));
    // offset (-30, -40) behind the wall, scaled to 800
    assert_eq!(w.resolve_collision(at(-30, 0, -40), 500), at(-480, 0, -640));
}

#[test]
fn a_slanting_push_is_rounded_away_from_the_wall() {
    let w = wall();
    // offset (10, 10): 10 * 500 / sqrt(200) = 353.55...
    assert_eq!(w.resolve_collision(at(2010, 0, 10), 500), at(2354, 0, 354));
    // offset (1, 2): 500 / sqrt(5) = 223.6..., 1000 / sqrt(5) = 447.2...
    assert_eq!(w.resolve_collision(at(2001, 0, 2), 500), at(2224, 0, 448));
    // offset (-3, -1) behind: 2400 / sqrt(10) = 758.9..., 800 / sqrt(10) = 252.9...
    assert_eq!(w.resolve_collision(at(-3, 0, -1), 500), at(-759, 0, -253));
}

#[test]
fn a_corrected_position_is_clear_and_stays() {
    let colliders = [
        wall(),
        WallCollider::new([0, 0, 2000], [0, 0, 0], 4000, 300).expect("a collider"),
        WallCollider::new([700, 0, -300], [-900, 0, -300], 1000, 0).expect("a collider"),
        WallCollider::new([5, 0, 5], [5, 0, 6], 1000, 40).expect("a collider"),
    ];
    for w in &colliders {
        for radius in [0, 1, 7, 500, 1234] {
            let mut x = -1500;
            while x <= 3500 {
                let mut z = -1500;
                while z <= 3500 {
                    for y in [0, 1000, 1001, 4000, 4001] {
                        let p = at(x, y, z);
                        let q = w.resolve_collision(p, radius);
                        assert!(!w.check_collision(q, radius));
                        assert_eq!(w.resolve_collision(q, radius), q);
                        assert_eq!(q.y, y);
                        if !w.check_collision(p, radius) {
                            assert_eq!(q, p);
                        }
                    }
                    z += 97;
                }
                x += 89;
            }
        }
    }
}

#[test]
fn a_correction_goes_no_further_than_it_must() {
    let w = wall();
    let mut x = -600;
    while x <= 2600 {
        let mut z = -900;
        while z <= 600 {
            let p = at(x, 0, z);
            if w.check_collision(p, 500) {
                let q = w.resolve_collision(p, 500);
                // one lattice unit back towards the wall in both coordinates collides again,
                // unless the push was along one axis only, where one unit back in it does
                let back = at(q.x - (q.x - p.x).signum(), 0, q.z - (q.z - p.z).signum());
                assert!(w.check_collision(back, 500));
            }
            z += 53;
        }
        x += 61;
    }
}

#[test]
fn a_radius_of_nothing_collides_only_behind_the_wall() {
    let w = wall();
    assert!(!w.check_collision(at(1000, 0, 0), 0));
    assert!(!w.check_collision(at(1000, 0, 1), 0));
    assert!(w.check_collision(at(1000, 0, -1), 0));
    assert_eq!(w.resolve_collision(at(1000, 0, -1), 0), at(1000, 0, -300));
    assert!(!w.check_collision(at(1000, 0, -1), -300));
    assert!(w.check_collision(at(1000, 0, -1), -298));
}

#[test]
fn collider_needs_a_length_and_an_axis() {
    assert!(WallCollider::new([0, 0, 0], [0, 0, 0], 4000, 300).is_none());
    assert!(WallCollider::new([0, 0, 0], [0, 7, 0], 4000, 300).is_none());
    assert!(WallCollider::new([0, 0, 0], [2000, 0, 1], 4000, 300).is_none());
    assert!(WallCollider::new([0, 5, 0], [2000, 9, 0], 4000, 300).is_some());
    assert!(WallCollider::new([0, 0, 0], [0x800_0001, 0, 0], 4000, 300).is_none());
    assert!(WallCollider::new([0, 0, 0], [2000, 0, 0], 4000, 0x400_0001).is_none());
    let c = WallCollider::new([1, 0, 2], [1, 0, -2], 5, 6).expect("a collider");
    assert_eq!(c.segment().start(), Point { x: 1, z: 2 });
    assert_eq!(c.segment().end(), Point { x: 1, z: -2 });
    assert_eq!(c.segment().height(), 5);
    assert_eq!(c.segment().thickness(), 6);
    assert_eq!(c.normal(), Point { x: 1, z: 0 });
    assert_eq!(WallCollider::from_segment(c.segment()).normal(), Point { x: 1, z: 0 });
}

#[test]
fn helper_builds_a_collider_of_the_common_thickness() {
    assert_eq!(WALL_THICKNESS, 300);
    let w = create_wall_collider([0, 0, 0], [2000, 0, 0], 4000).expect("a collider");
    assert_eq!(w.segment().thickness(), 300);
    assert_eq!(w.resolve_collision(at(1000, 0, -100), 500), at(1000, 0, -800));
    assert!(create_wall_collider([0, 0, 0], [0, 0, 0], 4000).is_none());
    assert!(create_wall_collider([0, 0, 0], [3, 0, 4], 4000).is_none());
}

#[test]
fn at_the_limits_the_arithmetic_holds() {
    let far = 0x800_0000;
    let w = WallCollider::new([-far, 0, -far], [far, 0, -far], 0, 0x400_0000).expect("a collider");
    let p = at(0x1000_0000, 0, 0x1000_0000);
    assert!(!w.check_collision(p, 0x400_0000));
    let p = at(far + 3, 0, -far - 4);
    assert!(w.check_collision(p, 0x400_0000));
    let q = w.resolve_collision(p, 0x400_0000);
    assert!(!w.check_collision(q, 0x400_0000));
    // offset (3, -4) behind the wall, scaled from 5 to twice 0x400_0000
    assert_eq!(q, at(far + 0x800_0000 / 5 * 3 + 2, 0, -far - 0x800_0000 / 5 * 4 - 3));
}

#[test]
fn outward_step_is_the_rounded_up_share() {
    assert_eq!(outward_step_of(0, 25, 500), 0);
    assert_eq!(outward_step_of(3, 25, 500), 300);
    assert_eq!(outward_step_of(4, 25, 500), 400);
    assert_eq!(outward_step_of(5, 25, 500), 500);
    assert_eq!(outward_step_of(10, 200, 500), 354);
    assert_eq!(outward_step_of(1, 2, 1), 1);
    assert_eq!(outward_step_of(1, 2, 0), 0);
    assert_eq!(outward_step_of(1, 10, 800), 253);
    assert_eq!(outward_step_of(1, 0x7ff_ffff_ffff_ffff, 0x800_0000), 1);
}

fn room() -> Vec<WallCollider> {
    // a corner: a wall along x at z = 0 facing +z, and a wall along z at x = 0 facing +x
    vec![
        WallCollider::new([0, 0, 0], [4000, 0, 0], 4000, 300).expect("a collider"),
        WallCollider::new([0, 0, 4000], [0, 0, 0], 4000, 300).expect("a collider"),
    ]
}

#[test]
fn any_wall_that_is_touched_counts() {
    let walls = room();
    assert!(any_collision(&walls, at(2000, 0, 100), 500));
    assert!(any_collision(&walls, at(100, 0, 2000), 500));
    assert!(any_collision(&walls, at(100, 0, 100), 500));
    assert!(!any_collision(&walls, at(2000, 0, 2000), 500));
    assert!(!any_collision(&walls, at(100, 4001, 100), 500));
    assert!(!any_collision(&Vec::new(), at(0, 0, 0), 500));
}

#[test]
fn motion_is_resolved_wall_after_wall() {
    let walls = room();
    assert_eq!(PLAYER_RADIUS, 500);
    assert_eq!(MIN_EYE_HEIGHT, 1000);
    // pushed out of the first wall, then out of the second
    assert_eq!(resolve_motion(&walls, at(100, 1800, 100), 500, 1000), at(500, 1800, 500));
    assert_eq!(resolve_motion(&walls, at(2000, 1800, 100), 500, 1000), at(2000, 1800, 500));
    assert_eq!(resolve_motion(&walls, at(2000, 1800, 2000), 500, 1000), at(2000, 1800, 2000));
    assert_eq!(resolve_motion(&Vec::new(), at(1, 2, 3), 500, 1000), at(1, 1000, 3));
}

#[test]
fn motion_is_one_pass_and_each_correction_starts_from_the_last() {
    // two walls facing each other, 600 apart: the agent of radius 500 fits nowhere
    let walls = vec![
        WallCollider::new([0, 0, 0], [4000, 0, 0], 4000, 0).expect("a collider"),
        WallCollider::new([4000, 0, 600], [0, 0, 600], 4000, 0).expect("a collider"),
    ];
    let out = resolve_motion(&walls, at(2000, 1800, 100), 500, 1000);
    // the first wall pushes to z = 500, the second from there back to z = 100
    assert_eq!(out, at(2000, 1800, 100));
    assert!(!walls[1].check_collision(out, 500));
    assert!(walls[0].check_collision(out, 500));
    let by_hand = walls[1].resolve_collision(walls[0].resolve_collision(at(2000, 1800, 100), 500), 500);
    assert_eq!(out, by_hand);
}

#[test]
fn the_floor_lifts_the_agent_after_the_walls() {
    let walls = vec![WallCollider::new([0, 0, 0], [4000, 0, 0], 500, 300).expect("a collider")];
    // at height 0 the low wall is hit; the lift to the floor comes after
    assert_eq!(resolve_motion(&walls, at(2000, 0, 100), 500, 1000), at(2000, 1000, 500));
    // at the floor height the agent is above the wall
    assert_eq!(resolve_motion(&walls, at(2000, 1000, 100), 500, 1000), at(2000, 1000, 100));
    assert_eq!(resolve_motion(&walls, at(2000, 3000, 100), 500, 1000), at(2000, 3000, 100));
}
