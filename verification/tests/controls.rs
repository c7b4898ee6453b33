use parking_garage::controls::{Key, MoveIntent, PadButton};
use parking_garage::space::{Point, WorldTransform};

fn still() -> MoveIntent {
    MoveIntent { forward: false, backward: false, left: false, right: false }
}

#[test]
fn nothing_is_asked_at_first() {
    assert_eq!(MoveIntent::new(), still());
}

#[test]
fn movement_keys_set_their_direction_while_down() {
    let mut m = MoveIntent::new();
    assert!(m.process_keyboard(Key::W, true));
    assert_eq!(m, MoveIntent { forward: true, ..still() });
    assert!(m.process_keyboard(Key::A, true));
    assert_eq!(m, MoveIntent { forward: true, left: true, ..still() });
    assert!(m.process_keyboard(Key::W, false));
    assert_eq!(m, MoveIntent { left: true, ..still() });
    assert!(m.process_keyboard(Key::S, true));
    assert!(m.process_keyboard(Key::D, true));
    assert_eq!(m, MoveIntent { forward: false, backward: true, left: true, right: true });
    assert!(m.process_keyboard(Key::S, false));
    assert!(m.process_keyboard(Key::D, false));
    assert!(m.process_keyboard(Key::A, false));
    assert_eq!(m, still());
}

#[test]
fn other_keys_are_not_handled() {
    let mut m = MoveIntent { forward: true, backward: false, left: false, right: true };
    assert!(!m.process_keyboard(Key::Other, true));
    assert!(!m.process_keyboard(Key::Other, false));
    assert_eq!(m, MoveIntent { forward: true, backward: false, left: false, right: true });
}

#[test]
fn direction_pad_sets_its_direction_while_down() {
    let mut m = MoveIntent::new();
    m.process_controller(PadButton::DPadUp, true);
    assert_eq!(m, MoveIntent { forward: true, ..still() });
    m.process_controller(PadButton::DPadDown, true);
    m.process_controller(PadButton::DPadLeft, true);
    m.process_controller(PadButton::DPadRight, true);
    assert_eq!(m, MoveIntent { forward: true, backward: true, left: true, right: true });
    m.process_controller(PadButton::Other, false);
    assert_eq!(m, MoveIntent { forward: true, backward: true, left: true, right: true });
    m.process_controller(PadButton::DPadUp, false);
    m.process_controller(PadButton::DPadLeft, false);
    assert_eq!(m, MoveIntent { backward: true, right: true, ..still() });
    m.process_controller(PadButton::DPadDown, false);
    m.process_controller(PadButton::DPadRight, false);
    assert_eq!(m, still());
}

#[test]
fn keys_and_pad_share_the_directions() {
    let mut m = MoveIntent::new();
    m.process_controller(PadButton::DPadUp, true);
    assert!(m.process_keyboard(Key::W, false));
    assert_eq!(m, still());
}

#[test]
fn corners_of_the_grid_in_the_world() {
    let t = WorldTransform::centered(20, 15, 2000).expect("a transform");
    assert_eq!(t.corner(0, 0), Point { x: -20000, z: -15000 });
    assert_eq!(t.corner(20, 15), Point { x: 20000, z: 15000 });
    assert_eq!(t.corner(3, 7), Point { x: -14000, z: -1000 });
    let t = WorldTransform::new(0x4000, Point { x: 0x400_0000, z: -0x400_0000 }).expect("a transform");
    assert_eq!(t.corner(4096, 0), Point { x: 0x800_0000, z: -0x400_0000 });
}

#[test]
fn cell_under_a_point_of_the_world() {
    let t = WorldTransform::centered(20, 15, 2000).expect("a transform");
    assert_eq!(t.cell_at(Point { x: -20000, z: -15000 }), (0, 0));
    assert_eq!(t.cell_at(Point { x: -18001, z: -13001 }), (0, 0));
    assert_eq!(t.cell_at(Point { x: -18000, z: -13000 }), (1, 1));
    assert_eq!(t.cell_at(Point { x: 0, z: 0 }), (10, 7));
    assert_eq!(t.cell_at(Point { x: 19999, z: 14999 }), (19, 14));
    // beyond the grid the count goes on
    assert_eq!(t.cell_at(Point { x: 20000, z: 15000 }), (20, 15));
    assert_eq!(t.cell_at(Point { x: -20001, z: -15001 }), (-1, -1));
    assert_eq!(t.cell_at(Point { x: -22000, z: -19000 }), (-1, -2));
    assert_eq!(t.cell_at(Point { x: -22001, z: -19001 }), (-2, -3));
    let t = WorldTransform::new(7, Point { x: 3, z: -3 }).expect("a transform");
    assert_eq!(t.cell_at(Point { x: 0x1000_0000, z: -0x1000_0000 }), (38347921, -38347922));
}

#[test]
fn from_the_grid_to_the_world_and_back() {
    let t = WorldTransform::centered(20, 15, 2000).expect("a transform");
    for y in 0..15usize {
        for x in 0..20usize {
            let c = t.corner(x, y);
            let centre = Point { x: c.x + 1000, z: c.z + 1000 };
            assert_eq!(t.cell_at(centre), (x as i64, y as i64));
            assert_eq!(t.cell_at(c), (x as i64, y as i64));
        }
    }
}
