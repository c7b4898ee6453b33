//! What the list of exposed faces holds: every exposed face of the grid, once,
//! each with a wall segment whose normal leaves the cell.

use vstd::prelude::*;
use crate::grid::{grid_height, grid_width, wall_at};
use crate::space::{dot, lemma_dot_with_axis, minus, twice_centre, Frame, Vec2};
use crate::wall::{
    cell_faces, exposed, exposed_faces, face_if_exposed, faces_through, neighbour, row_faces,
    segments_of, unit_normal, wall_of_face, Face, FaceAt, Wall,
};

verus! {

/// The place of a face among the faces of its cell.
pub open spec fn face_index(face: Face) -> int {
    match face {
        Face::North => 0,
        Face::South => 1,
        Face::West => 2,
        Face::East => 3,
    }
}

/// Whether face `a` is listed before face `b`: by row, then by column, then by side.
pub open spec fn listed_before(a: FaceAt, b: FaceAt) -> bool {
    ||| a.y < b.y
    ||| a.y == b.y && a.x < b.x
    ||| a.y == b.y && a.x == b.x && face_index(a.face) < face_index(b.face)
}

/// The exposed faces of a grid, as a set.
pub open spec fn exposed_set(cells: Seq<Seq<bool>>) -> Set<FaceAt> {
    Set::new(|f: FaceAt| exposed(cells, f.x, f.y, f.face))
}

pub open spec fn twice(v: Vec2) -> Vec2 {
    Vec2 { x: 2 * v.x, z: 2 * v.z }
}

/// Whether the doubled point `twice_p` lies in the bounding box of a wall, grown
/// on every side by half of `twice_margin`.
pub open spec fn in_bounding_region(w: Wall, twice_p: Vec2, twice_margin: int) -> bool {
    &&& 2 * w.start.x - twice_margin <= twice_p.x || 2 * w.end.x - twice_margin <= twice_p.x
    &&& twice_p.x <= 2 * w.start.x + twice_margin || twice_p.x <= 2 * w.end.x + twice_margin
    &&& 2 * w.start.z - twice_margin <= twice_p.z || 2 * w.end.z - twice_margin <= twice_p.z
    &&& twice_p.z <= 2 * w.start.z + twice_margin || twice_p.z <= 2 * w.end.z + twice_margin
}

spec fn sorted(s: Seq<FaceAt>) -> bool {
    forall|j: int, k: int| 0 <= j < k < s.len() ==> listed_before(#[trigger] s[j], #[trigger] s[k])
}

proof fn lemma_cell_faces(cells: Seq<Seq<bool>>, x: int, y: int)
    ensures
        forall|k: int|
            0 <= k < cell_faces(cells, x, y).len() ==> {
                let f = #[trigger] cell_faces(cells, x, y)[k];
                f.x == x && f.y == y && exposed(cells, x, y, f.face)
            },
        sorted(cell_faces(cells, x, y)),
        forall|face: Face|
            exposed(cells, x, y, face) ==> #[trigger] cell_faces(cells, x, y).contains(
                FaceAt { x, y, face },
            ),
{
    let n = face_if_exposed(cells, x, y, Face::North);
    let s = face_if_exposed(cells, x, y, Face::South);
    let w = face_if_exposed(cells, x, y, Face::West);
    let e = face_if_exposed(cells, x, y, Face::East);
    let all = cell_faces(cells, x, y);
    assert(all == n + s + w + e);
    assert forall|k: int| 0 <= k < all.len() implies ({
        let f = #[trigger] all[k];
        &&& f.x == x && f.y == y && exposed(cells, x, y, f.face)
        &&& k < n.len() ==> f.face == Face::North
        &&& n.len() <= k < n.len() + s.len() ==> f.face == Face::South
        &&& n.len() + s.len() <= k < n.len() + s.len() + w.len() ==> f.face == Face::West
        &&& n.len() + s.len() + w.len() <= k ==> f.face == Face::East
    }) by {
        if k < n.len() {
            assert(all[k] == n[k]);
        } else if k < n.len() + s.len() {
            assert(all[k] == s[k - n.len()]);
        } else if k < n.len() + s.len() + w.len() {
            assert(all[k] == w[k - n.len() - s.len()]);
        } else {
            assert(all[k] == e[k - n.len() - s.len() - w.len()]);
        }
    }
    assert forall|face: Face| exposed(cells, x, y, face) implies #[trigger] all.contains(
        FaceAt { x, y, face },
    ) by {
        let at: int = match face {
            Face::North => 0,
            Face::South => n.len() as int,
            Face::West => (n.len() + s.len()) as int,
            Face::East => (n.len() + s.len() + w.len()) as int,
        };
        assert(0 <= at < all.len());
        assert(all[at].face == face);
        assert(all[at] == FaceAt { x, y, face });
    }
}

proof fn lemma_row_faces(cells: Seq<Seq<bool>>, y: int, n: int)
    ensures
        forall|k: int|
            0 <= k < row_faces(cells, y, n).len() ==> {
                let f = #[trigger] row_faces(cells, y, n)[k];
                f.y == y && 0 <= f.x < n && exposed(cells, f.x, f.y, f.face)
            },
        sorted(row_faces(cells, y, n)),
        forall|f: FaceAt|
            f.y == y && 0 <= f.x < n && exposed(cells, f.x, f.y, f.face) ==> #[trigger] row_faces(
                cells,
                y,
                n,
            ).contains(f),
    decreases n,
{
    if n > 0 {
        lemma_row_faces(cells, y, n - 1);
        lemma_cell_faces(cells, n - 1, y);
        let head = row_faces(cells, y, n - 1);
        let tail = cell_faces(cells, n - 1, y);
        let all = row_faces(cells, y, n);
        assert(all == head + tail);
        assert forall|k: int| 0 <= k < all.len() implies ({
            let f = #[trigger] all[k];
            &&& f.y == y && 0 <= f.x < n && exposed(cells, f.x, f.y, f.face)
            &&& k < head.len() ==> f.x < n - 1
            &&& k >= head.len() ==> f.x == n - 1
        }) by {
            if k < head.len() {
                assert(all[k] == head[k]);
            } else {
                assert(all[k] == tail[k - head.len()]);
                if n - 1 < 0 {
                }
            }
        }
        assert forall|j: int, k: int| 0 <= j < k < all.len() implies listed_before(
            #[trigger] all[j],
            #[trigger] all[k],
        ) by {
            if k < head.len() {
                assert(all[j] == head[j] && all[k] == head[k]);
            } else if j >= head.len() {
                assert(all[j] == tail[j - head.len()] && all[k] == tail[k - head.len()]);
            }
        }
        assert forall|f: FaceAt|
            f.y == y && 0 <= f.x < n && exposed(cells, f.x, f.y, f.face) implies #[trigger] all.contains(
            f,
        ) by {
            if f.x < n - 1 {
                assert(head.contains(f));
                let i = choose|i: int| 0 <= i < head.len() && head[i] == f;
                assert(all[i] == f);
            } else {
                assert(f == FaceAt { x: n - 1, y, face: f.face });
                assert(tail.contains(FaceAt { x: n - 1, y, face: f.face }));
                let i = choose|i: int| 0 <= i < tail.len() && tail[i] == f;
                assert(all[head.len() + i] == f);
            }
        }
    }
}

proof fn lemma_faces_through(cells: Seq<Seq<bool>>, m: int)
    ensures
        forall|k: int|
            0 <= k < faces_through(cells, m).len() ==> {
                let f = #[trigger] faces_through(cells, m)[k];
                0 <= f.y < m && exposed(cells, f.x, f.y, f.face)
            },
        sorted(faces_through(cells, m)),
        forall|f: FaceAt|
            0 <= f.y < m && exposed(cells, f.x, f.y, f.face) ==> #[trigger] faces_through(
                cells,
                m,
            ).contains(f),
    decreases m,
{
    if m > 0 {
        lemma_faces_through(cells, m - 1);
        lemma_row_faces(cells, m - 1, grid_width(cells));
        let head = faces_through(cells, m - 1);
        let tail = row_faces(cells, m - 1, grid_width(cells));
        let all = faces_through(cells, m);
        assert(all == head + tail);
        assert forall|k: int| 0 <= k < all.len() implies ({
            let f = #[trigger] all[k];
            &&& 0 <= f.y < m && exposed(cells, f.x, f.y, f.face)
            &&& k < head.len() ==> f.y < m - 1
            &&& k >= head.len() ==> f.y == m - 1
        }) by {
            if k < head.len() {
                assert(all[k] == head[k]);
            } else {
                assert(all[k] == tail[k - head.len()]);
            }
        }
        assert forall|j: int, k: int| 0 <= j < k < all.len() implies listed_before(
            #[trigger] all[j],
            #[trigger] all[k],
        ) by {
            if k < head.len() {
                assert(all[j] == head[j] && all[k] == head[k]);
            } else if j >= head.len() {
                assert(all[j] == tail[j - head.len()] && all[k] == tail[k - head.len()]);
            }
        }
        assert forall|f: FaceAt|
            0 <= f.y < m && exposed(cells, f.x, f.y, f.face) implies #[trigger] all.contains(f) by {
            if f.y < m - 1 {
                assert(head.contains(f));
                let i = choose|i: int| 0 <= i < head.len() && head[i] == f;
                assert(all[i] == f);
            } else {
                assert(tail.contains(f));
                let i = choose|i: int| 0 <= i < tail.len() && tail[i] == f;
                assert(all[head.len() + i] == f);
            }
        }
    }
}

/// A face is listed if and only if it is exposed: it belongs to a wall cell, and
/// the cell beyond it is free or outside the grid.
pub proof fn lemma_listed_iff_exposed(cells: Seq<Seq<bool>>, f: FaceAt)
    ensures
        exposed_faces(cells).contains(f) <==> exposed(cells, f.x, f.y, f.face),
{
    lemma_faces_through(cells, grid_height(cells));
    if exposed_faces(cells).contains(f) {
        let i = choose|i: int| 0 <= i < exposed_faces(cells).len() && exposed_faces(cells)[i] == f;
        assert(exposed(cells, f.x, f.y, f.face));
    }
}

/// The faces are listed in order, by row, then by column, then by side; so no
/// face is listed twice.
pub proof fn lemma_listed_in_order(cells: Seq<Seq<bool>>)
    ensures
        forall|j: int, k: int|
            0 <= j < k < exposed_faces(cells).len() ==> listed_before(
                #[trigger] exposed_faces(cells)[j],
                #[trigger] exposed_faces(cells)[k],
            ),
        exposed_faces(cells).no_duplicates(),
{
    lemma_faces_through(cells, grid_height(cells));
    let s = exposed_faces(cells);
    assert forall|j: int, k: int| 0 <= j < s.len() && 0 <= k < s.len() && j != k implies s[j]
        != s[k] by {
        if j < k {
            assert(listed_before(s[j], s[k]));
        } else {
            assert(listed_before(s[k], s[j]));
        }
    }
}

/// There are as many wall segments as there are pairs of a wall cell and a
/// neighbouring cell that is free or outside the grid.
pub proof fn lemma_segment_count(cells: Seq<Seq<bool>>, frame: Frame, height: int, thickness: int)
    ensures
        exposed_set(cells).finite(),
        segments_of(cells, frame, height, thickness).len() == exposed_set(cells).len(),
{
    let s = exposed_faces(cells);
    lemma_listed_in_order(cells);
    assert forall|f: FaceAt| s.to_set().contains(f) == exposed_set(cells).contains(f) by {
        lemma_listed_iff_exposed(cells, f);
    }
    assert(s.to_set() =~= exposed_set(cells));
    s.unique_seq_to_set();
    vstd::seq_lib::seq_to_set_is_finite(s);
}

/// A grid without a wall cell has no wall segment.
pub proof fn lemma_open_grid_has_no_segment(
    cells: Seq<Seq<bool>>,
    frame: Frame,
    height: int,
    thickness: int,
)
    requires
        forall|x: int, y: int| !wall_at(cells, x, y),
    ensures
        segments_of(cells, frame, height, thickness).len() == 0,
{
    let s = exposed_faces(cells);
    if s.len() > 0 {
        assert(s.contains(s[0]));
        lemma_listed_iff_exposed(cells, s[0]);
    }
}

/// A wall cell that stands alone, in a grid that is free everywhere else, has
/// exactly four wall segments.
pub proof fn lemma_lone_wall_cell_has_four_segments(
    cells: Seq<Seq<bool>>,
    frame: Frame,
    height: int,
    thickness: int,
    x: int,
    y: int,
)
    requires
        wall_at(cells, x, y),
        forall|i: int, j: int| wall_at(cells, i, j) ==> i == x && j == y,
    ensures
        segments_of(cells, frame, height, thickness).len() == 4,
{
    lemma_segment_count(cells, frame, height, thickness);
    let north = FaceAt { x, y, face: Face::North };
    let south = FaceAt { x, y, face: Face::South };
    let west = FaceAt { x, y, face: Face::West };
    let east = FaceAt { x, y, face: Face::East };
    let four = Set::<FaceAt>::empty().insert(north).insert(south).insert(west).insert(east);
    assert forall|f: FaceAt| exposed_set(cells).contains(f) == four.contains(f) by {
        if exposed(cells, f.x, f.y, f.face) {
            assert(f.x == x && f.y == y);
            match f.face {
                Face::North => {
                    assert(f == north);
                },
                Face::South => {
                    assert(f == south);
                },
                Face::West => {
                    assert(f == west);
                },
                Face::East => {
                    assert(f == east);
                },
            }
        }
        if four.contains(f) {
            assert(!wall_at(cells, x, y - 1));
            assert(!wall_at(cells, x, y + 1));
            assert(!wall_at(cells, x - 1, y));
            assert(!wall_at(cells, x + 1, y));
        }
    }
    assert(exposed_set(cells) =~= four);
    assert(four.len() == 4);
}

/// The number of wall cells among the first `n` cells of row `y`.
pub open spec fn walls_in_row(cells: Seq<Seq<bool>>, y: int, n: int) -> int
    decreases n,
{
    if n <= 0 {
        0
    } else {
        walls_in_row(cells, y, n - 1) + (if wall_at(cells, n - 1, y) {
            1int
        } else {
            0int
        })
    }
}

/// The number of wall cells in the first `m` rows.
pub open spec fn walls_through(cells: Seq<Seq<bool>>, m: int) -> int
    decreases m,
{
    if m <= 0 {
        0
    } else {
        walls_through(cells, m - 1) + walls_in_row(cells, m - 1, grid_width(cells))
    }
}

/// The number of wall cells of the grid.
pub open spec fn wall_count(cells: Seq<Seq<bool>>) -> int {
    walls_through(cells, grid_height(cells))
}

proof fn lemma_row_bound(cells: Seq<Seq<bool>>, y: int, n: int)
    ensures
        row_faces(cells, y, n).len() <= 4 * walls_in_row(cells, y, n),
    decreases n,
{
    if n > 0 {
        lemma_row_bound(cells, y, n - 1);
        let faces = cell_faces(cells, n - 1, y);
        assert(faces.len() <= 4);
        if !wall_at(cells, n - 1, y) {
            assert(faces.len() == 0);
        }
    }
}

proof fn lemma_rows_bound(cells: Seq<Seq<bool>>, m: int)
    ensures
        faces_through(cells, m).len() <= 4 * walls_through(cells, m),
    decreases m,
{
    if m > 0 {
        lemma_rows_bound(cells, m - 1);
        lemma_row_bound(cells, m - 1, grid_width(cells));
    }
}

/// There are at most four wall segments to a wall cell.
pub proof fn lemma_at_most_four_to_a_wall_cell(
    cells: Seq<Seq<bool>>,
    frame: Frame,
    height: int,
    thickness: int,
)
    ensures
        segments_of(cells, frame, height, thickness).len() <= 4 * wall_count(cells),
{
    lemma_rows_bound(cells, grid_height(cells));
}

/// The segments stand in the order of the faces: segment `i` is the wall of the
/// listed face `i`, and that face is exposed.
pub proof fn lemma_segment_has_its_face(
    cells: Seq<Seq<bool>>,
    frame: Frame,
    height: int,
    thickness: int,
    i: int,
)
    requires
        0 <= i < exposed_faces(cells).len(),
    ensures
        segments_of(cells, frame, height, thickness).len() == exposed_faces(cells).len(),
        segments_of(cells, frame, height, thickness)[i] == wall_of_face(
            frame,
            exposed_faces(cells)[i],
            height,
            thickness,
        ),
        exposed(
            cells,
            exposed_faces(cells)[i].x,
            exposed_faces(cells)[i].y,
            exposed_faces(cells)[i].face,
        ),
{
    assert(exposed_faces(cells).contains(exposed_faces(cells)[i]));
    lemma_listed_iff_exposed(cells, exposed_faces(cells)[i]);
}

/// The normal of every wall segment points out of the wall cell that the segment
/// belongs to: from any point of the segment, the centre of the cell beyond the
/// face lies on the side of the normal, and the centre of the wall cell on the
/// other side.
pub proof fn lemma_normal_points_outward(
    cells: Seq<Seq<bool>>,
    frame: Frame,
    height: int,
    thickness: int,
    i: int,
)
    requires
        frame.cell_size > 0,
        0 <= i < exposed_faces(cells).len(),
    ensures
        ({
            let f = exposed_faces(cells)[i];
            let w = segments_of(cells, frame, height, thickness)[i];
            let beyond = neighbour(f.x, f.y, f.face);
            &&& wall_at(cells, f.x, f.y)
            &&& !wall_at(cells, beyond.0, beyond.1)
            &&& dot(unit_normal(w), minus(twice_centre(frame, beyond.0, beyond.1), twice(w.start)))
                > 0
            &&& dot(unit_normal(w), minus(twice_centre(frame, beyond.0, beyond.1), twice(w.end)))
                > 0
            &&& dot(unit_normal(w), minus(twice_centre(frame, f.x, f.y), twice(w.start))) < 0
            &&& dot(unit_normal(w), minus(twice_centre(frame, f.x, f.y), twice(w.end))) < 0
        }),
{
    lemma_segment_has_its_face(cells, frame, height, thickness, i);
    let f = exposed_faces(cells)[i];
    let w = segments_of(cells, frame, height, thickness)[i];
    let beyond = neighbour(f.x, f.y, f.face);
    let n = unit_normal(w);
    let size = frame.cell_size;
    lemma_corner_steps(frame, f.x, f.y);
    match f.face {
        Face::North => {
            assert(n == Vec2 { x: 0, z: -1 });
        },
        Face::South => {
            assert(n == Vec2 { x: 0, z: 1 });
        },
        Face::West => {
            assert(n == Vec2 { x: -1, z: 0 });
        },
        Face::East => {
            assert(n == Vec2 { x: 1, z: 0 });
        },
    }
    let out_start = minus(twice_centre(frame, beyond.0, beyond.1), twice(w.start));
    let out_end = minus(twice_centre(frame, beyond.0, beyond.1), twice(w.end));
    let in_start = minus(twice_centre(frame, f.x, f.y), twice(w.start));
    let in_end = minus(twice_centre(frame, f.x, f.y), twice(w.end));
    lemma_dot_with_axis(n, out_start);
    lemma_dot_with_axis(n, out_end);
    lemma_dot_with_axis(n, in_start);
    lemma_dot_with_axis(n, in_end);
}

/// How the corners and the centres round a cell lie to one another.
proof fn lemma_corner_steps(frame: Frame, x: int, y: int)
    ensures
        (x + 1) * frame.cell_size == x * frame.cell_size + frame.cell_size,
        (y + 1) * frame.cell_size == y * frame.cell_size + frame.cell_size,
        (2 * x + 1) * frame.cell_size == 2 * (x * frame.cell_size) + frame.cell_size,
        (2 * y + 1) * frame.cell_size == 2 * (y * frame.cell_size) + frame.cell_size,
        (2 * (x + 1) + 1) * frame.cell_size == 2 * (x * frame.cell_size) + 3 * frame.cell_size,
        (2 * (y + 1) + 1) * frame.cell_size == 2 * (y * frame.cell_size) + 3 * frame.cell_size,
        (2 * (x - 1) + 1) * frame.cell_size == 2 * (x * frame.cell_size) - frame.cell_size,
        (2 * (y - 1) + 1) * frame.cell_size == 2 * (y * frame.cell_size) - frame.cell_size,
{
    let s = frame.cell_size;
    assert((x + 1) * s == x * s + s) by (nonlinear_arith);
    assert((y + 1) * s == y * s + s) by (nonlinear_arith);
    assert((2 * x + 1) * s == 2 * (x * s) + s) by (nonlinear_arith);
    assert((2 * y + 1) * s == 2 * (y * s) + s) by (nonlinear_arith);
    assert((2 * (x + 1) + 1) * s == 2 * (x * s) + 3 * s) by (nonlinear_arith);
    assert((2 * (y + 1) + 1) * s == 2 * (y * s) + 3 * s) by (nonlinear_arith);
    assert((2 * (x - 1) + 1) * s == 2 * (x * s) - s) by (nonlinear_arith);
    assert((2 * (y - 1) + 1) * s == 2 * (y * s) - s) by (nonlinear_arith);
}

/// Every wall cell with an exposed face has a wall segment on its boundary: the
/// centre of the cell lies in the bounding box of that segment grown by half a
/// cell.
pub proof fn lemma_exposed_cell_is_covered(
    cells: Seq<Seq<bool>>,
    frame: Frame,
    height: int,
    thickness: int,
    x: int,
    y: int,
    face: Face,
)
    requires
        frame.cell_size > 0,
        exposed(cells, x, y, face),
    ensures
        exists|i: int|
            0 <= i < segments_of(cells, frame, height, thickness).len() && in_bounding_region(
                #[trigger] segments_of(cells, frame, height, thickness)[i],
                twice_centre(frame, x, y),
                frame.cell_size,
            ),
{
    let f = FaceAt { x, y, face };
    lemma_listed_iff_exposed(cells, f);
    let i = choose|i: int| 0 <= i < exposed_faces(cells).len() && exposed_faces(cells)[i] == f;
    lemma_segment_has_its_face(cells, frame, height, thickness, i);
    lemma_corner_steps(frame, x, y);
    let w = segments_of(cells, frame, height, thickness)[i];
    assert(w == wall_of_face(frame, f, height, thickness));
    assert(in_bounding_region(w, twice_centre(frame, x, y), frame.cell_size));
}

} // verus!
