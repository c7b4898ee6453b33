//! The occupancy grid: a rectangle of cells, each free or wall.

use vstd::prelude::*;

verus! {

/// The byte of a free cell.
pub const FREE: u8 = 0;

/// The byte of a wall cell.
pub const WALL: u8 = 1;

/// Most cells that a grid may have along one side.
pub const MAX_CELLS: usize = 4096;

/// Whether every row is as long as the first.
pub open spec fn rectangular(cells: Seq<Seq<bool>>) -> bool {
    forall|y: int| 0 <= y < cells.len() ==> (#[trigger] cells[y]).len() == cells[0].len()
}

pub open spec fn grid_height(cells: Seq<Seq<bool>>) -> int {
    cells.len() as int
}

pub open spec fn grid_width(cells: Seq<Seq<bool>>) -> int {
    if cells.len() == 0 {
        0
    } else {
        cells[0].len() as int
    }
}

pub open spec fn in_bounds(cells: Seq<Seq<bool>>, x: int, y: int) -> bool {
    0 <= y < grid_height(cells) && 0 <= x < grid_width(cells)
}

/// Whether cell `(x, y)` is a wall. Outside the grid nothing is.
pub open spec fn wall_at(cells: Seq<Seq<bool>>, x: int, y: int) -> bool {
    in_bounds(cells, x, y) && cells[y][x]
}

/// The cells that rows of bytes denote: a cell is a wall where its byte is `WALL`.
pub open spec fn cells_of(rows: Seq<Vec<u8>>) -> Seq<Seq<bool>> {
    Seq::new(rows.len(), |y: int| Seq::new(rows[y]@.len(), |x: int| rows[y]@[x] == WALL))
}

pub open spec fn cell_byte(b: u8) -> bool {
    b == FREE || b == WALL
}

/// Whether rows of bytes make a grid: a rectangle of `FREE` and `WALL`, at most
/// `MAX_CELLS` along each side.
pub open spec fn grid_rows(rows: Seq<Vec<u8>>) -> bool {
    &&& rows.len() <= MAX_CELLS
    &&& forall|y: int|
        0 <= y < rows.len() ==> {
            &&& (#[trigger] rows[y])@.len() == rows[0]@.len()
            &&& rows[y]@.len() <= MAX_CELLS
        }
    &&& forall|y: int, x: int|
        0 <= y < rows.len() && 0 <= x < rows[y]@.len() ==> cell_byte(#[trigger] rows[y]@[x])
}

/// The width of the default map, in cells.
pub const DEFAULT_WIDTH: usize = 20;

/// The height of the default map, in cells.
pub const DEFAULT_HEIGHT: usize = 15;

/// Whether cell `(x, y)` of the default map is a wall. The map has a wall all
/// round, a wall across the middle from column 5 to column 14 of row 7, and a
/// wall down from it in column 10 as far as row 11.
pub open spec fn default_wall(x: int, y: int) -> bool {
    ||| x == 0
    ||| y == 0
    ||| x == DEFAULT_WIDTH - 1
    ||| y == DEFAULT_HEIGHT - 1
    ||| y == 7 && 5 <= x <= 14
    ||| x == 10 && 7 <= y <= 11
}

/// The cells of the default map.
pub open spec fn default_cells() -> Seq<Seq<bool>> {
    Seq::new(DEFAULT_HEIGHT as nat, |y: int| Seq::new(DEFAULT_WIDTH as nat, |x: int| default_wall(x, y)))
}

/// An occupancy grid. Row 0 is the northern edge, column 0 the western.
pub struct Grid {
    rows: Vec<Vec<u8>>,
}

impl View for Grid {
    type V = Seq<Seq<bool>>;

    closed spec fn view(&self) -> Seq<Seq<bool>> {
        cells_of(self.rows@)
    }
}

impl Grid {
    #[verifier::type_invariant]
    spec fn inv(&self) -> bool {
        grid_rows(self.rows@)
    }

    /// The grid that `rows` hold, if they make one.
    pub fn from_rows(rows: Vec<Vec<u8>>) -> (out: Option<Grid>)
        ensures
            out is Some <==> grid_rows(rows@),
            out matches Some(g) ==> g@ == cells_of(rows@) && rectangular(g@),
    {
        let height = rows.len();
        if height > MAX_CELLS {
            return None;
        }
        if height == 0 {
            return Some(Grid { rows });
        }
        let width = rows[0].len();
        if width > MAX_CELLS {
            return None;
        }
        let mut y: usize = 0;
        while y < height
            invariant
                height == rows@.len(),
                0 < height <= MAX_CELLS,
                width == rows@[0]@.len(),
                width <= MAX_CELLS,
                y <= height,
                forall|j: int| 0 <= j < y ==> (#[trigger] rows@[j])@.len() == width,
                forall|j: int, i: int|
                    0 <= j < y && 0 <= i < rows@[j]@.len() ==> cell_byte(#[trigger] rows@[j]@[i]),
            decreases height - y,
        {
            if rows[y].len() != width {
                return None;
            }
            let mut x: usize = 0;
            while x < width
                invariant
                    y < height,
                    height == rows@.len(),
                    width == rows@[y as int]@.len(),
                    x <= width,
                    forall|i: int| 0 <= i < x ==> cell_byte(#[trigger] rows@[y as int]@[i]),
                decreases width - x,
            {
                let b = rows[y][x];
                if b != FREE && b != WALL {
                    assert(!cell_byte(rows@[y as int]@[x as int]));
                    return None;
                }
                x += 1;
            }
            y += 1;
        }
        Some(Grid { rows })
    }

    /// The number of rows.
    pub fn height(&self) -> (out: usize)
        ensures
            out == grid_height(self@),
            out <= MAX_CELLS,
            rectangular(self@),
    {
        proof {
            use_type_invariant(self);
        }
        self.rows.len()
    }

    /// The number of columns.
    pub fn width(&self) -> (out: usize)
        ensures
            out == grid_width(self@),
            out <= MAX_CELLS,
            rectangular(self@),
    {
        proof {
            use_type_invariant(self);
        }
        if self.rows.len() == 0 {
            0
        } else {
            self.rows[0].len()
        }
    }

    /// Whether cell `(x, y)` is a wall; outside the grid nothing is.
    pub fn is_wall(&self, x: usize, y: usize) -> (out: bool)
        ensures
            out == wall_at(self@, x as int, y as int),
    {
        proof {
            use_type_invariant(self);
        }
        if y < self.rows.len() && x < self.rows[y].len() {
            self.rows[y][x] == WALL
        } else {
            false
        }
    }

    /// The byte of cell `(x, y)`: `WALL` or `FREE`, and `FREE` outside the grid.
    pub fn cell(&self, x: usize, y: usize) -> (out: u8)
        ensures
            out == if wall_at(self@, x as int, y as int) { WALL } else { FREE },
    {
        if self.is_wall(x, y) {
            WALL
        } else {
            FREE
        }
    }
}

/// The default map.
pub fn create_default_map() -> (out: Grid)
    ensures
        out@ == default_cells(),
        rectangular(out@),
        grid_width(out@) == DEFAULT_WIDTH,
        grid_height(out@) == DEFAULT_HEIGHT,
{
    let mut rows: Vec<Vec<u8>> = Vec::new();
    let mut y: usize = 0;
    while y < DEFAULT_HEIGHT
        invariant
            y <= DEFAULT_HEIGHT,
            rows@.len() == y,
            forall|j: int| 0 <= j < y ==> (#[trigger] rows@[j])@.len() == DEFAULT_WIDTH,
            forall|j: int, i: int|
                0 <= j < y && 0 <= i < DEFAULT_WIDTH ==> #[trigger] rows@[j]@[i] == (if default_wall(
                    i,
                    j,
                ) {
                    WALL
                } else {
                    FREE
                }),
        decreases DEFAULT_HEIGHT - y,
    {
        let mut row: Vec<u8> = Vec::new();
        let mut x: usize = 0;
        while x < DEFAULT_WIDTH
            invariant
                y < DEFAULT_HEIGHT,
                x <= DEFAULT_WIDTH,
                row@.len() == x,
                forall|i: int|
                    0 <= i < x ==> #[trigger] row@[i] == (if default_wall(i, y as int) {
                        WALL
                    } else {
                        FREE
                    }),
            decreases DEFAULT_WIDTH - x,
        {
            let wall = x == 0 || y == 0 || x == DEFAULT_WIDTH - 1 || y == DEFAULT_HEIGHT - 1 || (y
                == 7 && 5 <= x && x <= 14) || (x == 10 && 7 <= y && y <= 11);
            row.push(if wall {
                WALL
            } else {
                FREE
            });
            x += 1;
        }
        rows.push(row);
        y += 1;
    }
    proof {
        assert(grid_rows(rows@));
        assert(cells_of(rows@) =~~= default_cells());
    }
    Grid { rows }
}

} // verus!
