//! The bordered playing field.
use vstd::prelude::*;

verus! {

/// Columns of the field.
pub const WIDTH: u16 = 60;

/// Rows of the field.
pub const HEIGHT: u16 = 20;

/// The character of a border cell.
pub const WALL: char = '#';

/// The character of an interior cell.
pub const BLANK: char = ' ';

/// The field: `WIDTH * HEIGHT` characters, row after row.
pub struct Field {
    pub cells: Vec<char>,
}

/// Whether the cell in 0-indexed `row` and `col` lies on the border.
pub open spec fn is_border(row: int, col: int) -> bool {
    row == 0 || row == HEIGHT - 1 || col == 0 || col == WIDTH - 1
}

/// The character that the field holds at flat index `k`.
pub open spec fn cell_at(k: int) -> char {
    if is_border(k / (WIDTH as int), k % (WIDTH as int)) {
        WALL
    } else {
        BLANK
    }
}

/// Whether the 1-indexed position (`x`, `y`) is no interior cell: it lies on
/// the border or off the field.
pub open spec fn hits_wall(x: int, y: int) -> bool {
    x <= 1 || x >= WIDTH || y <= 1 || y >= HEIGHT
}

/// Whether the 1-indexed position (`x`, `y`) lies on the field.
pub open spec fn on_field(x: int, y: int) -> bool {
    1 <= x <= WIDTH && 1 <= y <= HEIGHT
}

impl Field {
    /// The field holds walls on its border and blanks inside.
    pub open spec fn wf(self) -> bool {
        &&& self.cells@.len() == WIDTH * HEIGHT
        &&& forall|k: int| 0 <= k < self.cells@.len() ==> self.cells@[k] == cell_at(k)
    }

    /// Whether the field holds walls on its border and blanks inside.
    pub fn is_built(&self) -> (built: bool)
        ensures
            built == self.wf(),
    {
        let (width, height): (usize, usize) = (WIDTH as usize, HEIGHT as usize);
        if self.cells.len() != width * height {
            return false;
        }
        let mut k: usize = 0;
        while k < width * height
            invariant
                k <= width * height,
                width == WIDTH,
                height == HEIGHT,
                self.cells@.len() == width * height,
                forall|j: int| 0 <= j < k ==> self.cells@[j] == cell_at(j),
            decreases width * height - k,
        {
            let (row, col): (usize, usize) = (k / width, k % width);
            let border = row == 0 || row == height - 1 || col == 0 || col == width - 1;
            if self.cells[k] != (if border { WALL } else { BLANK }) {
                assert(self.cells@[k as int] != cell_at(k as int));
                return false;
            }
            k += 1;
        }
        true
    }

    /// The character in 0-indexed `row` and `col`.
    pub fn cell(&self, row: u16, col: u16) -> (c: char)
        requires
            self.wf(),
            row < HEIGHT,
            col < WIDTH,
        ensures
            c == (if is_border(row as int, col as int) { WALL } else { BLANK }),
    {
        let width: usize = WIDTH as usize;
        assert(row * width <= (HEIGHT - 1) * width) by (nonlinear_arith)
            requires
                row <= HEIGHT - 1,
        ;
        let k: usize = row as usize * width + col as usize;
        assert(k as int / 60 == row as int && k as int % 60 == col as int);
        assert(self.cells@[k as int] == cell_at(k as int));
        self.cells[k]
    }

    /// Whether the 1-indexed position (`x`, `y`) is a wall: a border cell of the
    /// field, or any position off it.
    pub fn is_wall(&self, x: u16, y: u16) -> (wall: bool)
        requires
            self.wf(),
        ensures
            wall == hits_wall(x as int, y as int),
    {
        if x < 1 || x > WIDTH || y < 1 || y > HEIGHT {
            true
        } else {
            self.cell(y - 1, x - 1) == WALL
        }
    }
}

/// Builds the field: walls on the border, blanks inside.
pub fn init_array() -> (field: Field)
    ensures
        field.wf(),
{
    let mut cells: Vec<char> = Vec::new();
    let mut row: u16 = 0;
    while row < HEIGHT
        invariant
            row <= HEIGHT,
            cells@.len() == row * WIDTH,
            forall|k: int| 0 <= k < cells@.len() ==> cells@[k] == cell_at(k),
        decreases HEIGHT - row,
    {
        let mut col: u16 = 0;
        while col < WIDTH
            invariant
                row < HEIGHT,
                col <= WIDTH,
                cells@.len() == row * WIDTH + col,
                forall|k: int| 0 <= k < cells@.len() ==> cells@[k] == cell_at(k),
            decreases WIDTH - col,
        {
            let border = row == 0 || row == HEIGHT - 1 || col == 0 || col == WIDTH - 1;
            cells.push(if border { WALL } else { BLANK });
            col += 1;
        }
        row += 1;
    }
    Field { cells }
}

} // verus!
