//! One snapshot of a physical key matrix.
//!
//! A grid holds one boolean per (row, column) cell of a single matrix,
//! rebuilt from scratch on every scan.  The scanner drives each column
//! line in turn and samples every row line while it is active; the grid is
//! assembled here from those per-column row readings, so the pin work
//! stays outside the library.

use vstd::prelude::*;
use crate::coord::LOCAL_COLS;
use crate::coord::LOCAL_ROWS;

verus! {

/// Cells of one matrix, row-major.
pub const GRID_CELLS: u16 = 24;

/// A boolean snapshot of one matrix: true means the switch reads closed.
pub struct Grid {
    cells: Vec<bool>,
}

impl Grid {
    /// The cells as a row-major sequence of `GRID_CELLS` booleans.
    pub closed spec fn view(self) -> Seq<bool> {
        self.cells@
    }

    /// A grid always holds exactly one boolean per cell.
    pub open spec fn wf(self) -> bool {
        self@.len() == GRID_CELLS
    }

    /// The reading of cell (row, column).
    pub open spec fn pressed(self, row: int, col: int) -> bool
        recommends
            0 <= row < LOCAL_ROWS,
            0 <= col < LOCAL_COLS,
    {
        self@[row * (LOCAL_COLS as int) + col]
    }

    /// An all-released snapshot.
    pub fn new() -> (g: Grid)
        ensures
            g.wf(),
            forall|r: int, c: int| 0 <= r < LOCAL_ROWS && 0 <= c < LOCAL_COLS ==> !g.pressed(r, c),
    {
        let mut cells: Vec<bool> = Vec::new();
        let mut k: u16 = 0;
        while k < GRID_CELLS
            invariant
                k <= GRID_CELLS,
                cells@.len() == k,
                forall|i: int| 0 <= i < k ==> !cells@[i],
            decreases GRID_CELLS - k,
        {
            cells.push(false);
            k = k + 1;
        }
        Grid { cells }
    }

    /// Read one cell.
    pub fn get(&self, row: u8, col: u8) -> (b: bool)
        requires
            self.wf(),
            row < LOCAL_ROWS,
            col < LOCAL_COLS,
        ensures
            b == self.pressed(row as int, col as int),
    {
        self.cells[(row as usize) * 4 + (col as usize)]
    }

    /// Record one cell's reading.
    pub fn set(&mut self, row: u8, col: u8, value: bool)
        requires
            old(self).wf(),
            row < LOCAL_ROWS,
            col < LOCAL_COLS,
        ensures
            final(self).wf(),
            final(self).pressed(row as int, col as int) == value,
            forall|r: int, c: int|
                0 <= r < LOCAL_ROWS && 0 <= c < LOCAL_COLS && !(r == row && c == col)
                    ==> final(self).pressed(r, c) == old(self).pressed(r, c),
    {
        let idx: usize = (row as usize) * 4 + (col as usize);
        self.cells.set(idx, value);
        proof {
            assert forall|r: int, c: int|
                0 <= r < LOCAL_ROWS && 0 <= c < LOCAL_COLS && !(r == row && c == col)
                    implies self.pressed(r, c) == old(self).pressed(r, c) by {
                assert(r * 4 + c != row * 4 + col) by (nonlinear_arith)
                    requires
                        0 <= r < 6,
                        0 <= c < 4,
                        0 <= row < 6,
                        0 <= col < 4,
                        !(r == row && c == col),
                ;
            }
        }
    }

    /// Assemble a snapshot from per-column row readings: `readings[c][r]`
    /// is the level row `r` sampled at while column `c` was driven.
    pub fn assemble(readings: &Vec<Vec<bool>>) -> (g: Grid)
        requires
            readings@.len() == LOCAL_COLS,
            forall|c: int| 0 <= c < LOCAL_COLS ==> #[trigger] readings@[c]@.len() == LOCAL_ROWS,
        ensures
            g.wf(),
            forall|r: int, c: int|
                0 <= r < LOCAL_ROWS && 0 <= c < LOCAL_COLS
                    ==> #[trigger] g.pressed(r, c) == readings@[c]@[r],
    {
        let mut g = Grid::new();
        let mut c: u8 = 0;
        while c < LOCAL_COLS
            invariant
                c <= LOCAL_COLS,
                g.wf(),
                readings@.len() == LOCAL_COLS,
                forall|cc: int| 0 <= cc < LOCAL_COLS ==> #[trigger] readings@[cc]@.len() == LOCAL_ROWS,
                forall|r: int, cc: int|
                    0 <= r < LOCAL_ROWS && 0 <= cc < c
                        ==> #[trigger] g.pressed(r, cc) == readings@[cc]@[r],
            decreases LOCAL_COLS - c,
        {
            let column = &readings[c as usize];
            let mut r: u8 = 0;
            while r < LOCAL_ROWS
                invariant
                    r <= LOCAL_ROWS,
                    c < LOCAL_COLS,
                    g.wf(),
                    readings@.len() == LOCAL_COLS,
                    forall|cc: int| 0 <= cc < LOCAL_COLS ==> #[trigger] readings@[cc]@.len() == LOCAL_ROWS,
                    column@ == readings@[c as int]@,
                    forall|rr: int, cc: int|
                        0 <= rr < LOCAL_ROWS && 0 <= cc < c
                            ==> #[trigger] g.pressed(rr, cc) == readings@[cc]@[rr],
                    forall|rr: int| 0 <= rr < r ==> #[trigger] g.pressed(rr, c as int) == readings@[c as int]@[rr],
                decreases LOCAL_ROWS - r,
            {
                g.set(r, c, column[r as usize]);
                r = r + 1;
            }
            c = c + 1;
        }
        g
    }

    /// Read one cell by its row-major index.
    pub fn get_cell(&self, k: u16) -> (b: bool)
        requires
            self.wf(),
            k < GRID_CELLS,
        ensures
            b == self@[k as int],
    {
        self.cells[k as usize]
    }

    /// How many cells read closed.
    pub fn count_pressed(&self) -> (n: u16)
        requires
            self.wf(),
        ensures
            n == count_pressed_upto(*self, GRID_CELLS as int),
            n <= GRID_CELLS,
    {
        let mut n: u16 = 0;
        let mut k: u16 = 0;
        while k < GRID_CELLS
            invariant
                self.wf(),
                k <= GRID_CELLS,
                n == count_pressed_upto(*self, k as int),
                n <= k,
            decreases GRID_CELLS - k,
        {
            if self.cells[k as usize] {
                n = n + 1;
            }
            k = k + 1;
        }
        n
    }
}

/// Row of the switch that commands firmware-update entry at power-up.
pub const BOOT_GESTURE_ROW: u8 = 1;

/// Column of the switch that commands firmware-update entry at power-up.
pub const BOOT_GESTURE_COL: u8 = 1;

/// Whether a power-up snapshot commands entry into firmware-update mode:
/// exactly one switch reads closed, and it is the designated one.  A
/// snapshot with the designated switch plus any other closed switch does
/// not qualify.
pub fn is_boot_gesture(g: &Grid) -> (b: bool)
    requires
        g.wf(),
    ensures
        b <==> (count_pressed_upto(*g, GRID_CELLS as int) == 1
            && g.pressed(BOOT_GESTURE_ROW as int, BOOT_GESTURE_COL as int)),
{
    g.count_pressed() == 1 && g.get(BOOT_GESTURE_ROW, BOOT_GESTURE_COL)
}

/// How many of the first `n` cells (row-major) read closed.
pub open spec fn count_pressed_upto(g: Grid, n: int) -> int
    decreases n,
{
    if n <= 0 {
        0
    } else {
        count_pressed_upto(g, n - 1) + if g@[n - 1] { 1int } else { 0int }
    }
}

} // verus!
