//! The mathematical model of a board: its dimensions and its cells in
//! row-major order, with the neighbourhood and the generation rule stated
//! over it.
use vstd::prelude::*;
use crate::cell::{Cell, next_state};

verus! {

/// A board as a mathematical value.
pub struct Board {
    pub width: nat,
    pub height: nat,
    /// Row-major: the cell at `(row, col)` is at `row * width + col`.
    pub cells: Seq<Cell>,
}

/// The state a board is created in: the cell at linear index `i` is alive
/// exactly when `i` is a multiple of `div_a` or of `div_b`.
pub open spec fn initial_cell(i: int, div_a: int, div_b: int) -> Cell {
    if i % div_a == 0 || i % div_b == 0 {
        Cell::Alive
    } else {
        Cell::Dead
    }
}

/// The three characters that show one cell: a filled square between two
/// spaces for a live cell, three spaces for a dead one.
pub open spec fn glyph(c: Cell) -> Seq<char> {
    match c {
        Cell::Alive => seq![' ', '\u{25fc}', ' '],
        Cell::Dead => seq![' ', ' ', ' '],
    }
}

impl Board {
    /// The buffer holds one cell per position, and every linear index fits
    /// in a `u32`.
    pub open spec fn wf(self) -> bool {
        &&& self.cells.len() == self.width * self.height
        &&& self.width * self.height <= u32::MAX
    }

    /// The linear index of `(row, col)`.
    pub open spec fn index(self, row: int, col: int) -> int {
        row * self.width + col
    }

    /// Whether `(row, col)` lies on the board.
    pub open spec fn contains(self, row: int, col: int) -> bool {
        0 <= row < self.height && 0 <= col < self.width
    }

    /// The cell at `(row, col)`, with both coordinates taken around the
    /// torus: row `-1` is the last row, column `width` the first column.
    pub open spec fn at(self, row: int, col: int) -> Cell {
        self.cells[self.index(row % (self.height as int), col % (self.width as int))]
    }

    /// The number of live cells among the eight that surround `(row, col)`
    /// on the torus.
    pub open spec fn live_neighbors(self, row: int, col: int) -> nat {
        self.at(row - 1, col - 1).weight() + self.at(row - 1, col).weight() + self.at(
            row - 1,
            col + 1,
        ).weight() + self.at(row, col - 1).weight() + self.at(row, col + 1).weight() + self.at(
            row + 1,
            col - 1,
        ).weight() + self.at(row + 1, col).weight() + self.at(row + 1, col + 1).weight()
    }

    /// The next generation: every cell follows the rule for its state and
    /// its live neighbours, all read from this generation.
    pub open spec fn next(self) -> Board {
        Board {
            width: self.width,
            height: self.height,
            cells: Seq::new(
                self.cells.len(),
                |i: int|
                    next_state(
                        self.cells[i],
                        self.live_neighbors(i / (self.width as int), i % (self.width as int)),
                    ),
            ),
        }
    }

    /// The first `n` cells of row `row`, each shown by its glyph.
    pub open spec fn row_text(self, row: int, n: nat) -> Seq<char>
        decreases n,
    {
        if n == 0 {
            Seq::empty()
        } else {
            self.row_text(row, (n - 1) as nat) + glyph(self.cells[self.index(row, n - 1)])
        }
    }

    /// The first `n` rows, each followed by a newline.
    pub open spec fn rows_text(self, n: nat) -> Seq<char>
        decreases n,
    {
        if n == 0 {
            Seq::empty()
        } else {
            self.rows_text((n - 1) as nat) + self.row_text(n - 1, self.width) + seq!['\n']
        }
    }

    /// The printable text of the board: one line per row.
    pub open spec fn rendered(self) -> Seq<char> {
        self.rows_text(self.height)
    }

    /// A board of the given dimensions with every cell dead.
    pub open spec fn cleared(width: nat, height: nat) -> Board {
        Board { width, height, cells: Seq::new(width * height, |_i: int| Cell::Dead) }
    }

    /// The board created from `width`, `height` and the two divisors.
    pub open spec fn initial(width: nat, height: nat, div_a: int, div_b: int) -> Board {
        Board {
            width,
            height,
            cells: Seq::new(width * height, |i: int| initial_cell(i, div_a, div_b)),
        }
    }

    /// This board with the cell at `(row, col)` flipped.
    pub open spec fn with_toggled(self, row: int, col: int) -> Board {
        Board {
            cells: self.cells.update(
                self.index(row, col),
                self.cells[self.index(row, col)].flipped(),
            ),
            ..self
        }
    }

    /// This board with the cell at each of `coords` made alive.
    pub open spec fn with_alive(self, coords: Seq<(u32, u32)>) -> Board {
        Board {
            cells: Seq::new(
                self.cells.len(),
                |i: int|
                    if exists|k: int|
                        0 <= k < coords.len() && self.index(coords[k].0 as int, coords[k].1 as int)
                            == i {
                        Cell::Alive
                    } else {
                        self.cells[i]
                    },
            ),
            ..self
        }
    }
}

} // verus!
