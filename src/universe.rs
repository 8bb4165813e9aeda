//! The board as an executable value, and the operations that create,
//! change, advance and render it.
use vstd::prelude::*;
use vstd::arithmetic::div_mod::{lemma_fundamental_div_mod_converse, lemma_mod_add_multiples_vanish, lemma_small_mod};
use crate::board::{Board, glyph, initial_cell};
use crate::cell::{Cell, next_cell};

verus! {

/// A board of `width * height` cells on a torus.
pub struct Universe {
    width: u32,
    height: u32,
    cells: Vec<Cell>,
}

impl View for Universe {
    type V = Board;

    closed spec fn view(&self) -> Board {
        Board { width: self.width as nat, height: self.height as nat, cells: self.cells@ }
    }
}

impl Universe {
    #[verifier::type_invariant]
    spec fn well_formed(self) -> bool {
        self@.wf()
    }

    /// The linear index of `(row, column)`.
    fn get_index(&self, row: u32, column: u32) -> (r: usize)
        requires
            self@.contains(row as int, column as int),
        ensures
            r as int == self@.index(row as int, column as int),
            r < self@.cells.len(),
    {
        proof {
            use_type_invariant(self);
            lemma_index_bound(row as int, column as int, self.width as int, self.height as int);
        }
        (row * self.width + column) as usize
    }

    /// The number of live cells among the eight that surround
    /// `(row, column)`, the edges wrapping round to the opposite edges.
    fn live_neighbor_count(&self, row: u32, column: u32) -> (r: u8)
        requires
            self@.contains(row as int, column as int),
        ensures
            r as nat == self@.live_neighbors(row as int, column as int),
    {
        proof {
            use_type_invariant(self);
        }
        let height = self.height as u64;
        let width = self.width as u64;
        // `height - 1` and `width - 1` step back by one without going negative.
        let up = ((row as u64 + (height - 1)) % height) as u32;
        let down = ((row as u64 + 1) % height) as u32;
        let left = ((column as u64 + (width - 1)) % width) as u32;
        let right = ((column as u64 + 1) % width) as u32;
        proof {
            let b = self@;
            lemma_mod_add_multiples_vanish(row - 1, height as int);
            lemma_mod_add_multiples_vanish(column - 1, width as int);
            lemma_small_mod(row as nat, height as nat);
            lemma_small_mod(column as nat, width as nat);
            assert(up as int == (row - 1) % (b.height as int));
            assert(left as int == (column - 1) % (b.width as int));
        }
        let mut count: u8 = 0;
        count = count + self.cells[self.get_index(up, left)].as_u8();
        count = count + self.cells[self.get_index(up, column)].as_u8();
        count = count + self.cells[self.get_index(up, right)].as_u8();
        count = count + self.cells[self.get_index(row, left)].as_u8();
        count = count + self.cells[self.get_index(row, right)].as_u8();
        count = count + self.cells[self.get_index(down, left)].as_u8();
        count = count + self.cells[self.get_index(down, column)].as_u8();
        count = count + self.cells[self.get_index(down, right)].as_u8();
        count
    }

    /// Advances the board by one generation. Every cell's next state is
    /// computed from the current generation into a separate buffer, which
    /// then replaces the current one.
    pub fn tick(&mut self)
        ensures
            final(self)@.wf(),
            final(self)@ == old(self)@.next(),
    {
        proof {
            use_type_invariant(&*self);
        }
        let width = self.width;
        let height = self.height;
        let ghost current = self@;
        let mut next: Vec<Cell> = Vec::new();
        let mut row: u32 = 0;
        while row < height
            invariant
                self@ == current,
                current.wf(),
                width as nat == current.width,
                height as nat == current.height,
                row <= height,
                next@.len() == row * width,
                forall|i: int| 0 <= i < next@.len() ==> next@[i] == #[trigger] current.next().cells[i],
            decreases height - row,
        {
            let mut col: u32 = 0;
            while col < width
                invariant
                    self@ == current,
                    current.wf(),
                    width as nat == current.width,
                    height as nat == current.height,
                    row < height,
                    col <= width,
                    next@.len() == row * width + col,
                    forall|i: int| 0 <= i < next@.len() ==> next@[i] == #[trigger] current.next().cells[i],
                decreases width - col,
            {
                let idx = self.get_index(row, col);
                let cell = self.cells[idx];
                let live_neighbors = self.live_neighbor_count(row, col);
                proof {
                    lemma_fundamental_div_mod_converse(idx as int, width as int, row as int, col as int);
                }
                next.push(next_cell(cell, live_neighbors));
                col = col + 1;
            }
            proof {
                assert(row * width + width == (row + 1) * width) by (nonlinear_arith);
            }
            row = row + 1;
        }
        proof {
            assert(next@.len() == current.cells.len()) by (nonlinear_arith)
                requires
                    next@.len() == row * width,
                    row == height,
                    current.cells.len() == current.width * current.height,
                    width as nat == current.width,
                    height as nat == current.height,
            ;
            assert(next@ =~= current.next().cells);
        }
        self.cells = next;
    }

    /// Moves the buffer out, leaving an empty board behind until the
    /// caller puts a whole board back.
    fn take_cells(&mut self) -> (r: Vec<Cell>)
        ensures
            r@ == old(self)@.cells,
            old(self)@.wf(),
    {
        proof {
            use_type_invariant(&*self);
        }
        let mut taken = Universe { width: 0, height: 0, cells: Vec::new() };
        std::mem::swap(self, &mut taken);
        proof {
            use_type_invariant(&taken);
        }
        taken.cells
    }

    /// Makes alive the cell at each `(row, column)` pair of `cells`; the
    /// other cells keep their state. Every pair must lie on the board.
    pub fn set_cells(&mut self, cells: &[(u32, u32)])
        requires
            forall|k: int|
                0 <= k < cells@.len() ==> old(self)@.contains(
                    #[trigger] cells@[k].0 as int,
                    cells@[k].1 as int,
                ),
        ensures
            final(self)@.wf(),
            final(self)@ == old(self)@.with_alive(cells@),
    {
        proof {
            use_type_invariant(&*self);
        }
        let ghost start = self@;
        let width = self.width;
        let height = self.height;
        let mut buffer = self.take_cells();
        let mut j: usize = 0;
        while j < cells.len()
            invariant
                j <= cells@.len(),
                start.wf(),
                width as nat == start.width,
                height as nat == start.height,
                buffer@.len() == start.cells.len(),
                forall|k: int|
                    0 <= k < cells@.len() ==> start.contains(
                        #[trigger] cells@[k].0 as int,
                        cells@[k].1 as int,
                    ),
                forall|i: int|
                    0 <= i < start.cells.len() ==> #[trigger] buffer@[i] == if exists|k: int|
                        0 <= k < j && start.index(cells@[k].0 as int, cells@[k].1 as int) == i {
                        Cell::Alive
                    } else {
                        start.cells[i]
                    },
            decreases cells@.len() - j,
        {
            let (row, col) = cells[j];
            proof {
                lemma_index_bound(row as int, col as int, width as int, height as int);
            }
            let idx = (row * width + col) as usize;
            buffer.set(idx, Cell::Alive);
            proof {
                assert forall|i: int| 0 <= i < start.cells.len() implies #[trigger] buffer@[i]
                    == if exists|k: int|
                    0 <= k < j + 1 && start.index(cells@[k].0 as int, cells@[k].1 as int) == i {
                    Cell::Alive
                } else {
                    start.cells[i]
                } by {
                    if i == idx {
                        assert(start.index(cells@[j as int].0 as int, cells@[j as int].1 as int) == i);
                    } else if exists|k: int|
                        0 <= k < j + 1 && start.index(cells@[k].0 as int, cells@[k].1 as int) == i {
                        let k = choose|k: int|
                            0 <= k < j + 1 && start.index(cells@[k].0 as int, cells@[k].1 as int) == i;
                        assert(k != j);
                    }
                }
            }
            j = j + 1;
        }
        proof {
            assert(buffer@ =~= start.with_alive(cells@).cells);
        }
        *self = Universe { width, height, cells: buffer };
    }

    /// Flips the cell at `(row, column)` between dead and alive. The
    /// position must lie on the board.
    pub fn toggle_cell(&mut self, row: u32, column: u32)
        requires
            old(self)@.contains(row as int, column as int),
        ensures
            final(self)@.wf(),
            final(self)@ == old(self)@.with_toggled(row as int, column as int),
    {
        proof {
            use_type_invariant(&*self);
        }
        let idx = self.get_index(row, column);
        let width = self.width;
        let height = self.height;
        let mut buffer = self.take_cells();
        buffer[idx].toggle();
        *self = Universe { width, height, cells: buffer };
    }

    /// Makes every cell dead; the dimensions stay.
    pub fn reset(&mut self)
        ensures
            final(self)@.wf(),
            final(self)@ == Board::cleared(old(self)@.width, old(self)@.height),
    {
        proof {
            use_type_invariant(&*self);
        }
        self.cells = dead_cells(self.width * self.height);
    }

    /// Changes the number of columns to `width`, keeping the number of
    /// rows, and makes every cell dead.
    pub fn set_width(&mut self, width: u32)
        requires
            width * old(self)@.height <= u32::MAX,
        ensures
            final(self)@.wf(),
            final(self)@ == Board::cleared(width as nat, old(self)@.height),
    {
        let height = self.height;
        *self = Universe { width, height, cells: dead_cells(width * height) };
    }

    /// Changes the number of rows to `height`, keeping the number of
    /// columns, and makes every cell dead.
    pub fn set_height(&mut self, height: u32)
        requires
            old(self)@.width * height <= u32::MAX,
        ensures
            final(self)@.wf(),
            final(self)@ == Board::cleared(old(self)@.width, height as nat),
    {
        let width = self.width;
        *self = Universe { width, height, cells: dead_cells(width * height) };
    }

    /// Creates an `initial_width` by `initial_height` board whose cell at
    /// linear index `i` is alive exactly when `div_a` or `div_b` divides `i`.
    /// Both divisors must be non-zero, and the number of cells must fit in
    /// a `u32`.
    pub fn new(initial_width: u32, initial_height: u32, div_a: u32, div_b: u32) -> (r: Universe)
        requires
            div_a != 0,
            div_b != 0,
            initial_width * initial_height <= u32::MAX,
        ensures
            r@.wf(),
            r@ == Board::initial(initial_width as nat, initial_height as nat, div_a as int, div_b as int),
    {
        let width = initial_width;
        let height = initial_height;
        let n: u32 = width * height;
        let mut cells: Vec<Cell> = Vec::new();
        let mut i: u32 = 0;
        while i < n
            invariant
                i <= n,
                div_a != 0,
                div_b != 0,
                cells@.len() == i,
                forall|k: int| 0 <= k < i ==> cells@[k] == initial_cell(k, div_a as int, div_b as int),
            decreases n - i,
        {
            let c = if i % div_a == 0 || i % div_b == 0 {
                Cell::Alive
            } else {
                Cell::Dead
            };
            cells.push(c);
            i = i + 1;
        }
        let r = Universe { width, height, cells };
        assert(r@.cells =~= Board::initial(width as nat, height as nat, div_a as int, div_b as int).cells);
        r
    }

    /// The board as text: per row, three characters per cell (`" \u{25fc} "`
    /// alive, three spaces dead), then a newline.
    pub fn render(&self) -> (r: String)
        ensures
            r@ == self@.rendered(),
    {
        proof {
            use_type_invariant(self);
        }
        let alive = " \u{25fc} ";
        let dead = "   ";
        let newline = "\n";
        proof {
            reveal_strlit(" \u{25fc} ");
            reveal_strlit("   ");
            reveal_strlit("\n");
            assert(alive@ == glyph(Cell::Alive));
            assert(dead@ == glyph(Cell::Dead));
        }
        let mut text = String::new();
        let mut row: u32 = 0;
        while row < self.height
            invariant
                row <= self.height,
                self@.wf(),
                alive@ == glyph(Cell::Alive),
                dead@ == glyph(Cell::Dead),
                newline@ == seq!['\n'],
                text@ == self@.rows_text(row as nat),
            decreases self.height - row,
        {
            let mut col: u32 = 0;
            while col < self.width
                invariant
                    row < self.height,
                    col <= self.width,
                    self@.wf(),
                    alive@ == glyph(Cell::Alive),
                    dead@ == glyph(Cell::Dead),
                    text@ == self@.rows_text(row as nat) + self@.row_text(row as int, col as nat),
                decreases self.width - col,
            {
                let cell = self.cells[self.get_index(row, col)];
                if cell == Cell::Dead {
                    text.append(dead);
                } else {
                    text.append(alive);
                }
                col = col + 1;
                proof {
                    assert(text@ =~= self@.rows_text(row as nat) + self@.row_text(row as int, col as nat));
                }
            }
            text.append(newline);
            row = row + 1;
            proof {
                assert(text@ =~= self@.rows_text(row as nat));
            }
        }
        text
    }

    /// The number of columns.
    pub fn width(&self) -> (r: u32)
        ensures
            r as nat == self@.width,
    {
        self.width
    }

    /// The number of rows.
    pub fn height(&self) -> (r: u32)
        ensures
            r as nat == self@.height,
    {
        self.height
    }

    /// The cells, row by row.
    pub fn get_cells(&self) -> (r: &[Cell])
        ensures
            r@ == self@.cells,
            r@.len() == self@.width * self@.height,
    {
        proof {
            use_type_invariant(self);
        }
        self.cells.as_slice()
    }

    /// The cells, row by row, borrowed for as long as the board.
    pub fn cells(&self) -> (r: &[Cell])
        ensures
            r@ == self@.cells,
            r@.len() == self@.width * self@.height,
    {
        proof {
            use_type_invariant(self);
        }
        self.cells.as_slice()
    }
}

/// `n` dead cells.
fn dead_cells(n: u32) -> (r: Vec<Cell>)
    ensures
        r@ == Seq::new(n as nat, |_i: int| Cell::Dead),
{
    let mut cells: Vec<Cell> = Vec::new();
    let mut i: u32 = 0;
    while i < n
        invariant
            i <= n,
            cells@ == Seq::new(i as nat, |_i: int| Cell::Dead),
        decreases n - i,
    {
        cells.push(Cell::Dead);
        i = i + 1;
        proof {
            assert(cells@ =~= Seq::new(i as nat, |_i: int| Cell::Dead));
        }
    }
    cells
}

/// A position on a `width` by `height` board has a linear index below
/// `width * height`.
proof fn lemma_index_bound(row: int, col: int, width: int, height: int)
    requires
        0 <= row < height,
        0 <= col < width,
    ensures
        0 <= row * width + col < width * height,
{
    assert(0 <= row * width + col < width * height) by (nonlinear_arith)
        requires
            0 <= row < height,
            0 <= col < width,
    ;
}

} // verus!
