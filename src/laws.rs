//! Properties of the model that hold across operations.
use vstd::prelude::*;
use vstd::arithmetic::div_mod::{lemma_fundamental_div_mod, lemma_fundamental_div_mod_converse, lemma_mod_add_multiples_vanish, lemma_small_mod};
use crate::board::Board;
use crate::cell::{Cell, lemma_flip_twice, next_state};

verus! {

/// The row or column before `x` on a torus of `n` positions.
pub open spec fn before(x: int, n: int) -> int {
    if x == 0 {
        n - 1
    } else {
        x - 1
    }
}

/// The row or column after `x` on a torus of `n` positions.
pub open spec fn after(x: int, n: int) -> int {
    if x == n - 1 {
        0
    } else {
        x + 1
    }
}

/// Wrap-around: the neighbours of a cell on an edge are on the opposite
/// edge. The row before row 0 is the last row, the row after the last is
/// row 0, and the same for columns; so the neighbours of `(0, 0)` include
/// `(height - 1, width - 1)`.
pub proof fn lemma_neighbors_wrap(b: Board, row: int, col: int)
    requires
        b.wf(),
        b.contains(row, col),
    ensures
        ({
            let (h, w) = (b.height as int, b.width as int);
            let (up, down) = (before(row, h), after(row, h));
            let (left, right) = (before(col, w), after(col, w));
            &&& b.contains(up, left) && b.contains(down, right)
            &&& b.live_neighbors(row, col) == b.cells[b.index(up, left)].weight()
                + b.cells[b.index(up, col)].weight() + b.cells[b.index(up, right)].weight()
                + b.cells[b.index(row, left)].weight() + b.cells[b.index(row, right)].weight()
                + b.cells[b.index(down, left)].weight() + b.cells[b.index(down, col)].weight()
                + b.cells[b.index(down, right)].weight()
        }),
        row == 0 && col == 0 ==> b.at(row - 1, col - 1) == b.cells[b.index(
            b.height - 1,
            b.width - 1,
        )],
{
    let (h, w) = (b.height as int, b.width as int);
    lemma_wrap_one(row, h);
    lemma_wrap_one(col, w);
}

/// On a torus of `n` positions, `x - 1`, `x` and `x + 1` taken modulo `n`
/// are the position before `x`, `x` itself and the position after it.
proof fn lemma_wrap_one(x: int, n: int)
    requires
        0 <= x < n,
    ensures
        (x - 1) % n == before(x, n),
        x % n == x,
        (x + 1) % n == after(x, n),
{
    lemma_small_mod(x as nat, n as nat);
    if x == 0 {
        lemma_mod_add_multiples_vanish(-1, n);
        lemma_small_mod((n - 1) as nat, n as nat);
    } else {
        lemma_small_mod((x - 1) as nat, n as nat);
    }
    if x == n - 1 {
        lemma_mod_add_multiples_vanish(0, n);
        lemma_small_mod(0, n as nat);
    } else {
        lemma_small_mod((x + 1) as nat, n as nat);
    }
}

/// One generation: the cell at each position of the next board is the
/// rule applied to that position's cell and live neighbours on this board.
pub proof fn lemma_next_at(b: Board, row: int, col: int)
    requires
        b.wf(),
        b.contains(row, col),
    ensures
        b.next().wf(),
        b.next().cells[b.index(row, col)] == next_state(
            b.cells[b.index(row, col)],
            b.live_neighbors(row, col),
        ),
{
    lemma_position_index(b, row, col);
    lemma_fundamental_div_mod_converse(b.index(row, col), b.width as int, row, col);
}

/// A position on the board has a linear index inside the buffer.
proof fn lemma_position_index(b: Board, row: int, col: int)
    requires
        b.wf(),
        b.contains(row, col),
    ensures
        0 <= b.index(row, col) < b.cells.len(),
{
    let (h, w) = (b.height as int, b.width as int);
    assert(0 <= row * w + col < w * h) by (nonlinear_arith)
        requires
            0 <= row < h,
            0 <= col < w,
    ;
}

/// Toggling the same cell twice gives back the board.
pub proof fn lemma_toggle_twice(b: Board, row: int, col: int)
    requires
        b.wf(),
        b.contains(row, col),
    ensures
        b.with_toggled(row, col).with_toggled(row, col) == b,
{
    lemma_position_index(b, row, col);
    let i = b.index(row, col);
    lemma_flip_twice(b.cells[i]);
    assert(b.with_toggled(row, col).with_toggled(row, col).cells =~= b.cells);
}

/// Whether `(row, col)` is one of the four positions of the two-by-two
/// block whose top-left corner is `(r, c)`, the block wrapping round the
/// edges of the torus like everything else.
pub open spec fn in_block(b: Board, r: int, c: int, row: int, col: int) -> bool {
    &&& (row == r || row == after(r, b.height as int))
    &&& (col == c || col == after(c, b.width as int))
}

/// Whether the live cells of `b` are exactly the two-by-two block whose
/// top-left corner is `(r, c)`.
pub open spec fn is_lone_block(b: Board, r: int, c: int) -> bool {
    forall|row: int, col: int|
        b.contains(row, col) ==> #[trigger] b.cells[b.index(row, col)] == if in_block(
            b, r, c, row, col,
        ) {
            Cell::Alive
        } else {
            Cell::Dead
        }
}

/// Still life: a two-by-two block alone on a board of at least four rows
/// and four columns is a fixed point of the generation rule, so any number
/// of generations leaves it as it is.
pub proof fn lemma_block_still_life(b: Board, r: int, c: int)
    requires
        b.wf(),
        b.height >= 4,
        b.width >= 4,
        b.contains(r, c),
        is_lone_block(b, r, c),
    ensures
        b.next() == b,
{
    let w = b.width as int;
    let h = b.height as int;
    assert forall|i: int| 0 <= i < b.cells.len() implies #[trigger] b.next().cells[i] == b.cells[i] by {
        lemma_fundamental_div_mod(i, w);
        let row = i / w;
        let col = i % w;
        assert(0 <= row < h && 0 <= col < w) by (nonlinear_arith)
            requires
                i == w * row + col,
                0 <= col < w,
                0 <= i < w * h,
        ;
        lemma_block_cell(b, r, c, row, col);
    }
    assert(b.next().cells =~= b.cells);
}

/// The cell at `(row, col)` of a lone block's board keeps its state.
proof fn lemma_block_cell(b: Board, r: int, c: int, row: int, col: int)
    requires
        b.wf(),
        b.height >= 4,
        b.width >= 4,
        b.contains(r, c),
        b.contains(row, col),
        is_lone_block(b, r, c),
    ensures
        b.next().cells[b.index(row, col)] == b.cells[b.index(row, col)],
{
    let w = b.width as int;
    let h = b.height as int;
    lemma_next_at(b, row, col);
    lemma_neighbors_wrap(b, row, col);
    let (up, down) = (before(row, h), after(row, h));
    let (left, right) = (before(col, w), after(col, w));
    assert(b.contains(up, col) && b.contains(row, left) && b.contains(row, right) && b.contains(down, col));
    let _ = b.cells[b.index(up, left)];
    let _ = b.cells[b.index(up, col)];
    let _ = b.cells[b.index(up, right)];
    let _ = b.cells[b.index(row, left)];
    let _ = b.cells[b.index(row, col)];
    let _ = b.cells[b.index(row, right)];
    let _ = b.cells[b.index(down, left)];
    let _ = b.cells[b.index(down, col)];
    let _ = b.cells[b.index(down, right)];
}

/// Whether `(row, col)` is one of the three cells of the line centred on
/// `(r, c)`: along row `r` when `horizontal`, else along column `c`.
pub open spec fn in_line(b: Board, r: int, c: int, horizontal: bool, row: int, col: int) -> bool {
    let (h, w) = (b.height as int, b.width as int);
    if horizontal {
        row == r && (col == before(c, w) || col == c || col == after(c, w))
    } else {
        col == c && (row == before(r, h) || row == r || row == after(r, h))
    }
}

/// Whether the live cells of `b` are exactly the line of three centred on
/// `(r, c)`, horizontal or vertical.
pub open spec fn is_lone_line(b: Board, r: int, c: int, horizontal: bool) -> bool {
    forall|row: int, col: int|
        b.contains(row, col) ==> #[trigger] b.cells[b.index(row, col)] == if in_line(
            b, r, c, horizontal, row, col,
        ) {
            Cell::Alive
        } else {
            Cell::Dead
        }
}

/// The blinker: on a board of at least five rows and five columns, a lone
/// line of three live cells turns a quarter turn about its centre in each
/// generation, so that two generations give back the first board.
pub proof fn lemma_blinker(b: Board, r: int, c: int, horizontal: bool)
    requires
        b.wf(),
        b.height >= 5,
        b.width >= 5,
        b.contains(r, c),
        is_lone_line(b, r, c, horizontal),
    ensures
        b.next().wf(),
        is_lone_line(b.next(), r, c, !horizontal),
        b.next().next() == b,
{
    lemma_line_turns(b, r, c, horizontal);
    let n = b.next();
    lemma_line_turns(n, r, c, !horizontal);
    let nn = n.next();
    let w = b.width as int;
    let h = b.height as int;
    assert forall|i: int| 0 <= i < b.cells.len() implies #[trigger] nn.cells[i] == b.cells[i] by {
        lemma_fundamental_div_mod(i, w);
        let row = i / w;
        let col = i % w;
        assert(0 <= row < h && 0 <= col < w && row * w + col == i) by (nonlinear_arith)
            requires
                i == w * row + col,
                0 <= col < w,
                0 <= i < w * h,
        ;
        assert(nn.cells[nn.index(row, col)] == b.cells[b.index(row, col)]);
    }
    assert(nn.cells =~= b.cells);
}

/// A lone line of three turns a quarter turn in one generation.
proof fn lemma_line_turns(b: Board, r: int, c: int, horizontal: bool)
    requires
        b.wf(),
        b.height >= 5,
        b.width >= 5,
        b.contains(r, c),
        is_lone_line(b, r, c, horizontal),
    ensures
        b.next().wf(),
        is_lone_line(b.next(), r, c, !horizontal),
{
    lemma_next_at(b, r, c);
    assert forall|row: int, col: int| b.next().contains(row, col) implies #[trigger] b.next().cells[b.next().index(row, col)]
        == if in_line(b.next(), r, c, !horizontal, row, col) {
        Cell::Alive
    } else {
        Cell::Dead
    } by {
        lemma_line_cell(b, r, c, horizontal, row, col);
    }
}

/// The next state of one cell of a lone line's board.
proof fn lemma_line_cell(b: Board, r: int, c: int, horizontal: bool, row: int, col: int)
    requires
        b.wf(),
        b.height >= 5,
        b.width >= 5,
        b.contains(r, c),
        b.contains(row, col),
        is_lone_line(b, r, c, horizontal),
    ensures
        b.next().cells[b.index(row, col)] == if in_line(b, r, c, !horizontal, row, col) {
            Cell::Alive
        } else {
            Cell::Dead
        },
{
    let w = b.width as int;
    let h = b.height as int;
    lemma_next_at(b, row, col);
    lemma_neighbors_wrap(b, row, col);
    lemma_wrap_one(r, h);
    lemma_wrap_one(c, w);
    let (up, down) = (before(row, h), after(row, h));
    let (left, right) = (before(col, w), after(col, w));
    assert(b.contains(up, col) && b.contains(row, left) && b.contains(row, right) && b.contains(down, col));
    let _ = b.cells[b.index(up, left)];
    let _ = b.cells[b.index(up, col)];
    let _ = b.cells[b.index(up, right)];
    let _ = b.cells[b.index(row, left)];
    let _ = b.cells[b.index(row, col)];
    let _ = b.cells[b.index(row, right)];
    let _ = b.cells[b.index(down, left)];
    let _ = b.cells[b.index(down, col)];
    let _ = b.cells[b.index(down, right)];
}

} // verus!
