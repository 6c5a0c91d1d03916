use vstd::prelude::*;
use rayon::iter::{IntoParallelIterator, ParallelIterator};
use crate::board::{matrix_of, Board};
use crate::cell::Cell;

verus! {

/// The weight of position (`r`, `c`) of `g`: that of its cell when the
/// position lies inside the grid, 0 when it does not. The grid does not wrap.
pub open spec fn weight_at(g: Seq<Seq<Cell>>, r: int, c: int) -> int {
    if 0 <= r < g.len() && 0 <= c < g[r].len() {
        g[r][c].spec_weight() as int
    } else {
        0
    }
}

/// The number of live cells among the eight positions around (`r`, `c`).
pub open spec fn neighbor_count(g: Seq<Seq<Cell>>, r: int, c: int) -> int {
    weight_at(g, r - 1, c - 1) + weight_at(g, r - 1, c) + weight_at(g, r - 1, c + 1)
        + weight_at(g, r, c - 1) + weight_at(g, r, c + 1)
        + weight_at(g, r + 1, c - 1) + weight_at(g, r + 1, c) + weight_at(g, r + 1, c + 1)
}

/// The rule of the game: a dead cell with three live neighbors comes alive,
/// a live cell with two or three stays alive, every other cell is dead.
pub open spec fn next_state(cell: Cell, n: int) -> Cell {
    match cell {
        Cell::Dead => if n == 3 {
            Cell::Alive
        } else {
            Cell::Dead
        },
        Cell::Alive => if n == 2 || n == 3 {
            Cell::Alive
        } else {
            Cell::Dead
        },
    }
}

/// The generation that follows `g`: each cell is computed from `g` alone.
pub open spec fn next_generation(g: Seq<Seq<Cell>>) -> Seq<Seq<Cell>> {
    Seq::new(
        g.len(),
        |r: int| Seq::new(g[r].len(), |c: int| next_state(g[r][c], neighbor_count(g, r, c))),
    )
}

/// The weight of position (`r`, `c`), 0 outside the grid.
fn weight_of(view: &Vec<Vec<Cell>>, r: usize, c: usize) -> (n: usize)
    ensures
        n == weight_at(matrix_of(view@), r as int, c as int),
{
    if r < view.len() && c < view[r].len() {
        view[r][c].weight() as usize
    } else {
        0
    }
}

/// The number of live neighbors of the cell at row `h`, column `w`.
/// Positions outside the grid count as dead: a corner cell has three
/// neighbors, an edge cell five.
pub fn neighbors(view: &Vec<Vec<Cell>>, h: usize, w: usize) -> (n: usize)
    requires
        h < view@.len(),
        w < view@[h as int]@.len(),
    ensures
        n == neighbor_count(matrix_of(view@), h as int, w as int),
        n <= 8,
{
    let height = view.len();
    let width = view[h].len();
    assert(h + 1 <= height && w + 1 <= width);
    let mut n: usize = 0;
    if h > 0 {
        if w > 0 {
            n = n + weight_of(view, h - 1, w - 1);
        }
        n = n + weight_of(view, h - 1, w);
        n = n + weight_of(view, h - 1, w + 1);
    }
    if w > 0 {
        n = n + weight_of(view, h, w - 1);
        n = n + weight_of(view, h + 1, w - 1);
    }
    n = n + weight_of(view, h, w + 1);
    n = n + weight_of(view, h + 1, w);
    n = n + weight_of(view, h + 1, w + 1);
    n
}

/// The next state of `cell`, which has `n` live neighbors.
fn next_cell(cell: Cell, n: usize) -> (next: Cell)
    ensures
        next == next_state(cell, n as int),
{
    match cell {
        Cell::Dead => if n == 3 {
            Cell::Alive
        } else {
            Cell::Dead
        },
        Cell::Alive => if n == 2 || n == 3 {
            Cell::Alive
        } else {
            Cell::Dead
        },
    }
}

/// Row `h` of the generation that follows `view`.
fn next_row(view: &Vec<Vec<Cell>>, h: usize) -> (row: Vec<Cell>)
    requires
        h < view@.len(),
    ensures
        row@ == next_generation(matrix_of(view@))[h as int],
{
    let ghost g = matrix_of(view@);
    let width = view[h].len();
    let mut row: Vec<Cell> = Vec::with_capacity(width);
    let mut w: usize = 0;
    while w < width
        invariant
            g == matrix_of(view@),
            h < view@.len(),
            width == g[h as int].len(),
            w <= width,
            row@.len() == w,
            forall|c: int|
                0 <= c < w ==> #[trigger] row@[c] == next_state(g[h as int][c], neighbor_count(g, h as int, c)),
        decreases width - w,
    {
        let n = neighbors(view, h, w);
        row.push(next_cell(view[h][w], n));
        w = w + 1;
    }
    assert(row@ =~= next_generation(g)[h as int]);
    row
}

/// Relies on rayon's `into_par_iter`, `map` and `collect` over `0..n`: the
/// rows are computed in parallel and collected in index order, so the
/// vector holds row `h` at index `h`.
#[verifier::external_body]
fn next_rows(view: &Vec<Vec<Cell>>) -> (rows: Vec<Vec<Cell>>)
    ensures
        rows@.len() == view@.len(),
        forall|h: int|
            0 <= h < view@.len() ==> #[trigger] rows@[h]@ == next_generation(matrix_of(view@))[h],
{
    (0..view.len()).into_par_iter().map(|h| next_row(view, h)).collect()
}

/// Replaces the grid by its next generation. Every row is computed from the
/// unchanged prior generation, and the new rows are installed together.
pub fn next_step(board: &mut Board)
    ensures
        final(board)@ == next_generation(old(board)@),
        final(board).spec_width() == old(board).spec_width(),
        final(board).spec_height() == old(board).spec_height(),
        old(board).wf() ==> final(board).wf(),
{
    let next = next_rows(board.board());
    assert(matrix_of(next@) =~= next_generation(board@));
    *board.board_mut() = next;
}

/// A cell with all eight neighbors inside the grid and alive has eight live
/// neighbors.
pub proof fn lemma_full_neighborhood(g: Seq<Seq<Cell>>, r: int, c: int)
    requires
        forall|i: int, j: int|
            r - 1 <= i <= r + 1 && c - 1 <= j <= c + 1 && !(i == r && j == c) ==> 0 <= i < g.len()
                && 0 <= j < g[i].len() && #[trigger] g[i][j] == Cell::Alive,
    ensures
        neighbor_count(g, r, c) == 8,
{
    assert(g[r - 1][c - 1] == Cell::Alive);
    assert(g[r - 1][c] == Cell::Alive);
    assert(g[r - 1][c + 1] == Cell::Alive);
    assert(g[r][c - 1] == Cell::Alive);
    assert(g[r][c + 1] == Cell::Alive);
    assert(g[r + 1][c - 1] == Cell::Alive);
    assert(g[r + 1][c] == Cell::Alive);
    assert(g[r + 1][c + 1] == Cell::Alive);
}

/// The corner cell (0, 0) counts only its three neighbors inside the grid,
/// so at most 3; no position of the opposite edges is counted.
pub proof fn lemma_corner_neighbors(g: Seq<Seq<Cell>>)
    ensures
        neighbor_count(g, 0, 0) == weight_at(g, 0, 1) + weight_at(g, 1, 0) + weight_at(g, 1, 1),
        neighbor_count(g, 0, 0) <= 3,
{
}

/// The step is a function of the prior generation alone: two grids that
/// hold the same cells step to the same cells.
pub proof fn lemma_step_deterministic(a: Board, b: Board)
    requires
        a@ == b@,
    ensures
        next_generation(a@) == next_generation(b@),
{
}

/// The next state of a cell depends only on the prior state of that cell
/// and of its eight neighbors, never on any other cell, in particular not on
/// any cell of the new generation.
pub proof fn lemma_step_local(g1: Seq<Seq<Cell>>, g2: Seq<Seq<Cell>>, r: int, c: int)
    requires
        g1.len() == g2.len(),
        0 <= r < g1.len(),
        g1[r].len() == g2[r].len(),
        0 <= c < g1[r].len(),
        forall|i: int, j: int|
            r - 1 <= i <= r + 1 && c - 1 <= j <= c + 1 ==> #[trigger] weight_at(g1, i, j) == weight_at(
                g2,
                i,
                j,
            ),
        g1[r][c] == g2[r][c],
    ensures
        next_generation(g1)[r][c] == next_generation(g2)[r][c],
{
    assert(weight_at(g1, r - 1, c - 1) == weight_at(g2, r - 1, c - 1));
    assert(weight_at(g1, r - 1, c) == weight_at(g2, r - 1, c));
    assert(weight_at(g1, r - 1, c + 1) == weight_at(g2, r - 1, c + 1));
    assert(weight_at(g1, r, c - 1) == weight_at(g2, r, c - 1));
    assert(weight_at(g1, r, c + 1) == weight_at(g2, r, c + 1));
    assert(weight_at(g1, r + 1, c - 1) == weight_at(g2, r + 1, c - 1));
    assert(weight_at(g1, r + 1, c) == weight_at(g2, r + 1, c));
    assert(weight_at(g1, r + 1, c + 1) == weight_at(g2, r + 1, c + 1));
}

} // verus!
