use vstd::prelude::*;
use crate::cell::Cell;
use crate::random::{below, new_rng};

verus! {

/// The rows of a matrix of cells, each row read as a sequence.
pub open spec fn matrix_of(rows: Seq<Vec<Cell>>) -> Seq<Seq<Cell>> {
    rows.map_values(|row: Vec<Cell>| row@)
}

/// Whether every row of `m` has `width` cells.
pub open spec fn is_rectangular(m: Seq<Seq<Cell>>, width: int) -> bool {
    forall|r: int| 0 <= r < m.len() ==> #[trigger] m[r].len() == width
}

/// Whether one of `positions`, read as (row, column), is (`r`, `c`).
pub open spec fn picked(positions: Seq<(usize, usize)>, r: int, c: int) -> bool {
    exists|j: int|
        0 <= j < positions.len() && #[trigger] positions[j] == (r as usize, c as usize)
}

/// The positions of the live cells of `g`.
pub open spec fn live_cells(g: Seq<Seq<Cell>>) -> Set<(int, int)> {
    Set::new(
        |p: (int, int)| 0 <= p.0 < g.len() && 0 <= p.1 < g[p.0].len() && g[p.0][p.1] == Cell::Alive,
    )
}

/// The number of cells in `g`, summed row by row.
pub open spec fn cell_count(g: Seq<Seq<Cell>>) -> nat
    decreases g.len(),
{
    if g.len() == 0 {
        0
    } else {
        cell_count(g.drop_last()) + g.last().len()
    }
}

proof fn lemma_rectangular_count(g: Seq<Seq<Cell>>, width: nat)
    requires
        is_rectangular(g, width as int),
    ensures
        cell_count(g) == width * g.len(),
    decreases g.len(),
{
    if g.len() > 0 {
        let rest = g.drop_last();
        assert(is_rectangular(rest, width as int)) by {
            assert forall|r: int| 0 <= r < rest.len() implies #[trigger] rest[r].len() == width by {
                assert(rest[r] == g[r]);
            }
        }
        lemma_rectangular_count(rest, width);
        assert(g.last().len() == width);
        assert(width * rest.len() + width == width * g.len()) by (nonlinear_arith)
            requires
                rest.len() + 1 == g.len(),
        ;
    }
}

/// A well-formed grid holds exactly `width * height` cells, and every
/// position with a row below `height` and a column below `width` holds one
/// of the two cell values.
pub proof fn lemma_cell_count(b: Board)
    requires
        b.wf(),
    ensures
        cell_count(b@) == b.spec_width() * b.spec_height(),
        forall|r: int, c: int|
            0 <= r < b.spec_height() && 0 <= c < b.spec_width() ==> c < b@[r].len() && (#[trigger] b@[r][c]
                == Cell::Alive || b@[r][c] == Cell::Dead),
{
    lemma_rectangular_count(b@, b.spec_width() as nat);
}

/// A grid of `height` rows of `width` cells, stored row by row.
pub struct Board {
    width: usize,
    height: usize,
    board: Vec<Vec<Cell>>,
}

impl View for Board {
    type V = Seq<Seq<Cell>>;

    closed spec fn view(&self) -> Seq<Seq<Cell>> {
        matrix_of(self.board@)
    }
}

impl Board {
    pub closed spec fn spec_width(&self) -> usize {
        self.width
    }

    pub closed spec fn spec_height(&self) -> usize {
        self.height
    }

    /// The grid invariant: `height` rows, each of `width` cells.
    pub open spec fn wf(&self) -> bool {
        &&& self@.len() == self.spec_height()
        &&& is_rectangular(self@, self.spec_width() as int)
    }

    /// A grid of `width` × `height` cells seeded at random: a count below
    /// `width * height` is drawn, then that many positions, with repetition,
    /// are made alive. Fewer cells than the count may come alive, never more.
    pub fn new(width: usize, height: usize) -> (b: Board)
        requires
            width > 0,
            height > 0,
            width * height <= usize::MAX,
        ensures
            b.wf(),
            b.spec_width() == width,
            b.spec_height() == height,
            live_cells(b@).len() < width * height,
    {
        let mut rng = new_rng();
        assert(width * height > 0) by (nonlinear_arith)
            requires
                width > 0,
                height > 0,
        ;
        let alive = below(&mut rng, width * height);
        let mut positions: Vec<(usize, usize)> = Vec::new();
        let mut i: usize = 0;
        while i < alive
            invariant
                i <= alive,
                width > 0,
                height > 0,
                positions@.len() == i,
            decreases alive - i,
        {
            let w = below(&mut rng, width);
            let h = below(&mut rng, height);
            positions.push((h, w));
            i = i + 1;
        }
        let b = Self::with_alive_cells(width, height, &positions);
        proof {
            let picks = positions@.map_values(|p: (usize, usize)| (p.0 as int, p.1 as int));
            assert(live_cells(b@).subset_of(picks.to_set())) by {
                assert forall|p: (int, int)| #[trigger] live_cells(b@).contains(p) implies picks.to_set().contains(p) by {
                    let j = choose|j: int|
                        0 <= j < positions@.len() && #[trigger] positions@[j] == (p.0 as usize, p.1 as usize);
                    assert(picks[j] == p);
                }
            }
            picks.lemma_cardinality_of_set();
            vstd::set_lib::lemma_len_subset(live_cells(b@), picks.to_set());
        }
        b
    }

    /// A `width` × `height` grid whose live cells are exactly the in-range
    /// positions of `positions`, each a (row, column) pair; positions outside
    /// the grid are ignored and a repeated position counts once.
    pub fn with_alive_cells(width: usize, height: usize, positions: &Vec<(usize, usize)>) -> (b: Board)
        ensures
            b.wf(),
            b.spec_width() == width,
            b.spec_height() == height,
            forall|r: int, c: int|
                0 <= r < height && 0 <= c < width ==> (#[trigger] b@[r][c] == Cell::Alive <==> picked(
                    positions@,
                    r,
                    c,
                )),
    {
        let mut board: Vec<Vec<Cell>> = Vec::new();
        let mut r: usize = 0;
        while r < height
            invariant
                r <= height,
                board@.len() == r,
                forall|i: int| 0 <= i < r ==> (#[trigger] board@[i])@.len() == width,
                forall|i: int, c: int| 0 <= i < r && 0 <= c < width ==> #[trigger] board@[i]@[c] == Cell::Dead,
            decreases height - r,
        {
            let mut row: Vec<Cell> = Vec::new();
            let mut c: usize = 0;
            while c < width
                invariant
                    c <= width,
                    row@.len() == c,
                    forall|k: int| 0 <= k < c ==> #[trigger] row@[k] == Cell::Dead,
                decreases width - c,
            {
                row.push(Cell::Dead);
                c = c + 1;
            }
            board.push(row);
            r = r + 1;
        }
        let mut i: usize = 0;
        while i < positions.len()
            invariant
                i <= positions@.len(),
                board@.len() == height,
                forall|k: int| 0 <= k < height ==> (#[trigger] board@[k])@.len() == width,
                forall|k: int, c: int|
                    0 <= k < height && 0 <= c < width ==> (#[trigger] board@[k]@[c] == Cell::Alive
                        <==> picked(positions@.take(i as int), k, c)),
            decreases positions@.len() - i,
        {
            let (h, w) = positions[i];
            if h < height && w < width {
                board[h][w] = Cell::Alive;
            }
            assert forall|k: int, c: int|
                0 <= k < height && 0 <= c < width implies (#[trigger] board@[k]@[c] == Cell::Alive
                    <==> picked(positions@.take(i + 1), k, c)) by {
                assert(positions@.take(i + 1) =~= positions@.take(i as int).push(positions@[i as int]));
                if picked(positions@.take(i as int), k, c) {
                    let j = choose|j: int|
                        0 <= j < i && #[trigger] positions@.take(i as int)[j] == (k as usize, c as usize);
                    assert(positions@.take(i + 1)[j] == (k as usize, c as usize));
                }
                if picked(positions@.take(i + 1), k, c) && !(k == h && c == w) {
                    let j = choose|j: int|
                        0 <= j < i + 1 && #[trigger] positions@.take(i + 1)[j] == (k as usize, c as usize);
                    assert(positions@.take(i as int)[j] == (k as usize, c as usize));
                }
                if k == h && c == w {
                    assert(positions@.take(i + 1)[i as int] == (k as usize, c as usize));
                }
            }
            i = i + 1;
        }
        assert(positions@.take(positions@.len() as int) =~= positions@);
        Board { width, height, board }
    }

    /// A grid holding the given rows; every row must have as many cells as
    /// the first.
    pub fn with_board(board: Vec<Vec<Cell>>) -> (b: Board)
        requires
            board@.len() > 0 ==> is_rectangular(matrix_of(board@), board@[0]@.len() as int),
        ensures
            b@ == matrix_of(board@),
            b.spec_height() == board@.len(),
            b.spec_width() == (if board@.len() > 0 { board@[0]@.len() } else { 0 }),
            b.wf(),
    {
        let height = board.len();
        let width = if height > 0 {
            board[0].len()
        } else {
            0
        };
        Board { width, height, board }
    }

    /// The number of cells in each row.
    #[verifier::when_used_as_spec(spec_width)]
    pub fn width(&self) -> (w: usize)
        ensures
            w == self.spec_width(),
    {
        self.width
    }

    /// The number of rows.
    #[verifier::when_used_as_spec(spec_height)]
    pub fn height(&self) -> (h: usize)
        ensures
            h == self.spec_height(),
    {
        self.height
    }

    /// Read access to the rows.
    pub fn board(&self) -> (m: &Vec<Vec<Cell>>)
        ensures
            matrix_of(m@) == self@,
    {
        &self.board
    }

    /// Write access to the rows; the dimensions stay as they were.
    pub fn board_mut(&mut self) -> (m: &mut Vec<Vec<Cell>>)
        ensures
            matrix_of(m@) == old(self)@,
            final(self)@ == matrix_of(final(m)@),
            final(self).spec_width() == old(self).spec_width(),
            final(self).spec_height() == old(self).spec_height(),
    {
        &mut self.board
    }
}

} // verus!
