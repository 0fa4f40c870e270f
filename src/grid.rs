use vstd::prelude::*;

verus! {

/// A grid position with the character found there.
#[derive(Debug, Clone, Copy, PartialEq, Eq, Structural, Hash)]
pub struct CoordChar {
    pub x: usize,
    pub y: usize,
    pub ch: char,
}

/// The cell at row `r`, column `c`, or `None` when that position is off the grid.
pub open spec fn cell_at(g: Seq<Seq<char>>, r: int, c: int) -> Option<CoordChar> {
    if 0 <= r < g.len() && 0 <= c < g[r].len() {
        Some(CoordChar { x: r as usize, y: c as usize, ch: g[r][c] })
    } else {
        None
    }
}

/// Every row holds as many characters as there are rows.
pub open spec fn is_square(g: Seq<Seq<char>>) -> bool {
    forall|i: int| 0 <= i < g.len() ==> #[trigger] g[i].len() == g.len()
}

/// An immutable square table of characters.
pub struct Puzzle {
    grid: Vec<Vec<char>>,
}

impl View for Puzzle {
    type V = Seq<Seq<char>>;

    closed spec fn view(&self) -> Seq<Seq<char>> {
        Seq::new(self.grid@.len(), |i: int| self.grid@[i]@)
    }
}

impl Puzzle {
    /// The number of rows, which is also the number of columns.
    pub open spec fn size(&self) -> nat {
        self@.len()
    }

    /// The rows form a square whose side fits in `usize`.
    pub open spec fn wf(&self) -> bool {
        is_square(self@) && self@.len() <= usize::MAX
    }

    /// Builds the grid from its rows; every row must be as long as there are rows.
    pub fn new(rows: Vec<Vec<char>>) -> (p: Puzzle)
        requires
            forall|i: int| 0 <= i < rows@.len() ==> #[trigger] rows@[i]@.len() == rows@.len(),
        ensures
            p.wf(),
            p@.len() == rows@.len(),
            forall|i: int| 0 <= i < rows@.len() ==> #[trigger] p@[i] == rows@[i]@,
    {
        let _n = rows.len();
        let p = Puzzle { grid: rows };
        assert(is_square(p@)) by {
            assert forall|i: int| 0 <= i < p@.len() implies #[trigger] p@[i].len() == p@.len() by {
                assert(p@[i] == p.grid@[i]@);
            }
        }
        p
    }

    /// The number of rows, which is also the number of columns.
    pub fn side(&self) -> (n: usize)
        ensures
            n == self@.len(),
    {
        self.grid.len()
    }

    /// The cell at `coord` (row, column), or `None` when it lies off the grid.
    pub fn access(&self, coord: (usize, usize)) -> (r: Option<CoordChar>)
        ensures
            r == cell_at(self@, coord.0 as int, coord.1 as int),
    {
        if coord.0 < self.grid.len() {
            let row = &self.grid[coord.0];
            if coord.1 < row.len() {
                return Some(CoordChar { x: coord.0, y: coord.1, ch: row[coord.1] });
            }
        }
        None
    }

    /// The cell `drow` rows below and `dcol` columns right of (`row`, `col`),
    /// or `None` when that position is off the grid.
    pub(crate) fn access_shifted(&self, row: usize, drow: usize, col: usize, dcol: isize) -> (r: Option<CoordChar>)
        requires
            self.wf(),
            dcol != isize::MIN,
        ensures
            r == cell_at(self@, row + drow, col + dcol),
    {
        let n = self.grid.len();
        if row >= n || drow >= n - row {
            return None;
        }
        let c: usize;
        if dcol < 0 {
            if (-dcol) as usize > col {
                return None;
            }
            c = col - (-dcol) as usize;
        } else {
            if col >= n || dcol as usize >= n - col {
                return None;
            }
            c = col + dcol as usize;
        }
        self.access((row + drow, c))
    }
}

} // verus!
