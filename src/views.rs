use vstd::prelude::*;
use crate::grid::{cell_at, is_square, Puzzle};
use crate::samples::{FoundCrossedMas, FoundWord};

verus! {

/// The number of line directions: four axes, each read forward and backward.
pub const LINE_DIRECTIONS: usize = 8;

/// The number of labellings of a cross.
pub const CROSS_ORIENTATIONS: usize = 4;

/// Rows advanced per letter along direction `k`.
pub open spec fn row_step(k: int) -> int {
    if k == 2 || k == 3 { 0 } else { 1 }
}

/// Columns advanced per letter along direction `k`.
pub open spec fn col_step(k: int) -> int {
    if k == 0 || k == 1 { 0 } else if k == 6 || k == 7 { -1 } else { 1 }
}

/// Direction `k` labels the cells from the far end of the line.
pub open spec fn is_reverse(k: int) -> bool {
    k == 1 || k == 3 || k == 5 || k == 7
}

/// The word candidate anchored at (`r`, `c`) in direction `k`: the anchor and
/// the three cells that follow it, labelled `X`, `M`, `A`, `S` from the anchor,
/// or from the far end when the direction is a reverse one; `None` when any of
/// them is off the grid.
pub open spec fn word_view(g: Seq<Seq<char>>, r: int, c: int, k: int) -> Option<FoundWord> {
    let p0 = cell_at(g, r, c);
    let p1 = cell_at(g, r + row_step(k), c + col_step(k));
    let p2 = cell_at(g, r + 2 * row_step(k), c + 2 * col_step(k));
    let p3 = cell_at(g, r + 3 * row_step(k), c + 3 * col_step(k));
    if p0 is Some && p1 is Some && p2 is Some && p3 is Some {
        if is_reverse(k) {
            Some(FoundWord { x: p3->0, m: p2->0, a: p1->0, s: p0->0 })
        } else {
            Some(FoundWord { x: p0->0, m: p1->0, a: p2->0, s: p3->0 })
        }
    } else {
        None
    }
}

/// The cross candidate in the three-by-three block whose top-left corner is
/// (`r`, `c`), labelled by orientation `o`; `None` when the block leaves the grid.
pub open spec fn cross_view(g: Seq<Seq<char>>, r: int, c: int, o: int) -> Option<FoundCrossedMas> {
    let tl = cell_at(g, r, c);
    let bl = cell_at(g, r + 2, c);
    let mid = cell_at(g, r + 1, c + 1);
    let tr = cell_at(g, r, c + 2);
    let br = cell_at(g, r + 2, c + 2);
    if tl is Some && bl is Some && mid is Some && tr is Some && br is Some {
        let (tl, bl, a, tr, br) = (tl->0, bl->0, mid->0, tr->0, br->0);
        Some(
            if o == 0 {
                FoundCrossedMas { m_up: tl, s_up: bl, a, m_down: tr, s_down: br }
            } else if o == 1 {
                FoundCrossedMas { m_down: tl, m_up: bl, a, s_down: tr, s_up: br }
            } else if o == 2 {
                FoundCrossedMas { s_down: tl, m_down: bl, a, s_up: tr, m_up: br }
            } else {
                FoundCrossedMas { s_up: tl, s_down: bl, a, m_up: tr, m_down: br }
            },
        )
    } else {
        None
    }
}

/// Two windows that yield the same word candidate are the same window:
/// the `X` cell fixes the anchor's far or near end and the `M` cell fixes the
/// direction.
pub proof fn lemma_word_view_injective(
    g: Seq<Seq<char>>,
    r1: int,
    c1: int,
    k1: int,
    r2: int,
    c2: int,
    k2: int,
)
    requires
        is_square(g),
        g.len() <= usize::MAX,
        0 <= k1 < 8,
        0 <= k2 < 8,
        word_view(g, r1, c1, k1) is Some,
        word_view(g, r1, c1, k1) == word_view(g, r2, c2, k2),
    ensures
        r1 == r2 && c1 == c2 && k1 == k2,
{
    lemma_word_positions(g, r1, c1, k1);
    lemma_word_positions(g, r2, c2, k2);
}

/// Where the `X` and `M` cells of a word candidate lie.
proof fn lemma_word_positions(g: Seq<Seq<char>>, r: int, c: int, k: int)
    requires
        is_square(g),
        g.len() <= usize::MAX,
        0 <= k < 8,
        word_view(g, r, c, k) is Some,
    ensures
        ({
            let w = word_view(g, r, c, k)->0;
            let rev = is_reverse(k);
            &&& w.x.x as int == if rev { r + 3 * row_step(k) } else { r }
            &&& w.x.y as int == if rev { c + 3 * col_step(k) } else { c }
            &&& w.m.x as int == if rev { r + 2 * row_step(k) } else { r + row_step(k) }
            &&& w.m.y as int == if rev { c + 2 * col_step(k) } else { c + col_step(k) }
        }),
{
}

/// Two blocks that yield the same cross candidate are the same block under
/// the same orientation: the center fixes the block and the first `M` corner
/// fixes the orientation.
pub proof fn lemma_cross_view_injective(
    g: Seq<Seq<char>>,
    r1: int,
    c1: int,
    o1: int,
    r2: int,
    c2: int,
    o2: int,
)
    requires
        is_square(g),
        g.len() <= usize::MAX,
        0 <= o1 < 4,
        0 <= o2 < 4,
        cross_view(g, r1, c1, o1) is Some,
        cross_view(g, r1, c1, o1) == cross_view(g, r2, c2, o2),
    ensures
        r1 == r2 && c1 == c2 && o1 == o2,
{
    lemma_cross_positions(g, r1, c1, o1);
    lemma_cross_positions(g, r2, c2, o2);
}

/// Where the center and the first `M` corner of a cross candidate lie.
proof fn lemma_cross_positions(g: Seq<Seq<char>>, r: int, c: int, o: int)
    requires
        is_square(g),
        g.len() <= usize::MAX,
        0 <= o < 4,
        cross_view(g, r, c, o) is Some,
    ensures
        ({
            let x = cross_view(g, r, c, o)->0;
            &&& x.a.x as int == r + 1
            &&& x.a.y as int == c + 1
            &&& x.m_up.x as int == if o == 1 || o == 2 { r + 2 } else { r }
            &&& x.m_up.y as int == if o == 2 || o == 3 { c + 2 } else { c }
        }),
{
}

/// A line window yields a candidate exactly when its anchor and its far end
/// both lie on the grid: a window that crosses an edge is never wrapped
/// around or cut short, it yields nothing.
pub proof fn lemma_word_window_inside(g: Seq<Seq<char>>, r: int, c: int, k: int)
    requires
        is_square(g),
        0 <= k < 8,
    ensures
        word_view(g, r, c, k) is Some <==> (0 <= r < g.len() && 0 <= c < g.len() && 0 <= r + 3
            * row_step(k) < g.len() && 0 <= c + 3 * col_step(k) < g.len()),
{
}

/// A block yields a cross candidate exactly when all of it lies on the grid.
pub proof fn lemma_cross_window_inside(g: Seq<Seq<char>>, r: int, c: int, o: int)
    requires
        is_square(g),
        0 <= o < 4,
    ensures
        cross_view(g, r, c, o) is Some <==> (0 <= r && r + 2 < g.len() && 0 <= c && c + 2
            < g.len()),
{
}

/// Reading a line backward labels its cells the other way round: the reverse
/// candidate spells `XMAS` only when the cells, taken from the far end, hold
/// `X`, `M`, `A`, `S`. So a forward match never brings a reverse match of the
/// same cells along with it.
pub proof fn lemma_reverse_reading(g: Seq<Seq<char>>, r: int, c: int, k: int)
    requires
        is_square(g),
        k == 0 || k == 2 || k == 4 || k == 6,
        word_view(g, r, c, k) is Some,
    ensures
        word_view(g, r, c, k + 1) is Some,
        ({
            let fwd = word_view(g, r, c, k)->0;
            let rev = word_view(g, r, c, k + 1)->0;
            &&& rev.spells_xmas() <==> (fwd.s.ch == 'X' && fwd.a.ch == 'M' && fwd.m.ch == 'A'
                && fwd.x.ch == 'S')
            &&& fwd.spells_xmas() ==> !rev.spells_xmas()
        }),
{
}

impl Puzzle {
    /// The word candidate anchored at `coord` in direction `k`.
    pub fn view_line(&self, coord: (usize, usize), k: usize) -> (r: Option<FoundWord>)
        requires
            self.wf(),
            k < LINE_DIRECTIONS,
        ensures
            r == word_view(self@, coord.0 as int, coord.1 as int, k as int),
    {
        let dr: usize = if k == 2 || k == 3 { 0 } else { 1 };
        let dc: isize = if k == 0 || k == 1 { 0 } else if k == 6 || k == 7 { -1 } else { 1 };
        let p0 = self.access_shifted(coord.0, 0, coord.1, 0);
        let p1 = self.access_shifted(coord.0, dr, coord.1, dc);
        let p2 = self.access_shifted(coord.0, 2 * dr, coord.1, 2 * dc);
        let p3 = self.access_shifted(coord.0, 3 * dr, coord.1, 3 * dc);
        match (p0, p1, p2, p3) {
            (Some(p0), Some(p1), Some(p2), Some(p3)) => {
                if k % 2 == 1 {
                    Some(FoundWord { x: p3, m: p2, a: p1, s: p0 })
                } else {
                    Some(FoundWord { x: p0, m: p1, a: p2, s: p3 })
                }
            },
            _ => None,
        }
    }

    /// Rows downward from `coord`, read from the anchor.
    pub fn view_horizontal(&self, coord: (usize, usize)) -> (r: Option<FoundWord>)
        requires
            self.wf(),
        ensures
            r == word_view(self@, coord.0 as int, coord.1 as int, 0),
    {
        self.view_line(coord, 0)
    }

    /// Rows downward from `coord`, read toward the anchor.
    pub fn view_horizontal_reverse(&self, coord: (usize, usize)) -> (r: Option<FoundWord>)
        requires
            self.wf(),
        ensures
            r == word_view(self@, coord.0 as int, coord.1 as int, 1),
    {
        self.view_line(coord, 1)
    }

    /// Columns rightward from `coord`, read from the anchor.
    pub fn view_vertical(&self, coord: (usize, usize)) -> (r: Option<FoundWord>)
        requires
            self.wf(),
        ensures
            r == word_view(self@, coord.0 as int, coord.1 as int, 2),
    {
        self.view_line(coord, 2)
    }

    /// Columns rightward from `coord`, read toward the anchor.
    pub fn view_vertical_reverse(&self, coord: (usize, usize)) -> (r: Option<FoundWord>)
        requires
            self.wf(),
        ensures
            r == word_view(self@, coord.0 as int, coord.1 as int, 3),
    {
        self.view_line(coord, 3)
    }

    /// Down and right from `coord`, read from the anchor.
    pub fn view_diagonal_slash(&self, coord: (usize, usize)) -> (r: Option<FoundWord>)
        requires
            self.wf(),
        ensures
            r == word_view(self@, coord.0 as int, coord.1 as int, 4),
    {
        self.view_line(coord, 4)
    }

    /// Down and right from `coord`, read toward the anchor.
    pub fn view_diagonal_slash_reverse(&self, coord: (usize, usize)) -> (r: Option<FoundWord>)
        requires
            self.wf(),
        ensures
            r == word_view(self@, coord.0 as int, coord.1 as int, 5),
    {
        self.view_line(coord, 5)
    }

    /// Down and left from `coord`, read from the anchor.
    pub fn view_diagonal_backslash(&self, coord: (usize, usize)) -> (r: Option<FoundWord>)
        requires
            self.wf(),
        ensures
            r == word_view(self@, coord.0 as int, coord.1 as int, 6),
    {
        self.view_line(coord, 6)
    }

    /// Down and left from `coord`, read toward the anchor.
    pub fn view_diagonal_backslash_reverse(&self, coord: (usize, usize)) -> (r: Option<FoundWord>)
        requires
            self.wf(),
        ensures
            r == word_view(self@, coord.0 as int, coord.1 as int, 7),
    {
        self.view_line(coord, 7)
    }

    /// The cross candidate in the block at `coord` under orientation `o`.
    pub fn view_cross(&self, coord: (usize, usize), o: usize) -> (r: Option<FoundCrossedMas>)
        requires
            self.wf(),
            o < CROSS_ORIENTATIONS,
        ensures
            r == cross_view(self@, coord.0 as int, coord.1 as int, o as int),
    {
        let tl = self.access_shifted(coord.0, 0, coord.1, 0);
        let bl = self.access_shifted(coord.0, 2, coord.1, 0);
        let mid = self.access_shifted(coord.0, 1, coord.1, 1);
        let tr = self.access_shifted(coord.0, 0, coord.1, 2);
        let br = self.access_shifted(coord.0, 2, coord.1, 2);
        match (tl, bl, mid, tr, br) {
            (Some(tl), Some(bl), Some(a), Some(tr), Some(br)) => {
                Some(
                    if o == 0 {
                        FoundCrossedMas { m_up: tl, s_up: bl, a, m_down: tr, s_down: br }
                    } else if o == 1 {
                        FoundCrossedMas { m_down: tl, m_up: bl, a, s_down: tr, s_up: br }
                    } else if o == 2 {
                        FoundCrossedMas { s_down: tl, m_down: bl, a, s_up: tr, m_up: br }
                    } else {
                        FoundCrossedMas { s_up: tl, s_down: bl, a, m_up: tr, m_down: br }
                    },
                )
            },
            _ => None,
        }
    }

    /// Top corners labelled `M`, bottom corners `S`.
    pub fn view_crossed_mas_north(&self, coord: (usize, usize)) -> (r: Option<FoundCrossedMas>)
        requires
            self.wf(),
        ensures
            r == cross_view(self@, coord.0 as int, coord.1 as int, 0),
    {
        self.view_cross(coord, 0)
    }

    /// Bottom-left and top-left corners labelled `M`, right corners `S`.
    pub fn view_crossed_mas_east(&self, coord: (usize, usize)) -> (r: Option<FoundCrossedMas>)
        requires
            self.wf(),
        ensures
            r == cross_view(self@, coord.0 as int, coord.1 as int, 1),
    {
        self.view_cross(coord, 1)
    }

    /// Bottom corners labelled `M`, top corners `S`.
    pub fn view_crossed_mas_south(&self, coord: (usize, usize)) -> (r: Option<FoundCrossedMas>)
        requires
            self.wf(),
        ensures
            r == cross_view(self@, coord.0 as int, coord.1 as int, 2),
    {
        self.view_cross(coord, 2)
    }

    /// Right corners labelled `M`, left corners `S`.
    pub fn view_crossed_mas_west(&self, coord: (usize, usize)) -> (r: Option<FoundCrossedMas>)
        requires
            self.wf(),
        ensures
            r == cross_view(self@, coord.0 as int, coord.1 as int, 3),
    {
        self.view_cross(coord, 3)
    }
}

} // verus!
