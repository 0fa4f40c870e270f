use vstd::prelude::*;
use crate::grid::Puzzle;
use crate::samples::{FoundCrossedMas, FoundWord};
use crate::views::{
    cross_view, lemma_cross_view_injective, lemma_word_view_injective, word_view,
    CROSS_ORIENTATIONS, LINE_DIRECTIONS,
};

verus! {

/// Window (`r`, `c`, `k`) comes before window (`r0`, `c0`, `k0`) in scan order:
/// rows first, then columns, then directions.
pub open spec fn before(r: int, c: int, k: int, r0: int, c0: int, k0: int) -> bool {
    r < r0 || (r == r0 && (c < c0 || (c == c0 && k < k0)))
}

/// The word candidates of the windows scanned before (`r0`, `c0`, `k0`).
pub open spec fn words_before(g: Seq<Seq<char>>, r0: int, c0: int, k0: int) -> Set<FoundWord> {
    Set::new(
        |w: FoundWord|
            exists|r: int, c: int, k: int|
                0 <= r < g.len() && 0 <= c < g.len() && 0 <= k < 8 && before(r, c, k, r0, c0, k0)
                    && #[trigger] word_view(g, r, c, k) == Some(w),
    )
}

/// Every distinct word candidate of the grid: what any anchor yields in any
/// of the eight directions.
pub open spec fn word_candidates(g: Seq<Seq<char>>) -> Set<FoundWord> {
    Set::new(
        |w: FoundWord|
            exists|r: int, c: int, k: int|
                0 <= r < g.len() && 0 <= c < g.len() && 0 <= k < 8 && #[trigger] word_view(
                    g,
                    r,
                    c,
                    k,
                ) == Some(w),
    )
}

/// The word candidates that spell `XMAS`.
pub open spec fn valid_words(g: Seq<Seq<char>>) -> Set<FoundWord> {
    word_candidates(g).filter(|w: FoundWord| w.spells_xmas())
}

/// The cross candidates of the blocks scanned before (`r0`, `c0`, `o0`).
pub open spec fn crosses_before(g: Seq<Seq<char>>, r0: int, c0: int, o0: int) -> Set<
    FoundCrossedMas,
> {
    Set::new(
        |x: FoundCrossedMas|
            exists|r: int, c: int, o: int|
                0 <= r < g.len() && 0 <= c < g.len() && 0 <= o < 4 && before(r, c, o, r0, c0, o0)
                    && #[trigger] cross_view(g, r, c, o) == Some(x),
    )
}

/// Every distinct cross candidate of the grid: what any block yields under any
/// of the four orientations.
pub open spec fn cross_candidates(g: Seq<Seq<char>>) -> Set<FoundCrossedMas> {
    Set::new(
        |x: FoundCrossedMas|
            exists|r: int, c: int, o: int|
                0 <= r < g.len() && 0 <= c < g.len() && 0 <= o < 4 && #[trigger] cross_view(
                    g,
                    r,
                    c,
                    o,
                ) == Some(x),
    )
}

/// The cross candidates that hold two `MAS` arms.
pub open spec fn valid_crosses(g: Seq<Seq<char>>) -> Set<FoundCrossedMas> {
    cross_candidates(g).filter(|x: FoundCrossedMas| x.spells_crossed_mas())
}

proof fn lemma_window_bound(r: int, c: int, k: int, n: int, m: int)
    requires
        0 <= r < n,
        0 <= c < n,
        0 <= k < m,
    ensures
        r * n * m + c * m + k < n * n * m,
        (r + 1) * n * m == r * n * m + n * m,
        r * n * m >= 0,
{
    assert(r * n * m + c * m + k < n * n * m) by (nonlinear_arith)
        requires
            0 <= r < n,
            0 <= c < n,
            0 <= k < m,
    ;
    assert((r + 1) * n * m == r * n * m + n * m) by (nonlinear_arith);
    assert(r * n * m >= 0) by (nonlinear_arith)
        requires
            0 <= r < n,
            0 <= k < m,
    ;
}

/// The four counts that a scan reports.
#[derive(Debug, Clone, Copy, PartialEq, Eq, Structural)]
pub struct ScanReport {
    /// Distinct word candidates that spell `XMAS`.
    pub words_found: usize,
    /// Distinct word candidates examined.
    pub words_examined: usize,
    /// Distinct cross candidates that hold two `MAS` arms.
    pub crosses_found: usize,
    /// Distinct cross candidates examined.
    pub crosses_examined: usize,
}

/// Scanning depends on the grid's characters alone: two grids with the same
/// characters have the same candidates and the same matches, so a second scan
/// of a grid reports what the first did.
pub proof fn lemma_scan_depends_on_grid_alone(p: &Puzzle, q: &Puzzle)
    requires
        p@ == q@,
    ensures
        word_candidates(p@) == word_candidates(q@),
        valid_words(p@) == valid_words(q@),
        cross_candidates(p@) == cross_candidates(q@),
        valid_crosses(p@) == valid_crosses(q@),
{
}

impl Puzzle {
    /// Scans every position of the grid for word and cross candidates and
    /// counts the distinct ones, and those that match.
    pub fn scan(&self) -> (r: ScanReport)
        requires
            self.wf(),
            self@.len() * self@.len() * 8 <= usize::MAX,
        ensures
            r.words_found <= r.words_examined,
            r.crosses_found <= r.crosses_examined,
            r.words_found == valid_words(self@).len(),
            r.words_examined == word_candidates(self@).len(),
            r.crosses_found == valid_crosses(self@).len(),
            r.crosses_examined == cross_candidates(self@).len(),
    {
        let (words_found, words_examined) = self.count_words();
        let (crosses_found, crosses_examined) = self.count_crosses();
        ScanReport { words_found, words_examined, crosses_found, crosses_examined }
    }

    /// The number of distinct places where `XMAS` can be read.
    pub fn solve(&self) -> (r: usize)
        requires
            self.wf(),
            self@.len() * self@.len() * 8 <= usize::MAX,
        ensures
            r == valid_words(self@).len(),
    {
        self.count_words().0
    }

    /// Counts the distinct word candidates, and those among them that spell
    /// `XMAS`, over every anchor and direction of the grid.
    pub fn count_words(&self) -> (r: (usize, usize))
        requires
            self.wf(),
            self@.len() * self@.len() * 8 <= usize::MAX,
        ensures
            word_candidates(self@).finite(),
            r.0 <= r.1,
            r.0 == valid_words(self@).len(),
            r.1 == word_candidates(self@).len(),
    {
        let ghost g = self@;
        let ghost f = |w: FoundWord| w.spells_xmas();
        let n = self.side();
        let mut found: usize = 0;
        let mut total: usize = 0;
        // `seen` holds the distinct candidates met so far, `good` those that
        // match. No window yields the candidate of an earlier one, so every
        // candidate produced is new and the counters track the set sizes.
        let ghost mut seen: Set<FoundWord> = Set::empty();
        let ghost mut good: Set<FoundWord> = Set::empty();
        assert(seen =~= words_before(g, 0, 0, 0));
        assert(good =~= seen.filter(f));
        let mut r: usize = 0;
        while r < n
            invariant
                self.wf(),
                g == self@,
                n == g.len(),
                n * n * 8 <= usize::MAX,
                r <= n,
                seen == words_before(g, r as int, 0, 0),
                seen.finite(),
                good == seen.filter(f),
                f == (|w: FoundWord| w.spells_xmas()),
                total == seen.len(),
                found == good.len(),
                found <= total,
                total <= r * n * 8,
            decreases n - r,
        {
            let mut c: usize = 0;
            while c < n
                invariant
                    self.wf(),
                    g == self@,
                    n == g.len(),
                    n * n * 8 <= usize::MAX,
                    r < n,
                    c <= n,
                    seen == words_before(g, r as int, c as int, 0),
                    seen.finite(),
                    good == seen.filter(f),
                    f == (|w: FoundWord| w.spells_xmas()),
                    total == seen.len(),
                    found == good.len(),
                    found <= total,
                    total <= r * n * 8 + c * 8,
                decreases n - c,
            {
                let mut k: usize = 0;
                while k < LINE_DIRECTIONS
                    invariant
                        self.wf(),
                        g == self@,
                        n == g.len(),
                        n * n * 8 <= usize::MAX,
                        r < n,
                        c < n,
                        k <= 8,
                        seen == words_before(g, r as int, c as int, k as int),
                        seen.finite(),
                        good == seen.filter(f),
                        f == (|w: FoundWord| w.spells_xmas()),
                        total == seen.len(),
                        found == good.len(),
                        found <= total,
                        total <= r * n * 8 + c * 8 + k,
                    decreases 8 - k,
                {
                    proof {
                        lemma_window_bound(r as int, c as int, k as int, n as int, 8);
                    }
                    let ghost prev = seen;
                    match self.view_line((r, c), k) {
                        Some(w) => {
                            assert(!prev.contains(w)) by {
                                if prev.contains(w) {
                                    let (r2, c2, k2) = choose|r2: int, c2: int, k2: int|
                                        0 <= r2 < g.len() && 0 <= c2 < g.len() && 0 <= k2 < 8
                                            && before(r2, c2, k2, r as int, c as int, k as int)
                                            && #[trigger] word_view(g, r2, c2, k2) == Some(w);
                                    lemma_word_view_injective(
                                        g,
                                        r as int,
                                        c as int,
                                        k as int,
                                        r2,
                                        c2,
                                        k2,
                                    );
                                }
                            }
                            total = total + 1;
                            if w.is_xmas() {
                                found = found + 1;
                            }
                            proof {
                                seen = prev.insert(w);
                                if f(w) {
                                    assert(!good.contains(w));
                                    good = good.insert(w);
                                }
                                assert(good =~= seen.filter(f));
                            }
                        },
                        None => {},
                    }
                    k = k + 1;
                    assert(seen =~= words_before(g, r as int, c as int, k as int));
                }
                c = c + 1;
                assert(seen =~= words_before(g, r as int, c as int, 0));
            }
            proof {
                lemma_window_bound(r as int, 0, 0, n as int, 8);
            }
            r = r + 1;
            assert(seen =~= words_before(g, r as int, 0, 0));
        }
        assert(seen =~= word_candidates(g));
        (found, total)
    }

    /// Counts the distinct cross candidates, and those among them that hold two
    /// `MAS` arms, over every block and orientation of the grid.
    pub fn count_crosses(&self) -> (r: (usize, usize))
        requires
            self.wf(),
            self@.len() * self@.len() * 4 <= usize::MAX,
        ensures
            cross_candidates(self@).finite(),
            r.0 <= r.1,
            r.0 == valid_crosses(self@).len(),
            r.1 == cross_candidates(self@).len(),
    {
        let ghost g = self@;
        let ghost f = |w: FoundCrossedMas| w.spells_crossed_mas();
        let n = self.side();
        let mut found: usize = 0;
        let mut total: usize = 0;
        // As in `count_words`: each block and orientation yields a new candidate.
        let ghost mut seen: Set<FoundCrossedMas> = Set::empty();
        let ghost mut good: Set<FoundCrossedMas> = Set::empty();
        assert(seen =~= crosses_before(g, 0, 0, 0));
        assert(good =~= seen.filter(f));
        let mut r: usize = 0;
        while r < n
            invariant
                self.wf(),
                g == self@,
                n == g.len(),
                n * n * 4 <= usize::MAX,
                r <= n,
                seen == crosses_before(g, r as int, 0, 0),
                seen.finite(),
                good == seen.filter(f),
                f == (|w: FoundCrossedMas| w.spells_crossed_mas()),
                total == seen.len(),
                found == good.len(),
                found <= total,
                total <= r * n * 4,
            decreases n - r,
        {
            let mut c: usize = 0;
            while c < n
                invariant
                    self.wf(),
                    g == self@,
                    n == g.len(),
                    n * n * 4 <= usize::MAX,
                    r < n,
                    c <= n,
                    seen == crosses_before(g, r as int, c as int, 0),
                    seen.finite(),
                    good == seen.filter(f),
                    f == (|w: FoundCrossedMas| w.spells_crossed_mas()),
                    total == seen.len(),
                    found == good.len(),
                    found <= total,
                    total <= r * n * 4 + c * 4,
                decreases n - c,
            {
                let mut k: usize = 0;
                while k < CROSS_ORIENTATIONS
                    invariant
                        self.wf(),
                        g == self@,
                        n == g.len(),
                        n * n * 4 <= usize::MAX,
                        r < n,
                        c < n,
                        k <= 4,
                        seen == crosses_before(g, r as int, c as int, k as int),
                        seen.finite(),
                        good == seen.filter(f),
                        f == (|w: FoundCrossedMas| w.spells_crossed_mas()),
                        total == seen.len(),
                        found == good.len(),
                        found <= total,
                        total <= r * n * 4 + c * 4 + k,
                    decreases 4 - k,
                {
                    proof {
                        lemma_window_bound(r as int, c as int, k as int, n as int, 4);
                    }
                    let ghost prev = seen;
                    match self.view_cross((r, c), k) {
                        Some(w) => {
                            assert(!prev.contains(w)) by {
                                if prev.contains(w) {
                                    let (r2, c2, k2) = choose|r2: int, c2: int, k2: int|
                                        0 <= r2 < g.len() && 0 <= c2 < g.len() && 0 <= k2 < 4
                                            && before(r2, c2, k2, r as int, c as int, k as int)
                                            && #[trigger] cross_view(g, r2, c2, k2) == Some(w);
                                    lemma_cross_view_injective(
                                        g,
                                        r as int,
                                        c as int,
                                        k as int,
                                        r2,
                                        c2,
                                        k2,
                                    );
                                }
                            }
                            total = total + 1;
                            if w.is_crossed_mas() {
                                found = found + 1;
                            }
                            proof {
                                seen = prev.insert(w);
                                if f(w) {
                                    assert(!good.contains(w));
                                    good = good.insert(w);
                                }
                                assert(good =~= seen.filter(f));
                            }
                        },
                        None => {},
                    }
                    k = k + 1;
                    assert(seen =~= crosses_before(g, r as int, c as int, k as int));
                }
                c = c + 1;
                assert(seen =~= crosses_before(g, r as int, c as int, 0));
            }
            proof {
                lemma_window_bound(r as int, 0, 0, n as int, 4);
            }
            r = r + 1;
            assert(seen =~= crosses_before(g, r as int, 0, 0));
        }
        assert(seen =~= cross_candidates(g));
        (found, total)
    }
}

} // verus!
