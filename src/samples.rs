use vstd::prelude::*;
use crate::grid::CoordChar;

verus! {

/// A four-cell candidate for the word `XMAS`, each cell labelled by the
/// letter it should hold.
#[derive(Debug, Clone, Copy, PartialEq, Eq, Structural, Hash)]
pub struct FoundWord {
    pub x: CoordChar,
    pub m: CoordChar,
    pub a: CoordChar,
    pub s: CoordChar,
}

/// A five-cell candidate for the cross of two `MAS` arms: the four corners of
/// a three-by-three block, labelled by the letter they should hold, and the
/// center.
#[derive(Debug, Clone, Copy, PartialEq, Eq, Structural, Hash)]
pub struct FoundCrossedMas {
    pub m_up: CoordChar,
    pub s_up: CoordChar,
    pub a: CoordChar,
    pub m_down: CoordChar,
    pub s_down: CoordChar,
}

impl FoundWord {
    /// The labelled cells spell `XMAS`.
    pub open spec fn spells_xmas(self) -> bool {
        self.x.ch == 'X' && self.m.ch == 'M' && self.a.ch == 'A' && self.s.ch == 'S'
    }

    pub fn is_xmas(&self) -> (r: bool)
        ensures
            r == self.spells_xmas(),
    {
        self.x.ch == 'X' && self.m.ch == 'M' && self.a.ch == 'A' && self.s.ch == 'S'
    }
}

impl FoundCrossedMas {
    /// Both `M` corners hold `M`, both `S` corners hold `S`, the center holds `A`.
    pub open spec fn spells_crossed_mas(self) -> bool {
        self.m_up.ch == 'M' && self.m_down.ch == 'M' && self.a.ch == 'A' && self.s_up.ch == 'S'
            && self.s_down.ch == 'S'
    }

    pub fn is_crossed_mas(&self) -> (r: bool)
        ensures
            r == self.spells_crossed_mas(),
    {
        self.m_up.ch == 'M' && self.m_down.ch == 'M' && self.a.ch == 'A' && self.s_up.ch == 'S'
            && self.s_down.ch == 'S'
    }
}

} // verus!
