use vstd::prelude::*;

verus! {

/// One of the six lattice headings of the hexagonal grid, spaced 60 degrees
/// apart; `R` is the 0-degree reference direction.
#[derive(Clone, Copy, PartialEq, Eq, Structural, Debug)]
pub enum Dir {
    R,
    TR,
    TL,
    L,
    BL,
    BR,
}

impl Dir {
    /// The heading opposite to `self` on the lattice.
    pub open spec fn opp(self) -> Dir {
        match self {
            Dir::R => Dir::L,
            Dir::TR => Dir::BL,
            Dir::TL => Dir::BR,
            Dir::L => Dir::R,
            Dir::BL => Dir::TR,
            Dir::BR => Dir::TL,
        }
    }

    pub fn opposite(self) -> (r: Dir)
        ensures
            r == self.opp(),
    {
        match self {
            Dir::R => Dir::L,
            Dir::TR => Dir::BL,
            Dir::TL => Dir::BR,
            Dir::L => Dir::R,
            Dir::BL => Dir::TR,
            Dir::BR => Dir::TL,
        }
    }

    /// `opp` is an involution: it covers the six directions exactly in pairs.
    pub proof fn lemma_opposite_involution(self)
        ensures
            self.opp().opp() == self,
            self.opp() != self,
    {
    }
}

} // verus!
