use vstd::prelude::*;

verus! {

use crate::dir::Dir;

/// Per-cell particle state: one binary occupation flag per lattice heading,
/// `true` meaning a particle is present moving in that heading.
#[derive(Clone, Copy, PartialEq, Eq, Structural, Debug)]
pub struct Vel {
    pub r: bool,
    pub tr: bool,
    pub tl: bool,
    pub l: bool,
    pub bl: bool,
    pub br: bool,
}

/// 1 for an occupied flag, 0 for a clear one.
pub open spec fn flag(b: bool) -> int {
    if b {
        1
    } else {
        0
    }
}

/// The occupancy vector with the given 0/1 flags, listed in heading order
/// `R, TR, TL, L, BL, BR`.
pub open spec fn flags(r: int, tr: int, tl: int, l: int, bl: int, br: int) -> Vel {
    Vel { r: r == 1, tr: tr == 1, tl: tl == 1, l: l == 1, bl: bl == 1, br: br == 1 }
}

impl Vel {
    /// The occupation flag for heading `d`.
    pub open spec fn get(self, d: Dir) -> bool {
        match d {
            Dir::R => self.r,
            Dir::TR => self.tr,
            Dir::TL => self.tl,
            Dir::L => self.l,
            Dir::BL => self.bl,
            Dir::BR => self.br,
        }
    }

    /// Number of particles present, 0 through 6.
    pub open spec fn count(self) -> int {
        flag(self.r) + flag(self.tr) + flag(self.tl) + flag(self.l) + flag(self.bl) + flag(self.br)
    }

    /// Twice the horizontal momentum: the six headings, spaced 60 degrees
    /// apart with `R` at 0 degrees, project onto the horizontal axis with
    /// weights 1, 1/2, -1/2, -1, -1/2, 1/2.
    pub open spec fn h_doubled(self) -> int {
        2 * flag(self.r) + flag(self.tr) - flag(self.tl) - 2 * flag(self.l) - flag(self.bl) + flag(
            self.br,
        )
    }

    /// Vertical momentum in units of sin(60 degrees): the four oblique
    /// headings project onto the vertical axis with that weight, upward ones
    /// positively.
    pub open spec fn v_units(self) -> int {
        flag(self.tr) + flag(self.tl) - flag(self.bl) - flag(self.br)
    }

    pub open spec fn zero_spec() -> Vel {
        Vel { r: false, tr: false, tl: false, l: false, bl: false, br: false }
    }

    /// The empty state: no particle in any heading.
    pub fn zero() -> (v: Vel)
        ensures
            v == Self::zero_spec(),
    {
        Vel { r: false, tr: false, tl: false, l: false, bl: false, br: false }
    }

    pub fn new(r: bool, tr: bool, tl: bool, l: bool, bl: bool, br: bool) -> (v: Vel)
        ensures
            v == (Vel { r, tr, tl, l, bl, br }),
    {
        Vel { r, tr, tl, l, bl, br }
    }

    /// The occupation flag for heading `d`.
    pub fn bit(&self, d: Dir) -> (b: bool)
        ensures
            b == self.get(d),
    {
        match d {
            Dir::R => self.r,
            Dir::TR => self.tr,
            Dir::TL => self.tl,
            Dir::L => self.l,
            Dir::BL => self.bl,
            Dir::BR => self.br,
        }
    }

    /// A copy of `self` with the flag for heading `d` set to `b`.
    pub fn with_bit(self, d: Dir, b: bool) -> (v: Vel)
        ensures
            v.get(d) == b,
            forall|e: Dir| e != d ==> v.get(e) == self.get(e),
    {
        match d {
            Dir::R => Vel { r: b, ..self },
            Dir::TR => Vel { tr: b, ..self },
            Dir::TL => Vel { tl: b, ..self },
            Dir::L => Vel { l: b, ..self },
            Dir::BL => Vel { bl: b, ..self },
            Dir::BR => Vel { br: b, ..self },
        }
    }

    /// Number of particles present, 0 through 6.
    pub fn total(&self) -> (n: u8)
        ensures
            n as int == self.count(),
    {
        let mut n: u8 = 0;
        if self.r {
            n = n + 1;
        }
        if self.tr {
            n = n + 1;
        }
        if self.tl {
            n = n + 1;
        }
        if self.l {
            n = n + 1;
        }
        if self.bl {
            n = n + 1;
        }
        if self.br {
            n = n + 1;
        }
        n
    }

    /// Twice the horizontal momentum, between -6 and 6.
    pub fn h_times_two(&self) -> (m: i8)
        ensures
            m as int == self.h_doubled(),
    {
        let mut m: i8 = 0;
        if self.r {
            m = m + 2;
        }
        if self.tr {
            m = m + 1;
        }
        if self.tl {
            m = m - 1;
        }
        if self.l {
            m = m - 2;
        }
        if self.bl {
            m = m - 1;
        }
        if self.br {
            m = m + 1;
        }
        m
    }

    /// Vertical momentum in units of sin(60 degrees), between -4 and 4.
    pub fn v_in_units(&self) -> (m: i8)
        ensures
            m as int == self.v_units(),
    {
        let mut m: i8 = 0;
        if self.tr {
            m = m + 1;
        }
        if self.tl {
            m = m + 1;
        }
        if self.bl {
            m = m - 1;
        }
        if self.br {
            m = m - 1;
        }
        m
    }
}

} // verus!
