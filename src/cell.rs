use vstd::prelude::*;

verus! {

/// The state of one grid position.
#[derive(Clone, Copy, Debug, PartialEq, Eq, Structural)]
pub enum Cell {
    Alive,
    Dead,
}

impl Cell {
    /// The numeric encoding of a cell: 1 for `Alive`, 0 for `Dead`.
    pub open spec fn spec_weight(self) -> nat {
        match self {
            Cell::Alive => 1,
            Cell::Dead => 0,
        }
    }

    /// The additive weight of this cell in a neighbor count.
    pub fn weight(self) -> (w: u8)
        ensures
            w == self.spec_weight(),
    {
        match self {
            Cell::Alive => 1,
            Cell::Dead => 0,
        }
    }
}

} // verus!
