use vstd::prelude::*;

verus! {

/// A length, held as a whole number of millimetres.
#[derive(Clone, Copy, Debug, PartialEq, Eq, Structural)]
pub struct Metre {
    pub millimetres: u32,
}

impl Metre {
    /// The length of `millimetres` thousandths of a metre.
    pub fn from_millimetres(millimetres: u32) -> (m: Metre)
        ensures
            m.millimetres == millimetres,
    {
        Metre { millimetres }
    }

    /// The length in thousandths of a metre.
    pub fn val(&self) -> (millimetres: u32)
        ensures
            millimetres == self.millimetres,
    {
        self.millimetres
    }
}

/// A speed limit, in the unit that the signs of a country use.
#[derive(Clone, Copy, Debug, PartialEq, Eq, Structural)]
pub enum Speed {
    Kph(u32),
    Mph(u32),
}

} // verus!
