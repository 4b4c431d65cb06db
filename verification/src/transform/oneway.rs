use vstd::prelude::*;

verus! {

/// Whether traffic on a way runs in one direction only.
#[derive(Clone, Copy, Debug, PartialEq, Eq, Structural)]
pub enum Oneway {
    Yes,
    No,
}

impl Oneway {
    /// The answer as a truth value.
    pub open spec fn holds(self) -> bool {
        self == Oneway::Yes
    }

    /// The answer that a truth value stands for.
    pub open spec fn of(oneway: bool) -> Oneway {
        if oneway {
            Oneway::Yes
        } else {
            Oneway::No
        }
    }
}

impl From<bool> for Oneway {
    fn from(oneway: bool) -> (answer: Oneway) {
        if oneway {
            Oneway::Yes
        } else {
            Oneway::No
        }
    }
}

impl vstd::std_specs::convert::FromSpecImpl<bool> for Oneway {
    open spec fn obeys_from_spec() -> bool {
        true
    }

    open spec fn from_spec(oneway: bool) -> Oneway {
        Oneway::of(oneway)
    }
}

impl From<Oneway> for bool {
    fn from(oneway: Oneway) -> (answer: bool) {
        match oneway {
            Oneway::Yes => true,
            Oneway::No => false,
        }
    }
}

impl vstd::std_specs::convert::FromSpecImpl<Oneway> for bool {
    open spec fn obeys_from_spec() -> bool {
        true
    }

    open spec fn from_spec(oneway: Oneway) -> bool {
        oneway.holds()
    }
}

} // verus!
