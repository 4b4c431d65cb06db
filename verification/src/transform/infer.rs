use vstd::prelude::*;

verus! {

/// A value with various levels of inference: absent, assumed by default,
/// calculated from other tags, or stated directly by a tag.
#[derive(Copy, Clone, Debug, PartialEq, Eq)]
pub enum Infer<T> {
    Absent,
    Default(T),
    Calculated(T),
    Direct(T),
}

impl<T> Infer<T> {
    /// How firmly the value is known: 0 for none, up to 3 for a direct one.
    pub open spec fn rank(self) -> nat {
        match self {
            Infer::Absent => 0,
            Infer::Default(_) => 1,
            Infer::Calculated(_) => 2,
            Infer::Direct(_) => 3,
        }
    }

    /// The value, whatever its level.
    pub open spec fn value(self) -> Option<T> {
        match self {
            Infer::Absent => None,
            Infer::Default(v) | Infer::Calculated(v) | Infer::Direct(v) => Some(v),
        }
    }

    /// What a write of `incoming` over `self` leaves: the incoming value,
    /// unless it is known less firmly than the one in place.
    pub open spec fn overwritten(self, incoming: Infer<T>) -> Infer<T> {
        if incoming.rank() >= self.rank() {
            incoming
        } else {
            self
        }
    }

    /// The value, whatever its level.
    pub fn some(self) -> (value: Option<T>)
        ensures
            value == self.value(),
    {
        match self {
            Infer::Absent => None,
            Infer::Default(v) | Infer::Calculated(v) | Infer::Direct(v) => Some(v),
        }
    }

    /// A directly stated value, or none.
    pub fn direct(some: Option<T>) -> (inferred: Infer<T>)
        ensures
            inferred == (match some {
                None => Infer::Absent,
                Some(v) => Infer::Direct(v),
            }),
    {
        match some {
            None => Infer::Absent,
            Some(v) => Infer::Direct(v),
        }
    }

    /// The value under `f`, at the same level.
    pub fn map<U, F>(self, f: F) -> (mapped: Infer<U>) where F: FnOnce(T) -> U
        requires
            self.value() is Some ==> f.requires((self.value()->0,)),
        ensures
            mapped.rank() == self.rank(),
            self.value() is Some ==> f.ensures((self.value()->0,), mapped.value()->0),
    {
        match self {
            Infer::Absent => Infer::Absent,
            Infer::Default(x) => Infer::Default(f(x)),
            Infer::Calculated(x) => Infer::Calculated(f(x)),
            Infer::Direct(x) => Infer::Direct(f(x)),
        }
    }

    /// Writes `incoming` over the value in place, unless it is known less
    /// firmly; says whether it was written.
    pub fn set(&mut self, incoming: Infer<T>) -> (written: bool)
        ensures
            *final(self) == old(self).overwritten(incoming),
            written == (incoming.rank() >= old(self).rank()),
            final(self).rank() >= old(self).rank(),
    {
        let current: u8 = match self {
            Infer::Absent => 0,
            Infer::Default(_) => 1,
            Infer::Calculated(_) => 2,
            Infer::Direct(_) => 3,
        };
        let offered: u8 = match &incoming {
            Infer::Absent => 0,
            Infer::Default(_) => 1,
            Infer::Calculated(_) => 2,
            Infer::Direct(_) => 3,
        };
        if offered >= current {
            *self = incoming;
            true
        } else {
            false
        }
    }
}

impl<T> Default for Infer<T> {
    fn default() -> (inferred: Infer<T>)
        ensures
            inferred == Infer::<T>::Absent,
    {
        Infer::Absent
    }
}

} // verus!
