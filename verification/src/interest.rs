//! The readiness directions a registration watches for.

use vstd::prelude::*;

verus! {

/// A set of readiness directions that is never empty.
#[derive(Clone, Copy, Debug, PartialEq, Eq, Structural)]
pub enum InterestSet {
    /// Only readable readiness.
    Readable,
    /// Only writable readiness.
    Writable,
    /// Readable and writable readiness.
    Both,
}

impl InterestSet {
    /// Whether the set holds the readable direction.
    pub open spec fn readable(self) -> bool {
        self != InterestSet::Writable
    }

    /// Whether the set holds the writable direction.
    pub open spec fn writable(self) -> bool {
        self != InterestSet::Readable
    }

    /// The set with the given directions, if there is at least one.
    pub fn new(readable: bool, writable: bool) -> (set: Option<InterestSet>)
        ensures
            set is Some <==> readable || writable,
            set matches Some(s) ==> s.readable() == readable && s.writable() == writable,
    {
        if readable && writable {
            Some(InterestSet::Both)
        } else if readable {
            Some(InterestSet::Readable)
        } else if writable {
            Some(InterestSet::Writable)
        } else {
            None
        }
    }

    /// Whether readable readiness is watched.
    pub fn is_readable(self) -> (held: bool)
        ensures
            held == self.readable(),
    {
        match self {
            InterestSet::Writable => false,
            _ => true,
        }
    }

    /// Whether writable readiness is watched.
    pub fn is_writable(self) -> (held: bool)
        ensures
            held == self.writable(),
    {
        match self {
            InterestSet::Readable => false,
            _ => true,
        }
    }
}

} // verus!
