//! What the adapter asks of a registry.

use vstd::prelude::*;
use crate::interest::InterestSet;

verus! {

/// One request to a registry, for the descriptor it concerns.
pub enum Request {
    /// Start watching the descriptor under a token.
    Register { descriptor: i32, token: usize, interests: InterestSet },
    /// Change the token or the interests of a watched descriptor.
    Reregister { descriptor: i32, token: usize, interests: InterestSet },
    /// Stop watching the descriptor.
    Deregister { descriptor: i32 },
}

/// A keeper of registrations: something that readiness descriptors are entered in.
pub trait Registrar: Sized {
    /// Why the registry turned a request down.
    type Failure;

    /// Whether serving `request` may take the registry from `self` to `after`
    /// with the given outcome.
    spec fn serves(&self, request: Request, after: &Self, outcome: Result<(), Self::Failure>) -> bool;

    /// Enters `descriptor` under `token`, watched for `interests`.
    fn register(&mut self, descriptor: i32, token: usize, interests: InterestSet) -> (outcome: Result<(), Self::Failure>)
        ensures
            old(self).serves(Request::Register { descriptor, token, interests }, final(self), outcome),
    ;

    /// Replaces the token and the interests that `descriptor` is entered with.
    fn reregister(&mut self, descriptor: i32, token: usize, interests: InterestSet) -> (outcome: Result<(), Self::Failure>)
        ensures
            old(self).serves(Request::Reregister { descriptor, token, interests }, final(self), outcome),
    ;

    /// Removes the entry of `descriptor`.
    fn deregister(&mut self, descriptor: i32) -> (outcome: Result<(), Self::Failure>)
        ensures
            old(self).serves(Request::Deregister { descriptor }, final(self), outcome),
    ;
}

} // verus!
