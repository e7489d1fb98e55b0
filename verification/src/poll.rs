//! The registry of a `mio` poll instance, which hands registrations to the
//! operating system's selector.

use vstd::prelude::*;
use crate::interest::InterestSet;
use crate::registry::{Registrar, Request};

verus! {

/// `mio::Registry`, the registration handle of a poll instance. Nothing is
/// assumed of what it holds.
#[verifier::external_type_specification]
#[verifier::external_body]
pub struct ExPollRegistry(mio::Registry);

/// `mio::Interest`, the selector's own set of readiness directions. What it
/// holds is known only through `interest_flags`.
#[verifier::external_type_specification]
#[verifier::external_body]
pub struct ExPollInterest(mio::Interest);

/// `std::io::Error`, the error that the selector reports. Nothing is assumed
/// of it.
#[verifier::external_type_specification]
#[verifier::external_body]
pub struct ExIoError(std::io::Error);

/// The flags that a `mio::Interest` holds, as `mio` keeps them in the one
/// field of the type: 1 is the readable flag, which
/// `mio::Interest::is_readable` tests, and 2 the writable flag, which
/// `mio::Interest::is_writable` tests.
pub uninterp spec fn interest_flags(interest: mio::Interest) -> u8;

/// Gives `mio::Interest::READABLE`, which holds the readable flag and no
/// other.
#[verifier::external_body]
fn readable_interest() -> (interest: mio::Interest)
    ensures
        interest_flags(interest) == 1,
{
    mio::Interest::READABLE
}

/// Gives `mio::Interest::WRITABLE`, which holds the writable flag and no
/// other.
#[verifier::external_body]
fn writable_interest() -> (interest: mio::Interest)
    ensures
        interest_flags(interest) == 2,
{
    mio::Interest::WRITABLE
}

/// `mio::Interest::add` joins two sets of directions. It returns for every
/// pair, and the result holds the flags of both and no other.
pub assume_specification[ mio::Interest::add ](this: mio::Interest, other: mio::Interest) -> (joined:
    mio::Interest)
    ensures
        interest_flags(joined) == interest_flags(this) | interest_flags(other),
;

/// Calls `mio::Registry::register` for the descriptor, through a
/// `mio::unix::SourceFd`, which borrows the descriptor and never closes it.
/// The selector decides the outcome; nothing is claimed of it.
#[verifier::external_body]
fn poll_register(registry: &mio::Registry, descriptor: i32, token: usize, interests: mio::Interest) -> Result<
    (),
    std::io::Error,
> {
    registry.register(&mut mio::unix::SourceFd(&descriptor), mio::Token(token), interests)
}

/// Calls `mio::Registry::reregister` for the descriptor, through a
/// `mio::unix::SourceFd`. The selector decides the outcome; nothing is
/// claimed of it.
#[verifier::external_body]
fn poll_reregister(registry: &mio::Registry, descriptor: i32, token: usize, interests: mio::Interest) -> Result<
    (),
    std::io::Error,
> {
    registry.reregister(&mut mio::unix::SourceFd(&descriptor), mio::Token(token), interests)
}

/// Calls `mio::Registry::deregister` for the descriptor, through a
/// `mio::unix::SourceFd`. The selector decides the outcome; nothing is
/// claimed of it.
#[verifier::external_body]
fn poll_deregister(registry: &mio::Registry, descriptor: i32) -> Result<(), std::io::Error> {
    registry.deregister(&mut mio::unix::SourceFd(&descriptor))
}

/// The flags that stand for a set of directions in the selector: the
/// readable flag, the writable flag, or both of them.
pub open spec fn selector_flags(interests: InterestSet) -> u8 {
    match interests {
        InterestSet::Readable => 1,
        InterestSet::Writable => 2,
        InterestSet::Both => 3,
    }
}

/// The selector's set for the given directions: it holds the flag of each
/// direction of `interests` and no other.
fn selector_interest(interests: InterestSet) -> (selected: mio::Interest)
    ensures
        interest_flags(selected) == selector_flags(interests),
{
    match interests {
        InterestSet::Readable => readable_interest(),
        InterestSet::Writable => writable_interest(),
        InterestSet::Both => {
            assert(1u8 | 2u8 == 3u8) by (bit_vector);
            readable_interest().add(writable_interest())
        },
    }
}

/// A `mio` registry as a keeper of registrations.
///
/// Each request goes to the selector with the descriptor and the token as
/// they were given and with the selector's set for the interests. The
/// operating system holds the registrations and decides every outcome, so
/// nothing is known of an answer beyond the answer itself.
pub struct PollRegistrar<'a>(pub &'a mio::Registry);

impl<'a> Registrar for PollRegistrar<'a> {
    type Failure = std::io::Error;

    /// Every answer is possible.
    open spec fn serves(&self, request: Request, after: &Self, outcome: Result<(), std::io::Error>) -> bool {
        true
    }

    fn register(&mut self, descriptor: i32, token: usize, interests: InterestSet) -> (outcome: Result<
        (),
        std::io::Error,
    >) {
        poll_register(self.0, descriptor, token, selector_interest(interests))
    }

    fn reregister(&mut self, descriptor: i32, token: usize, interests: InterestSet) -> (outcome: Result<
        (),
        std::io::Error,
    >) {
        poll_reregister(self.0, descriptor, token, selector_interest(interests))
    }

    fn deregister(&mut self, descriptor: i32) -> (outcome: Result<(), std::io::Error>) {
        poll_deregister(self.0, descriptor)
    }
}

} // verus!
