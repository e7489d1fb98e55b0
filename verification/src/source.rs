//! The adapter that presents a ZeroMQ socket to a registry.
//!
//! Each operation asks the socket for its readiness descriptor and hands the
//! descriptor to the registry. The adapter keeps nothing but the socket, tries
//! nothing twice and passes every failure on as it came.

use vstd::prelude::*;
use crate::error::AdapterError;
use crate::interest::InterestSet;
use crate::registry::{Registrar, Request};

verus! {

/// `zmq::Socket`, a ZeroMQ socket. Nothing is assumed of what it holds.
#[verifier::external_type_specification]
#[verifier::external_body]
pub struct ExSocket(zmq::Socket);

/// The descriptor that `zmq::Socket::get_fd` names for a socket whenever it
/// names one: the socket gets it when it is created and keeps it until it is
/// closed.
pub uninterp spec fn readiness_descriptor(socket: zmq::Socket) -> i32;

/// Calls `zmq::Socket::get_fd`, which returns for every socket. The socket
/// may fail to answer, as it does once its context has been terminated; when
/// it answers, it names its one descriptor.
#[verifier::external_body]
fn fetch_descriptor(socket: &zmq::Socket) -> (fetched: Result<i32, zmq::Error>)
    ensures
        fetched matches Ok(descriptor) ==> descriptor == readiness_descriptor(*socket),
{
    socket.get_fd()
}

/// What the adapter can be asked to do.
pub enum Operation {
    /// Begin monitoring under a token.
    Register { token: usize, interests: InterestSet },
    /// Change the token or the interests.
    Reregister { token: usize, interests: InterestSet },
    /// End monitoring.
    Deregister,
}

impl Operation {
    /// The request that the registry receives for `descriptor`.
    pub open spec fn request(self, descriptor: i32) -> Request {
        match self {
            Operation::Register { token, interests } => Request::Register { descriptor, token, interests },
            Operation::Reregister { token, interests } => Request::Reregister { descriptor, token, interests },
            Operation::Deregister => Request::Deregister { descriptor },
        }
    }
}

/// Whether `result` and the registry `after` can come of `operation` on the
/// registry `before`, given what the socket answered.
///
/// Without a descriptor the registry is left alone and the socket's error is
/// the result. With one, the registry serves the request for exactly that
/// descriptor, and its outcome is the result.
pub open spec fn attempted<R: Registrar>(
    fetched: Result<i32, zmq::Error>,
    operation: Operation,
    before: &R,
    after: &R,
    result: Result<(), AdapterError<R::Failure>>,
) -> bool {
    match fetched {
        Err(e) => *after == *before && result == Err::<(), AdapterError<R::Failure>>(
            AdapterError::DescriptorUnavailable(e),
        ),
        Ok(descriptor) => match result {
            Ok(done) => before.serves(operation.request(descriptor), after, Ok(done)),
            Err(AdapterError::RegistrationFailed(failure)) => before.serves(
                operation.request(descriptor),
                after,
                Err(failure),
            ),
            Err(AdapterError::DescriptorUnavailable(_)) => false,
        },
    }
}

/// Carries out `operation` on `registry` with what the socket answered.
pub fn attempt<R: Registrar>(fetched: Result<i32, zmq::Error>, registry: &mut R, operation: Operation) -> (result:
    Result<(), AdapterError<R::Failure>>)
    ensures
        attempted(fetched, operation, old(registry), final(registry), result),
{
    let descriptor = match fetched {
        Ok(descriptor) => descriptor,
        Err(e) => {
            return Err(AdapterError::DescriptorUnavailable(e));
        },
    };
    let outcome = match operation {
        Operation::Register { token, interests } => registry.register(descriptor, token, interests),
        Operation::Reregister { token, interests } => registry.reregister(descriptor, token, interests),
        Operation::Deregister => registry.deregister(descriptor),
    };
    match outcome {
        Ok(done) => Ok(done),
        Err(failure) => Err(AdapterError::RegistrationFailed(failure)),
    }
}

/// A ZeroMQ socket that can be entered in a registry.
///
/// The adapter owns the socket but not its descriptor: it never closes the
/// descriptor, and the socket has to stay open for as long as it is entered.
pub struct ZmqSocket(pub zmq::Socket);

impl ZmqSocket {
    /// The descriptor that the socket names whenever it names one.
    pub open spec fn descriptor(&self) -> i32 {
        readiness_descriptor(self.0)
    }

    /// Whether `result` and the registry `after` can come of `operation` on
    /// the registry `before`.
    ///
    /// Either the socket had no descriptor to give and the registry is as it
    /// was, or the registry served the request for the socket's descriptor.
    pub open spec fn performed<R: Registrar>(
        &self,
        operation: Operation,
        before: &R,
        after: &R,
        result: Result<(), AdapterError<R::Failure>>,
    ) -> bool {
        match result {
            Err(AdapterError::DescriptorUnavailable(_)) => *after == *before,
            _ => attempted(Ok(self.descriptor()), operation, before, after, result),
        }
    }

    /// Begins monitoring the socket under `token` for `interests`.
    pub fn register<R: Registrar>(&mut self, registry: &mut R, token: usize, interests: InterestSet) -> (result:
        Result<(), AdapterError<R::Failure>>)
        ensures
            *final(self) == *old(self),
            old(self).performed(Operation::Register { token, interests }, old(registry), final(registry), result),
    {
        let fetched = fetch_descriptor(&self.0);
        attempt(fetched, registry, Operation::Register { token, interests })
    }

    /// Changes the token or the interests that the socket is monitored with.
    pub fn reregister<R: Registrar>(&mut self, registry: &mut R, token: usize, interests: InterestSet) -> (result:
        Result<(), AdapterError<R::Failure>>)
        ensures
            *final(self) == *old(self),
            old(self).performed(Operation::Reregister { token, interests }, old(registry), final(registry), result),
    {
        let fetched = fetch_descriptor(&self.0);
        attempt(fetched, registry, Operation::Reregister { token, interests })
    }

    /// Ends the monitoring of the socket. To be called before the socket is
    /// closed.
    pub fn deregister<R: Registrar>(&mut self, registry: &mut R) -> (result: Result<
        (),
        AdapterError<R::Failure>,
    >)
        ensures
            *final(self) == *old(self),
            old(self).performed(Operation::Deregister, old(registry), final(registry), result),
    {
        let fetched = fetch_descriptor(&self.0);
        attempt(fetched, registry, Operation::Deregister)
    }
}

} // verus!
