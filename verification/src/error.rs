//! Why an operation of the adapter failed.

use vstd::prelude::*;

verus! {

/// `zmq::Error`, the error code that a ZeroMQ call reports. Nothing is assumed of it.
#[verifier::external_type_specification]
#[verifier::external_body]
pub struct ExZmqError(zmq::Error);

/// The failure of one adapter operation over a registry that fails with `F`.
///
/// Either cause is handed on as it came, without a second try.
#[derive(Debug)]
pub enum AdapterError<F> {
    /// The socket could not produce its readiness descriptor.
    DescriptorUnavailable(zmq::Error),
    /// The registry turned the request down.
    RegistrationFailed(F),
}

} // verus!
