//! What holds of the adapter over an in-memory table, whatever the socket,
//! the token and the interests.

use vstd::prelude::*;
use crate::error::AdapterError;
use crate::interest::InterestSet;
use crate::source::{Operation, ZmqSocket};
use crate::table::{watched, Registration, RegistrationTable, TableError};

verus! {

/// Whether the socket had a descriptor to give when `result` came about.
pub open spec fn answered(result: Result<(), AdapterError<TableError>>) -> bool {
    !(result matches Err(AdapterError::DescriptorUnavailable(_)))
}

/// A socket that answers can be registered exactly when its token is free
/// and it is not entered yet. Deregistering it right after then succeeds and
/// leaves the table as it was before, so without an entry for the token.
pub proof fn law_register_then_deregister(
    socket: ZmqSocket,
    token: usize,
    interests: InterestSet,
    before: RegistrationTable,
    between: RegistrationTable,
    after: RegistrationTable,
    registered: Result<(), AdapterError<TableError>>,
    deregistered: Result<(), AdapterError<TableError>>,
)
    requires
        socket.performed(Operation::Register { token, interests }, &before, &between, registered),
        socket.performed(Operation::Deregister, &between, &after, deregistered),
        answered(registered),
        answered(deregistered),
    ensures
        registered is Ok <==> !before@.contains_key(token) && !watched(before@, socket.descriptor()),
        registered is Ok ==> deregistered is Ok && after@ == before@ && !after@.contains_key(token),
{
    if registered is Ok {
        let entered = Registration { descriptor: socket.descriptor(), interests };
        assert(between@ == before@.insert(token, entered));
        assert(between@.contains_key(token) && between@[token].descriptor == socket.descriptor());
        lemma_fresh_token(before@, token, entered);
        assert(after@ =~= before@);
    }
}

/// Once a socket is registered, a change finds its registration: the socket
/// names the descriptor it was entered with. The change succeeds exactly
/// when it keeps the token or moves to a free one, it never fails for want
/// of a registration, and it replaces the entry by one for the same
/// descriptor.
pub proof fn law_reregister_finds_registration(
    socket: ZmqSocket,
    token: usize,
    interests: InterestSet,
    new_token: usize,
    new_interests: InterestSet,
    before: RegistrationTable,
    between: RegistrationTable,
    after: RegistrationTable,
    registered: Result<(), AdapterError<TableError>>,
    reregistered: Result<(), AdapterError<TableError>>,
)
    requires
        socket.performed(Operation::Register { token, interests }, &before, &between, registered),
        socket.performed(
            Operation::Reregister { token: new_token, interests: new_interests },
            &between,
            &after,
            reregistered,
        ),
        registered is Ok,
        answered(reregistered),
    ensures
        reregistered is Ok <==> new_token == token || !before@.contains_key(new_token),
        reregistered matches Err(AdapterError::RegistrationFailed(failure)) ==> failure
            == TableError::TokenInUse,
        reregistered is Ok ==> after@ == before@.insert(
            new_token,
            Registration { descriptor: socket.descriptor(), interests: new_interests },
        ),
        reregistered is Err ==> after@ == between@,
{
    let entered = Registration { descriptor: socket.descriptor(), interests };
    assert(between@ == before@.insert(token, entered));
    assert(between@.contains_key(token) && between@[token].descriptor == socket.descriptor());
    lemma_fresh_token(before@, token, entered);
    if reregistered is Ok {
        assert(after@ =~= before@.insert(
            new_token,
            Registration { descriptor: socket.descriptor(), interests: new_interests },
        ));
    }
}

/// A change or a removal for a socket that is not entered fails, with
/// `NotRegistered` where the socket answered, and leaves the table as it
/// was.
pub proof fn law_unregistered_is_refused(
    socket: ZmqSocket,
    operation: Operation,
    before: RegistrationTable,
    after: RegistrationTable,
    result: Result<(), AdapterError<TableError>>,
)
    requires
        !(operation is Register),
        !watched(before@, socket.descriptor()),
        socket.performed(operation, &before, &after, result),
    ensures
        result is Err,
        answered(result) ==> result == Err::<(), AdapterError<TableError>>(
            AdapterError::RegistrationFailed(TableError::NotRegistered),
        ),
        after@ == before@,
{
}

/// In a table that gained the entry of a descriptor it did not watch, the
/// descriptor is watched under the new token and no other.
proof fn lemma_fresh_token(entries: Map<usize, Registration>, token: usize, entered: Registration)
    requires
        !watched(entries, entered.descriptor),
    ensures
        watched(entries.insert(token, entered), entered.descriptor),
        crate::table::token_of(entries.insert(token, entered), entered.descriptor) == token,
{
    let grown = entries.insert(token, entered);
    assert(grown.contains_key(token) && grown[token].descriptor == entered.descriptor);
    let found = crate::table::token_of(grown, entered.descriptor);
    if found != token {
        assert(entries.contains_key(found) && entries[found].descriptor == entered.descriptor);
    }
}

} // verus!
