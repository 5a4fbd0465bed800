//! What the pieces of work of the start of a session are for.

use crate::backend::connection::ConnectionState;
use crate::backend::session;
use crate::backend::session::{DnsBackendError, SessionOutcome, SessionWork};
use vstd::prelude::*;

verus! {

/// Every outcome that the outside can report is one that the start takes, whatever it carries.
pub proof fn law_start_takes_every_outcome(
    id: Vec<u8>,
    drawn: Result<Vec<u8>, DnsBackendError>,
)
    ensures
        session::accepts(SessionWork::BindSocket, SessionOutcome::Done),
        session::accepts(SessionWork::BindSocket, SessionOutcome::Failed),
        session::accepts(SessionWork::ProtectSocket, SessionOutcome::Done),
        session::accepts(SessionWork::ProtectSocket, SessionOutcome::Failed),
        session::accepts(SessionWork::DrawConnectionId, SessionOutcome::ConnectionId(drawn)),
        session::accepts(SessionWork::ReadLocalAddress(id), SessionOutcome::Done),
        session::accepts(SessionWork::ReadLocalAddress(id), SessionOutcome::Failed),
        session::accepts(SessionWork::Connect(id), SessionOutcome::Done),
        session::accepts(SessionWork::Connect(id), SessionOutcome::Failed),
        session::accepts(SessionWork::WriteHandshake, SessionOutcome::Done),
        session::accepts(SessionWork::WriteHandshake, SessionOutcome::Failed),
        session::accepts(SessionWork::SendHandshake, SessionOutcome::Done),
        session::accepts(SessionWork::SendHandshake, SessionOutcome::WouldBlock),
        session::accepts(SessionWork::SendHandshake, SessionOutcome::Failed),
{
}

/// A socket is bound and kept out of the VPN before anything goes over it; then a connection ID is
/// drawn, the socket's address is asked for, and the QUIC connection is made under the ID that was
/// drawn, whatever it is; then the handshake is written, and sent until the socket takes it. Nothing of
/// that changes the connection.
pub proof fn law_order_of_a_start(state: ConnectionState, id: Vec<u8>)
    ensures
        session::next(state, SessionWork::BindSocket, SessionOutcome::Done) == (
            state,
            SessionWork::ProtectSocket,
        ),
        session::next(state, SessionWork::ProtectSocket, SessionOutcome::Done) == (
            state,
            SessionWork::DrawConnectionId,
        ),
        session::next(
            state,
            SessionWork::DrawConnectionId,
            SessionOutcome::ConnectionId(Ok(id)),
        ) == (state, SessionWork::ReadLocalAddress(id)),
        session::next(state, SessionWork::ReadLocalAddress(id), SessionOutcome::Done) == (
            state,
            SessionWork::Connect(id),
        ),
        session::next(state, SessionWork::Connect(id), SessionOutcome::Done) == (
            state,
            SessionWork::WriteHandshake,
        ),
        session::next(state, SessionWork::WriteHandshake, SessionOutcome::Done) == (
            state,
            SessionWork::SendHandshake,
        ),
        session::next(state, SessionWork::SendHandshake, SessionOutcome::WouldBlock) == (
            state,
            SessionWork::SendHandshake,
        ),
{
}

/// Once the handshake was sent a session stands, with its socket, which the poller does not know yet,
/// and without HTTP/3; what waits to be sent or answered is as it was.
pub proof fn law_session_after_the_handshake(state: ConnectionState)
    ensures
        ({
            let (after, following) = session::next(
                state,
                SessionWork::SendHandshake,
                SessionOutcome::Done,
            );
            &&& following == SessionWork::Return(Ok(()))
            &&& after.session is Some
            &&& after.session->0.socket
            &&& !after.session->0.socket_registered
            &&& !after.session->0.http3
            &&& after.requests == state.requests
            &&& after.packets == state.packets
            &&& after.streams == state.streams
        }),
{
}

/// A start that fails says why: without a connection ID it gives the error of the draw, without a local
/// address the address is invalid, and everything else is a failure of the socket. The connection is
/// as it was.
pub proof fn law_errors_of_a_start(state: ConnectionState, id: Vec<u8>, error: DnsBackendError)
    ensures
        session::next(
            state,
            SessionWork::DrawConnectionId,
            SessionOutcome::ConnectionId(Err(error)),
        ) == (state, SessionWork::Return(Err(error))),
        session::next(state, SessionWork::ReadLocalAddress(id), SessionOutcome::Failed) == (
            state,
            SessionWork::Return(Err(DnsBackendError::InvalidAddress)),
        ),
        session::next(state, SessionWork::BindSocket, SessionOutcome::Failed) == (
            state,
            SessionWork::Return(Err(DnsBackendError::SocketFailure)),
        ),
        session::next(state, SessionWork::ProtectSocket, SessionOutcome::Failed) == (
            state,
            SessionWork::Return(Err(DnsBackendError::SocketFailure)),
        ),
        session::next(state, SessionWork::Connect(id), SessionOutcome::Failed) == (
            state,
            SessionWork::Return(Err(DnsBackendError::SocketFailure)),
        ),
        session::next(state, SessionWork::WriteHandshake, SessionOutcome::Failed) == (
            state,
            SessionWork::Return(Err(DnsBackendError::SocketFailure)),
        ),
        session::next(state, SessionWork::SendHandshake, SessionOutcome::Failed) == (
            state,
            SessionWork::Return(Err(DnsBackendError::SocketFailure)),
        ),
{
}

} // verus!
