//! The start of a session with a DNS-over-HTTP/3 server.
//!
//! A start is a sequence of pieces of outside work:
//! [`DoH3ServerConnectionContainer::begin_session`] names the first one and
//! [`DoH3ServerConnectionContainer::advance_session`] takes the outcome of one and names the next.

use crate::backend::connection::{
    ConnectionState, DoH3ServerConnectionContainer, DoH3ServerSession,
};
use vstd::prelude::*;

verus! {

/// The number of bytes in the source connection ID of a session.
pub const CONNECTION_ID_LEN: usize = 20;

/// The possible errors when a request is forwarded.
#[derive(Clone, Copy, Debug, PartialEq, Eq, Structural)]
pub enum DnsBackendError {
    /// A socket or the QUIC connection over it could not be used.
    SocketFailure,
    /// There is no such server, or the socket has no address.
    InvalidAddress,
    /// There were no random bytes for a connection ID.
    RandomGenerationFailure,
}

/// The declaration of the error of `getrandom::fill`.
#[verifier::external_type_specification]
#[verifier::external_body]
pub struct ExRandomError(getrandom::Error);

/// Calls `getrandom::fill`, which overwrites a buffer with random bytes.
///
/// Claimed of it: the buffer keeps its length, and an empty buffer is filled without fail. The bytes
/// are random, and after an error they are whatever they are.
#[verifier::external_body]
fn fill_random(buffer: &mut Vec<u8>) -> (filled: Result<(), getrandom::Error>)
    ensures
        final(buffer)@.len() == old(buffer)@.len(),
        old(buffer)@.len() == 0 ==> filled is Ok,
{
    getrandom::fill(buffer)
}

/// Generates a random source connection ID. Whether that works is up to the system.
pub fn draw_connection_id() -> (id: Result<Vec<u8>, DnsBackendError>)
    ensures
        match id {
            Ok(bytes) => bytes@.len() == CONNECTION_ID_LEN && bytes@.len() == 20,
            Err(error) => error == DnsBackendError::RandomGenerationFailure,
        },
{
    let mut bytes: Vec<u8> = vec![0u8; CONNECTION_ID_LEN];
    match fill_random(&mut bytes) {
        Ok(_) => Ok(bytes),
        Err(_) => Err(DnsBackendError::RandomGenerationFailure),
    }
}

/// A piece of outside work that the start of a session asks for.
pub enum SessionWork {
    /// Bind a socket. Outcome: `Done` or `Failed`.
    BindSocket,
    /// Keep the socket's traffic out of the VPN. Outcome: `Done` or `Failed`.
    ProtectSocket,
    /// Draw a source connection ID. Outcome: `ConnectionId`.
    DrawConnectionId,
    /// Ask for the local address of the socket. Outcome: `Done` or `Failed`.
    ReadLocalAddress(Vec<u8>),
    /// Create the QUIC connection under this source connection ID. Outcome: `Done` or `Failed`.
    Connect(Vec<u8>),
    /// Ask the QUIC connection for the handshake. Outcome: `Done` or `Failed`.
    WriteHandshake,
    /// Send the handshake. Outcome: `Done`, `WouldBlock` or `Failed`.
    SendHandshake,
    /// The start is over.
    Return(Result<(), DnsBackendError>),
}

/// The outcome of a piece of outside work.
pub enum SessionOutcome {
    Done,
    WouldBlock,
    Failed,
    /// What [`draw_connection_id`] returned.
    ConnectionId(Result<Vec<u8>, DnsBackendError>),
}

/// Whether `outcome` is an outcome of `work`.
pub open spec fn accepts(work: SessionWork, outcome: SessionOutcome) -> bool {
    match work {
        SessionWork::DrawConnectionId => outcome is ConnectionId,
        SessionWork::SendHandshake => outcome is Done || outcome is WouldBlock || outcome is Failed,
        SessionWork::Return(_) => false,
        _ => outcome is Done || outcome is Failed,
    }
}

/// The session that stands once the handshake is on its way.
pub open spec fn fresh_session() -> DoH3ServerSession {
    DoH3ServerSession { socket: true, socket_registered: false, http3: false }
}

/// The state of the connection and the next piece of work after `work` had the outcome `outcome`.
/// The session stands only once every piece of work succeeded.
pub open spec fn next(state: ConnectionState, work: SessionWork, outcome: SessionOutcome) -> (
    ConnectionState,
    SessionWork,
) {
    match (work, outcome) {
        (SessionWork::BindSocket, SessionOutcome::Done) => (state, SessionWork::ProtectSocket),
        (SessionWork::ProtectSocket, SessionOutcome::Done) => (
            state,
            SessionWork::DrawConnectionId,
        ),
        (SessionWork::DrawConnectionId, SessionOutcome::ConnectionId(Ok(id))) => (
            state,
            SessionWork::ReadLocalAddress(id),
        ),
        (SessionWork::DrawConnectionId, SessionOutcome::ConnectionId(Err(error))) => (
            state,
            SessionWork::Return(Err(error)),
        ),
        (SessionWork::ReadLocalAddress(id), SessionOutcome::Done) => (
            state,
            SessionWork::Connect(id),
        ),
        (SessionWork::ReadLocalAddress(_), SessionOutcome::Failed) => (
            state,
            SessionWork::Return(Err(DnsBackendError::InvalidAddress)),
        ),
        (SessionWork::Connect(_), SessionOutcome::Done) => (state, SessionWork::WriteHandshake),
        (SessionWork::WriteHandshake, SessionOutcome::Done) => (state, SessionWork::SendHandshake),
        (SessionWork::SendHandshake, SessionOutcome::Done) => (
            ConnectionState { session: Some(fresh_session()), ..state },
            SessionWork::Return(Ok(())),
        ),
        (SessionWork::SendHandshake, SessionOutcome::WouldBlock) => (
            state,
            SessionWork::SendHandshake,
        ),
        (_, SessionOutcome::Failed) => (
            state,
            SessionWork::Return(Err(DnsBackendError::SocketFailure)),
        ),
        _ => (state, work),
    }
}

impl DoH3ServerConnectionContainer {
    /// Starts a session unless there is one; names the first piece of work.
    pub fn begin_session(&self) -> (work: SessionWork)
        ensures
            work == (if self@.session is Some {
                SessionWork::Return(Ok(()))
            } else {
                SessionWork::BindSocket
            }),
    {
        if self.active_session.is_some() {
            SessionWork::Return(Ok(()))
        } else {
            SessionWork::BindSocket
        }
    }

    /// Takes the outcome of a piece of work and names the next one.
    pub fn advance_session(&mut self, work: SessionWork, outcome: SessionOutcome) -> (following:
        SessionWork)
        requires
            accepts(work, outcome),
        ensures
            (final(self)@, following) == next(old(self)@, work, outcome),
            final(self).server == old(self).server,
            final(self).token == old(self).token,
    {
        match outcome {
            SessionOutcome::Done => match work {
                SessionWork::BindSocket => SessionWork::ProtectSocket,
                SessionWork::ProtectSocket => SessionWork::DrawConnectionId,
                SessionWork::ReadLocalAddress(id) => SessionWork::Connect(id),
                SessionWork::Connect(_) => SessionWork::WriteHandshake,
                SessionWork::WriteHandshake => SessionWork::SendHandshake,
                SessionWork::SendHandshake => {
                    self.active_session = Some(
                        DoH3ServerSession { socket: true, socket_registered: false, http3: false },
                    );
                    SessionWork::Return(Ok(()))
                },
                other => other,
            },
            SessionOutcome::WouldBlock => work,
            SessionOutcome::Failed => match work {
                SessionWork::ReadLocalAddress(_) => SessionWork::Return(
                    Err(DnsBackendError::InvalidAddress),
                ),
                _ => SessionWork::Return(Err(DnsBackendError::SocketFailure)),
            },
            SessionOutcome::ConnectionId(drawn) => match drawn {
                Ok(id) => SessionWork::ReadLocalAddress(id),
                Err(error) => SessionWork::Return(Err(error)),
            },
        }
    }
}

/// A start changes the connection only at its very end, when the handshake is on its way; a start
/// that fails leaves the connection as it was.
pub proof fn law_session_stands_at_the_end(
    state: ConnectionState,
    work: SessionWork,
    outcome: SessionOutcome,
)
    requires
        accepts(work, outcome),
    ensures
        ({
            let (after, following) = next(state, work, outcome);
            if following == SessionWork::Return(Ok(())) {
                &&& work is SendHandshake
                &&& after == (ConnectionState { session: Some(fresh_session()), ..state })
            } else {
                after == state
            }
        }),
{
}

/// How far a start is.
pub open spec fn start_stage(work: SessionWork) -> int {
    match work {
        SessionWork::BindSocket => 0,
        SessionWork::ProtectSocket => 1,
        SessionWork::DrawConnectionId => 2,
        SessionWork::ReadLocalAddress(_) => 3,
        SessionWork::Connect(_) => 4,
        SessionWork::WriteHandshake => 5,
        SessionWork::SendHandshake => 6,
        SessionWork::Return(_) => 7,
    }
}

/// A start goes on with every piece of work, except that the handshake is sent again for as long as
/// the socket would block.
pub proof fn law_start_goes_on(
    state: ConnectionState,
    work: SessionWork,
    outcome: SessionOutcome,
)
    requires
        accepts(work, outcome),
    ensures
        outcome is WouldBlock ==> next(state, work, outcome) == (state, work),
        !(outcome is WouldBlock) ==> start_stage(work) < start_stage(
            next(state, work, outcome).1,
        ),
{
}

/// The QUIC connection is made under the connection ID that was drawn.
pub proof fn law_drawn_id_is_used(state: ConnectionState, id: Vec<u8>)
    ensures
        ({
            let drawn = SessionOutcome::ConnectionId(Ok(id));
            let (after, following) = next(state, SessionWork::DrawConnectionId, drawn);
            next(after, following, SessionOutcome::Done) == (state, SessionWork::Connect(id))
        }),
{
}

/// Where a start is after its pieces of work had these outcomes.
pub open spec fn reached(start: ConnectionState, outcomes: Seq<SessionOutcome>) -> (
    ConnectionState,
    SessionWork,
)
    decreases outcomes.len(),
{
    if outcomes.len() == 0 {
        (
            start,
            if start.session is Some {
                SessionWork::Return(Ok(()))
            } else {
                SessionWork::BindSocket
            },
        )
    } else {
        let (state, work) = reached(start, outcomes.drop_last());
        next(state, work, outcomes.last())
    }
}

/// Whether these are the outcomes of a start, or of the first part of one.
pub open spec fn is_start(start: ConnectionState, outcomes: Seq<SessionOutcome>) -> bool
    decreases outcomes.len(),
{
    outcomes.len() == 0 || {
        &&& is_start(start, outcomes.drop_last())
        &&& accepts(reached(start, outcomes.drop_last()).1, outcomes.last())
    }
}

/// The error of a start that fails with the outcome `outcome` of `work`.
pub open spec fn start_error(work: SessionWork, outcome: SessionOutcome) -> DnsBackendError {
    match (work, outcome) {
        (_, SessionOutcome::ConnectionId(Err(error))) => error,
        (SessionWork::ReadLocalAddress(_), _) => DnsBackendError::InvalidAddress,
        _ => DnsBackendError::SocketFailure,
    }
}

/// What every start comes to: a session stands once it succeeds, the one that was there or a fresh
/// one; where it fails the connection is as it was, and the error tells of the piece of work that
/// failed.
pub proof fn law_every_start(
    start: ConnectionState,
    outcomes: Seq<SessionOutcome>,
    result: Result<(), DnsBackendError>,
)
    requires
        is_start(start, outcomes),
        reached(start, outcomes).1 == SessionWork::Return(result),
    ensures
        reached(start, outcomes).0 == if result is Ok && start.session is None {
            ConnectionState { session: Some(fresh_session()), ..start }
        } else {
            start
        },
        result matches Err(error) ==> {
            &&& outcomes.len() > 0
            &&& error == start_error(
                reached(start, outcomes.drop_last()).1,
                outcomes.last(),
            )
        },
        start.session is Some ==> result is Ok && outcomes.len() == 0,
{
    lemma_start_on_course(start, outcomes);
}

proof fn lemma_start_on_course(start: ConnectionState, outcomes: Seq<SessionOutcome>)
    requires
        is_start(start, outcomes),
    ensures
        ({
            let (state, work) = reached(start, outcomes);
            &&& outcomes.len() > 0 ==> start.session is None
            &&& if work == SessionWork::Return(Ok(())) && start.session is None {
                state == (ConnectionState { session: Some(fresh_session()), ..start })
            } else {
                state == start
            }
            &&& work matches SessionWork::Return(Err(error)) ==> outcomes.len() > 0 && error
                == start_error(reached(start, outcomes.drop_last()).1, outcomes.last())
        }),
    decreases outcomes.len(),
{
    if outcomes.len() > 0 {
        let before = outcomes.drop_last();
        lemma_start_on_course(start, before);
        let (state, work) = reached(start, before);
        law_session_stands_at_the_end(state, work, outcomes.last());
    }
}

} // verus!
