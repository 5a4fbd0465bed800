//! What the pieces of work of a pass over a connection are for: what becomes of datagrams, requests,
//! responses and packets, stated over the connection's parts.

use crate::backend::connection;
use crate::backend::connection::{
    ConnectionOutcome, ConnectionState, ConnectionWork, DoH3ServerSession, Http3Error, Http3Event,
    QueuedDoH3Packet, TransportError,
};
use vstd::prelude::*;

verus! {

/// A pass goes on with the packets in the queue, or with new packets where the queue is empty.
pub open spec fn writes_next(state: ConnectionState, following: ConnectionWork) -> bool {
    if state.packets.len() == 0 {
        following == ConnectionWork::WritePacket
    } else {
        following == ConnectionWork::CheckPacketDue(0)
    }
}

/// A pass goes on with the requests in the queue, or with responses where the queue is empty.
pub open spec fn sends_next(state: ConnectionState, following: ConnectionWork) -> bool {
    if state.requests.len() == 0 {
        following == ConnectionWork::PollHttp3
    } else {
        following == ConnectionWork::SendRequest
    }
}

/// The session of `state` is over: nothing is left of it, and its socket, if it had one, is given
/// back.
pub open spec fn is_over(
    state: ConnectionState,
    after: ConnectionState,
    following: ConnectionWork,
) -> bool {
    &&& after.session is None
    &&& after.requests == Seq::<crate::backend::request::DoH3Request>::empty()
    &&& after.packets == Seq::<QueuedDoH3Packet>::empty()
    &&& after.streams == Map::<u64, crate::backend::request::DoH3Request>::empty()
    &&& following == ConnectionWork::SessionEnded(
        state.session is Some && state.session->0.socket,
    )
}

/// Every outcome that the outside can report is one that the pass takes, whatever it carries.
pub proof fn law_pass_takes_every_outcome(
    length: usize,
    stream: u64,
    index: usize,
    now: u128,
    timeout: Option<u128>,
    answer: bool,
    error: Http3Error,
    event: Http3Event,
    packet: QueuedDoH3Packet,
)
    ensures
        connection::accepts(ConnectionWork::ExpireRequests, ConnectionOutcome::Clock(now)),
        connection::accepts(ConnectionWork::QueryTimeout, ConnectionOutcome::Timeout(timeout)),
        connection::accepts(ConnectionWork::HandleTimeout, ConnectionOutcome::Done),
        connection::accepts(ConnectionWork::ReceiveDatagram, ConnectionOutcome::Received(length)),
        connection::accepts(ConnectionWork::ReceiveDatagram, ConnectionOutcome::WouldBlock),
        connection::accepts(ConnectionWork::ReceiveDatagram, ConnectionOutcome::Failed),
        connection::accepts(ConnectionWork::FeedDatagram(length), ConnectionOutcome::Done),
        connection::accepts(ConnectionWork::FeedDatagram(length), ConnectionOutcome::Failed),
        connection::accepts(ConnectionWork::QueryEstablished, ConnectionOutcome::Answer(answer)),
        connection::accepts(ConnectionWork::CreateHttp3, ConnectionOutcome::Done),
        connection::accepts(ConnectionWork::CreateHttp3, ConnectionOutcome::Failed),
        connection::accepts(ConnectionWork::SendRequest, ConnectionOutcome::RequestSent(stream)),
        connection::accepts(ConnectionWork::SendRequest, ConnectionOutcome::RequestRefused(error)),
        connection::accepts(ConnectionWork::PollHttp3, ConnectionOutcome::Event(stream, event)),
        connection::accepts(ConnectionWork::PollHttp3, ConnectionOutcome::Failed),
        connection::accepts(ConnectionWork::ReadBody(stream), ConnectionOutcome::Received(length)),
        connection::accepts(ConnectionWork::ReadBody(stream), ConnectionOutcome::Failed),
        connection::accepts(
            ConnectionWork::DeliverResponse(stream, length),
            ConnectionOutcome::Done,
        ),
        connection::accepts(ConnectionWork::CheckPacketDue(index), ConnectionOutcome::Clock(now)),
        connection::accepts(ConnectionWork::CheckPacketAge(index), ConnectionOutcome::Clock(now)),
        connection::accepts(ConnectionWork::SendQueuedPacket(index), ConnectionOutcome::Done),
        connection::accepts(ConnectionWork::SendQueuedPacket(index), ConnectionOutcome::WouldBlock),
        connection::accepts(ConnectionWork::SendQueuedPacket(index), ConnectionOutcome::Failed),
        connection::accepts(ConnectionWork::WritePacket, ConnectionOutcome::Packet(packet)),
        connection::accepts(ConnectionWork::WritePacket, ConnectionOutcome::Drained),
        connection::accepts(ConnectionWork::WritePacket, ConnectionOutcome::Failed),
        connection::accepts(ConnectionWork::CheckPacing(packet), ConnectionOutcome::Clock(now)),
        connection::accepts(ConnectionWork::SendPacket(packet), ConnectionOutcome::Done),
        connection::accepts(ConnectionWork::SendPacket(packet), ConnectionOutcome::WouldBlock),
        connection::accepts(ConnectionWork::SendPacket(packet), ConnectionOutcome::Failed),
        connection::accepts(ConnectionWork::CloseConnection, ConnectionOutcome::Done),
        connection::accepts(ConnectionWork::QueryClosed, ConnectionOutcome::Answer(answer)),
{
}

/// The pieces of work that a pass may ask for: whatever stream, length or packet they are about, what
/// counts is whether there is a session, its socket, its HTTP/3 connection, and what they work on.
pub proof fn law_work_within_a_pass(
    state: ConnectionState,
    stream: u64,
    length: usize,
    index: usize,
    packet: QueuedDoH3Packet,
)
    requires
        state.session is Some,
    ensures
        connection::in_pass(state, ConnectionWork::ExpireRequests),
        connection::in_pass(state, ConnectionWork::QueryTimeout),
        connection::in_pass(state, ConnectionWork::HandleTimeout),
        connection::in_pass(state, ConnectionWork::QueryEstablished),
        connection::in_pass(state, ConnectionWork::CreateHttp3),
        connection::in_pass(state, ConnectionWork::WritePacket),
        connection::in_pass(state, ConnectionWork::CheckPacing(packet)),
        connection::in_pass(state, ConnectionWork::CloseConnection),
        connection::in_pass(state, ConnectionWork::QueryClosed),
        state.session->0.socket ==> {
            &&& connection::in_pass(state, ConnectionWork::ReceiveDatagram)
            &&& connection::in_pass(state, ConnectionWork::FeedDatagram(length))
            &&& connection::in_pass(state, ConnectionWork::SendPacket(packet))
            &&& index < state.packets.len() ==> connection::in_pass(
                state,
                ConnectionWork::SendQueuedPacket(index),
            )
        },
        state.session->0.http3 ==> {
            &&& connection::in_pass(state, ConnectionWork::PollHttp3)
            &&& connection::in_pass(state, ConnectionWork::ReadBody(stream))
            &&& state.requests.len() > 0 ==> connection::in_pass(
                state,
                ConnectionWork::SendRequest,
            )
            &&& state.streams.contains_key(stream) ==> connection::in_pass(
                state,
                ConnectionWork::DeliverResponse(stream, length),
            )
        },
        index < state.packets.len() ==> {
            &&& connection::in_pass(state, ConnectionWork::CheckPacketDue(index))
            &&& connection::in_pass(state, ConnectionWork::CheckPacketAge(index))
        },
{
}

/// A request waits exactly as long as it is younger than eleven seconds; the look at the clock changes
/// nothing else, and the pass goes on.
pub proof fn law_clock_forgets_old_requests(state: ConnectionState, now: u128, stream: u64)
    ensures
        ({
            let (after, following) = connection::next(
                state,
                ConnectionWork::ExpireRequests,
                ConnectionOutcome::Clock(now),
            );
            &&& after.session == state.session
            &&& after.requests == state.requests
            &&& after.packets == state.packets
            &&& after.streams.contains_key(stream) <==> state.streams.contains_key(stream) && now
                < state.streams[stream].creation_time + 11_000_000_000
            &&& after.streams.contains_key(stream) ==> after.streams[stream]
                == state.streams[stream]
            &&& following == ConnectionWork::QueryTimeout
        }),
{
    if state.streams.contains_key(stream) {
        connection::law_request_time_out(state.streams, stream, now);
    }
}

/// Every datagram that is received is fed to the QUIC connection, with the length that was received,
/// and then the next one is looked for. A QUIC connection that timed out is told so, and nothing more
/// is read. A socket that is drained ends the reading; a broken or missing one ends the session.
pub proof fn law_datagrams_are_fed(state: ConnectionState, length: usize, timeout: Option<u128>)
    ensures
        connection::next(
            state,
            ConnectionWork::ReceiveDatagram,
            ConnectionOutcome::Received(length),
        ) == (state, ConnectionWork::FeedDatagram(length)),
        connection::next(
            state,
            ConnectionWork::FeedDatagram(length),
            ConnectionOutcome::Done,
        ) == (state, ConnectionWork::QueryTimeout),
        connection::next(
            state,
            ConnectionWork::FeedDatagram(length),
            ConnectionOutcome::Failed,
        ) == (state, ConnectionWork::QueryTimeout),
        connection::next(
            state,
            ConnectionWork::QueryTimeout,
            ConnectionOutcome::Timeout(Some(0)),
        ) == (state, ConnectionWork::HandleTimeout),
        connection::next(state, ConnectionWork::HandleTimeout, ConnectionOutcome::Done) == (
            state,
            ConnectionWork::QueryEstablished,
        ),
        timeout != Some(0u128) && state.session is Some && state.session->0.socket
            ==> connection::next(
            state,
            ConnectionWork::QueryTimeout,
            ConnectionOutcome::Timeout(timeout),
        ) == (state, ConnectionWork::ReceiveDatagram),
        timeout != Some(0u128) && !(state.session is Some && state.session->0.socket) ==> ({
            let (after, following) = connection::next(
                state,
                ConnectionWork::QueryTimeout,
                ConnectionOutcome::Timeout(timeout),
            );
            is_over(state, after, following)
        }),
        connection::next(state, ConnectionWork::ReceiveDatagram, ConnectionOutcome::WouldBlock) == (
            state,
            ConnectionWork::QueryEstablished,
        ),
        ({
            let (after, following) = connection::next(
                state,
                ConnectionWork::ReceiveDatagram,
                ConnectionOutcome::Failed,
            );
            is_over(state, after, following)
        }),
{
}

/// HTTP/3 is started once the QUIC connection is established and not before, and not twice. Requests
/// are sent where HTTP/3 runs; where it does not, the pass goes on with the packets.
pub proof fn law_http3_is_started(state: ConnectionState, session: DoH3ServerSession)
    requires
        state.session == Some(session),
    ensures
        ({
            let query = ConnectionWork::QueryEstablished;
            let (after, following) = connection::next(
                state,
                query,
                ConnectionOutcome::Answer(true),
            );
            &&& after == state
            &&& !session.http3 ==> following == ConnectionWork::CreateHttp3
            &&& session.http3 ==> sends_next(state, following)
        }),
        ({
            let query = ConnectionWork::QueryEstablished;
            let (after, following) = connection::next(
                state,
                query,
                ConnectionOutcome::Answer(false),
            );
            &&& after == state
            &&& session.http3 ==> sends_next(state, following)
            &&& !session.http3 ==> writes_next(state, following)
        }),
        ({
            let create = ConnectionWork::CreateHttp3;
            let (after, following) = connection::next(state, create, ConnectionOutcome::Done);
            &&& after.session is Some && after.session->0.http3
            &&& after.session->0.socket == session.socket
            &&& after.session->0.socket_registered == session.socket_registered
            &&& after.requests == state.requests
            &&& after.packets == state.packets
            &&& after.streams == state.streams
            &&& sends_next(state, following)
        }),
        ({
            let create = ConnectionWork::CreateHttp3;
            let (after, following) = connection::next(state, create, ConnectionOutcome::Failed);
            &&& after.session is Some && !after.session->0.http3
            &&& after.session->0.socket == session.socket
            &&& after.session->0.socket_registered == session.socket_registered
            &&& after.requests == state.requests
            &&& after.packets == state.packets
            &&& after.streams == state.streams
            &&& writes_next(state, following)
        }),
{
}

/// A request that was sent leaves the front of the queue and waits on its stream, whatever the stream;
/// those behind it, and those that wait on other streams, are as they were.
pub proof fn law_sent_request_moves_to_its_stream(
    state: ConnectionState,
    stream: u64,
    other: u64,
)
    requires
        state.requests.len() > 0,
    ensures
        ({
            let (after, following) = connection::next(
                state,
                ConnectionWork::SendRequest,
                ConnectionOutcome::RequestSent(stream),
            );
            &&& state.requests == seq![state.requests[0]] + after.requests
            &&& after.streams.contains_key(stream) && after.streams[stream] == state.requests[0]
            &&& other != stream ==> {
                &&& after.streams.contains_key(other) <==> state.streams.contains_key(other)
                &&& after.streams.contains_key(other) ==> after.streams[other]
                    == state.streams[other]
            }
            &&& after.session == state.session
            &&& after.packets == state.packets
            &&& sends_next(after, following)
        }),
{
    let after = connection::next(
        state,
        ConnectionWork::SendRequest,
        ConnectionOutcome::RequestSent(stream),
    ).0;
    assert(state.requests =~= seq![state.requests[0]] + after.requests);
}

/// Whether the server or the connection is past use after this refusal.
pub open spec fn is_fatal(error: Http3Error) -> bool {
    ||| error is InternalError
    ||| error is ClosedCriticalStream
    ||| error is FrameUnexpected
    ||| error == Http3Error::TransportError(TransportError::CryptoFail)
    ||| error == Http3Error::TransportError(TransportError::TlsFail)
    ||| error == Http3Error::TransportError(TransportError::StreamLimit)
    ||| error == Http3Error::TransportError(TransportError::KeyUpdate)
}

/// Whether the request may be sent later after this refusal.
pub open spec fn is_temporary(error: Http3Error) -> bool {
    ||| error is ExcessiveLoad
    ||| error is IdError
    ||| error is StreamCreationError
    ||| error is StreamBlocked
}

/// A refused request is not lost while it may be sent later: it stays in front of the queue, and the
/// pass goes on with the responses. After a fatal refusal the session is over. After any other one the
/// request alone is given up.
pub proof fn law_refused_requests(state: ConnectionState, error: Http3Error)
    requires
        state.requests.len() > 0,
    ensures
        ({
            let (after, following) = connection::next(
                state,
                ConnectionWork::SendRequest,
                ConnectionOutcome::RequestRefused(error),
            );
            if is_fatal(error) {
                is_over(state, after, following)
            } else if is_temporary(error) {
                after == state && following == ConnectionWork::PollHttp3
            } else {
                &&& state.requests == seq![state.requests[0]] + after.requests
                &&& after.session == state.session
                &&& after.packets == state.packets
                &&& after.streams == state.streams
                &&& sends_next(after, following)
            }
        }),
{
    let after = connection::next(
        state,
        ConnectionWork::SendRequest,
        ConnectionOutcome::RequestRefused(error),
    ).0;
    if !is_fatal(error) && !is_temporary(error) {
        assert(state.requests =~= seq![state.requests[0]] + after.requests);
    }
}

/// Every body that is read for a request that waits is handed out, whole and for its stream, and then
/// the rest of the body is read. A body that nobody waits for is read and thrown away. Once there is
/// nothing more to read, the pass goes on with the next event.
pub proof fn law_bodies_reach_their_requests(state: ConnectionState, stream: u64, length: usize)
    ensures
        connection::next(
            state,
            ConnectionWork::PollHttp3,
            ConnectionOutcome::Event(stream, Http3Event::Data),
        ) == (state, ConnectionWork::ReadBody(stream)),
        state.streams.contains_key(stream) ==> connection::next(
            state,
            ConnectionWork::ReadBody(stream),
            ConnectionOutcome::Received(length),
        ) == (state, ConnectionWork::DeliverResponse(stream, length)),
        !state.streams.contains_key(stream) ==> connection::next(
            state,
            ConnectionWork::ReadBody(stream),
            ConnectionOutcome::Received(length),
        ) == (state, ConnectionWork::ReadBody(stream)),
        connection::next(
            state,
            ConnectionWork::DeliverResponse(stream, length),
            ConnectionOutcome::Done,
        ) == (state, ConnectionWork::ReadBody(stream)),
        connection::next(state, ConnectionWork::ReadBody(stream), ConnectionOutcome::Failed) == (
            state,
            ConnectionWork::PollHttp3,
        ),
{
}

/// A stream that is finished or reset is done with, whatever the stream, and no other one is. Headers
/// and priorities change nothing. A server that goes away ends the session. Once there are no more
/// events, the pass goes on with the packets.
pub proof fn law_events_of_streams(state: ConnectionState, stream: u64, other: u64)
    ensures
        ({
            let poll = ConnectionWork::PollHttp3;
            let finished = ConnectionOutcome::Event(stream, Http3Event::Finished);
            let reset = ConnectionOutcome::Event(stream, Http3Event::Reset);
            let (after, following) = connection::next(state, poll, finished);
            &&& connection::next(state, poll, reset) == (after, following)
            &&& !after.streams.contains_key(stream)
            &&& other != stream ==> {
                &&& after.streams.contains_key(other) <==> state.streams.contains_key(other)
                &&& after.streams.contains_key(other) ==> after.streams[other]
                    == state.streams[other]
            }
            &&& after.session == state.session
            &&& after.requests == state.requests
            &&& after.packets == state.packets
            &&& following == ConnectionWork::PollHttp3
        }),
        connection::next(
            state,
            ConnectionWork::PollHttp3,
            ConnectionOutcome::Event(stream, Http3Event::Headers),
        ) == (state, ConnectionWork::PollHttp3),
        connection::next(
            state,
            ConnectionWork::PollHttp3,
            ConnectionOutcome::Event(stream, Http3Event::PriorityUpdate),
        ) == (state, ConnectionWork::PollHttp3),
        ({
            let (after, following) = connection::next(
                state,
                ConnectionWork::PollHttp3,
                ConnectionOutcome::Event(stream, Http3Event::GoAway),
            );
            is_over(state, after, following)
        }),
        ({
            let (after, following) = connection::next(
                state,
                ConnectionWork::PollHttp3,
                ConnectionOutcome::Failed,
            );
            after == state && writes_next(state, following)
        }),
{
}

/// Whether the pass goes on with the queued packet at `index`, or with new packets behind the last
/// one.
pub open spec fn looks_at(state: ConnectionState, index: int, following: ConnectionWork) -> bool {
    if index < state.packets.len() {
        following == ConnectionWork::CheckPacketDue(index as usize)
    } else {
        following == ConnectionWork::WritePacket
    }
}

/// Whether `after` is `state` without the queued packet at `index`, and the one behind it comes up.
pub open spec fn packet_is_gone(
    state: ConnectionState,
    index: int,
    after: ConnectionState,
    following: ConnectionWork,
) -> bool {
    &&& after.session == state.session
    &&& after.requests == state.requests
    &&& after.streams == state.streams
    &&& after.packets == state.packets.take(index) + state.packets.skip(index + 1)
    &&& looks_at(after, index, following)
}

/// A queued packet stays until it is due. One that is due is looked at again, and is sent if it is no
/// more than ten whole seconds late and there is a socket; otherwise it is dropped. One that would
/// block the socket stays; one that was sent, or could not be sent, is gone.
pub proof fn law_queued_packets(state: ConnectionState, index: usize, now: u128)
    requires
        index < state.packets.len(),
    ensures
        ({
            let at = state.packets[index as int].send_info.at;
            let (after, following) = connection::next(
                state,
                ConnectionWork::CheckPacketDue(index),
                ConnectionOutcome::Clock(now),
            );
            &&& after == state
            &&& now <= at ==> looks_at(state, index + 1, following)
            &&& now > at ==> following == ConnectionWork::CheckPacketAge(index)
        }),
        ({
            let at = state.packets[index as int].send_info.at;
            let (after, following) = connection::next(
                state,
                ConnectionWork::CheckPacketAge(index),
                ConnectionOutcome::Clock(now),
            );
            if now < at + 11_000_000_000 && state.session is Some && state.session->0.socket {
                after == state && following == ConnectionWork::SendQueuedPacket(index)
            } else {
                packet_is_gone(state, index as int, after, following)
            }
        }),
        ({
            let (after, following) = connection::next(
                state,
                ConnectionWork::SendQueuedPacket(index),
                ConnectionOutcome::WouldBlock,
            );
            after == state && looks_at(state, index + 1, following)
        }),
        ({
            let (after, following) = connection::next(
                state,
                ConnectionWork::SendQueuedPacket(index),
                ConnectionOutcome::Done,
            );
            packet_is_gone(state, index as int, after, following)
        }),
        ({
            let (after, following) = connection::next(
                state,
                ConnectionWork::SendQueuedPacket(index),
                ConnectionOutcome::Failed,
            );
            packet_is_gone(state, index as int, after, following)
        }),
{
    let at = state.packets[index as int].send_info.at;
    connection::lemma_whole_seconds(now, at, connection::PENDING_PACKET_TIMEOUT_SECONDS);
    assert(state.packets.remove(index as int) =~= state.packets.take(index as int)
        + state.packets.skip(index + 1));
}

/// A packet that the QUIC connection hands out is queued behind the others where it is not due, and is
/// sent as it is where it is due and there is a socket; then the next one is asked for. A socket that
/// would block ends the writing, and a broken one ends the session. A QUIC connection that cannot be
/// written is closed.
pub proof fn law_new_packets(state: ConnectionState, packet: QueuedDoH3Packet, now: u128)
    ensures
        connection::next(
            state,
            ConnectionWork::WritePacket,
            ConnectionOutcome::Packet(packet),
        ) == (state, ConnectionWork::CheckPacing(packet)),
        ({
            let (after, following) = connection::next(
                state,
                ConnectionWork::CheckPacing(packet),
                ConnectionOutcome::Clock(now),
            );
            &&& now <= packet.send_info.at ==> {
                &&& after.packets == state.packets + seq![packet]
                &&& after.session == state.session
                &&& after.requests == state.requests
                &&& after.streams == state.streams
                &&& following == ConnectionWork::WritePacket
            }
            &&& now > packet.send_info.at ==> after == state
            &&& now > packet.send_info.at && state.session is Some && state.session->0.socket
                ==> following == ConnectionWork::SendPacket(packet)
            &&& now > packet.send_info.at && !(state.session is Some && state.session->0.socket)
                ==> following == ConnectionWork::WritePacket
        }),
        connection::next(
            state,
            ConnectionWork::SendPacket(packet),
            ConnectionOutcome::Done,
        ) == (state, ConnectionWork::WritePacket),
        connection::next(
            state,
            ConnectionWork::SendPacket(packet),
            ConnectionOutcome::WouldBlock,
        ) == (state, ConnectionWork::QueryClosed),
        ({
            let (after, following) = connection::next(
                state,
                ConnectionWork::SendPacket(packet),
                ConnectionOutcome::Failed,
            );
            is_over(state, after, following)
        }),
        connection::next(state, ConnectionWork::WritePacket, ConnectionOutcome::Drained) == (
            state,
            ConnectionWork::QueryClosed,
        ),
        connection::next(state, ConnectionWork::WritePacket, ConnectionOutcome::Failed) == (
            state,
            ConnectionWork::CloseConnection,
        ),
        connection::next(state, ConnectionWork::CloseConnection, ConnectionOutcome::Done) == (
            state,
            ConnectionWork::QueryClosed,
        ),
{
    assert(state.packets.push(packet) =~= state.packets + seq![packet]);
}

/// The session of a QUIC connection that is closed is over at the end of the pass; any other session
/// goes on as it is.
pub proof fn law_closed_connection_ends_session(state: ConnectionState)
    ensures
        ({
            let (after, following) = connection::next(
                state,
                ConnectionWork::QueryClosed,
                ConnectionOutcome::Answer(true),
            );
            is_over(state, after, following)
        }),
        connection::next(state, ConnectionWork::QueryClosed, ConnectionOutcome::Answer(false)) == (
            state,
            ConnectionWork::Finished,
        ),
{
}

/// Time passes in whole seconds of a thousand million nanoseconds, and never backwards.
pub proof fn law_seconds(now: u128, then: u128)
    ensures
        now < then ==> connection::elapsed_secs(now, then) == 0,
        now >= then ==> {
            let elapsed = connection::elapsed_secs(now, then);
            then + elapsed * 1_000_000_000 <= now < then + (elapsed + 1) * 1_000_000_000
        },
{
}

} // verus!
