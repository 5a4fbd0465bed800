//! The connection to one DNS-over-HTTP/3 server, and how a pass over it goes.
//!
//! A pass reads what the server sent, sends queued requests, hands out responses and writes what the
//! QUIC connection has to say. It is a sequence of pieces of outside work on the socket, on the QUIC
//! and HTTP/3 connections and on the clock: [`DoH3ServerConnectionContainer::begin_pass`] names the
//! first one and [`DoH3ServerConnectionContainer::advance`] takes the outcome of one and names the
//! next.

use crate::address::Endpoint;
use crate::backend::request::DoH3Request;
use std::collections::{HashMap, VecDeque};
use vstd::prelude::*;

verus! {

broadcast use vstd::std_specs::hash::group_hash_axioms;

/// A request that got no response after this many seconds is forgotten.
pub const ACTIVE_REQUEST_TIMEOUT_SECONDS: u128 = 10;

/// A queued packet that is this many seconds late is dropped.
pub const PENDING_PACKET_TIMEOUT_SECONDS: u128 = 10;

/// The error code with which a QUIC connection is closed that cannot be written.
pub const CLOSE_ERROR_CODE: u64 = 1;

/// The reason that is given for it.
pub const CLOSE_REASON: &'static str = "fail";

/// The nanoseconds of a second.
pub const NANOS_PER_SECOND: u128 = 1_000_000_000;

/// The whole seconds that passed from `then` to `now`, none where `then` is later.
pub open spec fn elapsed_secs(now: u128, then: u128) -> int {
    if now < then {
        0
    } else {
        (now - then) / NANOS_PER_SECOND as int
    }
}

/// Returns the whole seconds that passed from `then` to `now`.
pub fn seconds_since(now: u128, then: u128) -> (seconds: u128)
    ensures
        seconds == elapsed_secs(now, then),
{
    if now < then {
        0
    } else {
        (now - then) / NANOS_PER_SECOND
    }
}

/// A DNS-over-HTTP/3 server.
pub struct DoH3Server {
    pub domain_name: String,
    pub path: Option<String>,
    pub resolved_address: Endpoint,
}

/// The session with a server, as far as decisions depend on it.
#[derive(Clone, Copy, Debug, PartialEq, Eq, Structural)]
pub struct DoH3ServerSession {
    /// The session has its socket.
    pub socket: bool,
    /// The socket was handed to the poller.
    pub socket_registered: bool,
    /// An HTTP/3 connection runs over the QUIC connection.
    pub http3: bool,
}

/// When a packet is due and where it goes.
#[derive(Clone, Copy, Debug, PartialEq, Eq)]
pub struct SendInfo {
    /// In nanoseconds of the caller's monotonic clock.
    pub at: u128,
    pub to: Endpoint,
}

/// A QUIC packet that waits for the time at which it is due.
pub struct QueuedDoH3Packet {
    pub send_info: SendInfo,
    pub buffer: Vec<u8>,
}

/// Why the QUIC connection refused a request.
#[derive(Clone, Copy, Debug, PartialEq, Eq, Structural)]
pub enum TransportError {
    Done,
    CryptoFail,
    TlsFail,
    StreamLimit,
    KeyUpdate,
    Other,
}

/// Why the HTTP/3 connection refused a request.
#[derive(Clone, Copy, Debug, PartialEq, Eq, Structural)]
pub enum Http3Error {
    Done,
    InternalError,
    ExcessiveLoad,
    IdError,
    StreamCreationError,
    ClosedCriticalStream,
    FrameUnexpected,
    TransportError(TransportError),
    StreamBlocked,
    RequestRejected,
    Other,
}

/// What becomes of a request that was refused.
#[derive(Clone, Copy, Debug, PartialEq, Eq, Structural)]
pub enum RefusalDecision {
    /// The request is given up; the next one is sent.
    Drop,
    /// The request stays in front of the queue until a later pass.
    Retry,
    /// The session is over.
    EndSession,
}

/// What becomes of a request that was refused with `error`.
pub open spec fn refusal_decision(error: Http3Error) -> RefusalDecision {
    match error {
        Http3Error::InternalError
        | Http3Error::ClosedCriticalStream
        | Http3Error::FrameUnexpected
        | Http3Error::TransportError(TransportError::CryptoFail)
        | Http3Error::TransportError(TransportError::TlsFail)
        | Http3Error::TransportError(TransportError::StreamLimit)
        | Http3Error::TransportError(TransportError::KeyUpdate) => RefusalDecision::EndSession,
        Http3Error::ExcessiveLoad
        | Http3Error::IdError
        | Http3Error::StreamCreationError
        | Http3Error::StreamBlocked => RefusalDecision::Retry,
        Http3Error::Done
        | Http3Error::RequestRejected
        | Http3Error::TransportError(_)
        | Http3Error::Other => RefusalDecision::Drop,
    }
}

/// Decides what becomes of a request that was refused.
pub fn decide_refusal(error: Http3Error) -> (decision: RefusalDecision)
    ensures
        decision == refusal_decision(error),
{
    match error {
        Http3Error::Done => RefusalDecision::Drop,
        Http3Error::InternalError => RefusalDecision::EndSession,
        Http3Error::ExcessiveLoad => RefusalDecision::Retry,
        Http3Error::IdError => RefusalDecision::Retry,
        Http3Error::StreamCreationError => RefusalDecision::Retry,
        Http3Error::ClosedCriticalStream => RefusalDecision::EndSession,
        Http3Error::FrameUnexpected => RefusalDecision::EndSession,
        Http3Error::TransportError(error) => match error {
            TransportError::Done => RefusalDecision::Drop,
            TransportError::CryptoFail => RefusalDecision::EndSession,
            TransportError::TlsFail => RefusalDecision::EndSession,
            TransportError::StreamLimit => RefusalDecision::EndSession,
            TransportError::KeyUpdate => RefusalDecision::EndSession,
            TransportError::Other => RefusalDecision::Drop,
        },
        Http3Error::StreamBlocked => RefusalDecision::Retry,
        Http3Error::RequestRejected => RefusalDecision::Drop,
        Http3Error::Other => RefusalDecision::Drop,
    }
}

/// What the HTTP/3 connection reports of a stream.
#[derive(Clone, Copy, Debug, PartialEq, Eq, Structural)]
pub enum Http3Event {
    Headers,
    Data,
    Finished,
    Reset,
    PriorityUpdate,
    GoAway,
}

/// A piece of outside work that a pass asks for.
pub enum ConnectionWork {
    /// Read the clock, to forget old requests. Outcome: `Clock`.
    ExpireRequests,
    /// Ask the QUIC connection for its time-out. Outcome: `Timeout`.
    QueryTimeout,
    /// Tell the QUIC connection that it timed out. Outcome: `Done`.
    HandleTimeout,
    /// Receive a datagram. Outcome: `Received`, `WouldBlock` or `Failed`.
    ReceiveDatagram,
    /// Hand the received datagram of this length to the QUIC connection. Outcome: `Done` or
    /// `Failed`.
    FeedDatagram(usize),
    /// Ask whether the QUIC connection is established. Outcome: `Answer`.
    QueryEstablished,
    /// Start HTTP/3 over the QUIC connection. Outcome: `Done` or `Failed`.
    CreateHttp3,
    /// Send the request in front of the queue. Outcome: `RequestSent` or `RequestRefused`.
    SendRequest,
    /// Ask the HTTP/3 connection for an event. Outcome: `Event` or `Failed`.
    PollHttp3,
    /// Read from the body of the response on this stream. Outcome: `Received` or `Failed`.
    ReadBody(u64),
    /// Hand out this many bytes of the response to the request on this stream. Outcome: `Done`.
    DeliverResponse(u64, usize),
    /// Read the clock, to see whether the queued packet at this index is due. Outcome: `Clock`.
    CheckPacketDue(usize),
    /// Read the clock, to see how late the queued packet at this index is. Outcome: `Clock`.
    CheckPacketAge(usize),
    /// Send the queued packet at this index. Outcome: `Done`, `WouldBlock` or `Failed`.
    SendQueuedPacket(usize),
    /// Ask the QUIC connection for a packet. Outcome: `Packet`, `Drained` or `Failed`.
    WritePacket,
    /// Read the clock, to see whether the packet is due. Outcome: `Clock`.
    CheckPacing(QueuedDoH3Packet),
    /// Send the packet. Outcome: `Done`, `WouldBlock` or `Failed`.
    SendPacket(QueuedDoH3Packet),
    /// Close the QUIC connection with [`CLOSE_ERROR_CODE`] and [`CLOSE_REASON`]. Outcome: `Done`.
    CloseConnection,
    /// Ask whether the QUIC connection is closed. Outcome: `Answer`.
    QueryClosed,
    /// The pass is over and the session has ended; the flag tells whether it leaves a socket behind.
    SessionEnded(bool),
    /// The pass is over.
    Finished,
}

/// The outcome of a piece of outside work.
pub enum ConnectionOutcome {
    Done,
    WouldBlock,
    Failed,
    /// The clock, in nanoseconds.
    Clock(u128),
    /// The time until the QUIC connection times out, in nanoseconds.
    Timeout(Option<u128>),
    /// A length.
    Received(usize),
    Answer(bool),
    /// The stream on which the request was sent.
    RequestSent(u64),
    RequestRefused(Http3Error),
    /// A stream and what happened on it.
    Event(u64, Http3Event),
    Packet(QueuedDoH3Packet),
    /// There are no more packets.
    Drained,
}

/// Whether `outcome` is an outcome of `work`.
pub open spec fn accepts(work: ConnectionWork, outcome: ConnectionOutcome) -> bool {
    match work {
        ConnectionWork::ExpireRequests
        | ConnectionWork::CheckPacketDue(_)
        | ConnectionWork::CheckPacketAge(_)
        | ConnectionWork::CheckPacing(_) => outcome is Clock,
        ConnectionWork::QueryTimeout => outcome is Timeout,
        ConnectionWork::HandleTimeout
        | ConnectionWork::DeliverResponse(_, _)
        | ConnectionWork::CloseConnection => outcome is Done,
        ConnectionWork::ReceiveDatagram => outcome is Received || outcome is WouldBlock
            || outcome is Failed,
        ConnectionWork::FeedDatagram(_)
        | ConnectionWork::CreateHttp3 => outcome is Done || outcome is Failed,
        ConnectionWork::QueryEstablished
        | ConnectionWork::QueryClosed => outcome is Answer,
        ConnectionWork::SendRequest => outcome is RequestSent || outcome is RequestRefused,
        ConnectionWork::PollHttp3 => outcome is Event || outcome is Failed,
        ConnectionWork::ReadBody(_) => outcome is Received || outcome is Failed,
        ConnectionWork::SendQueuedPacket(_)
        | ConnectionWork::SendPacket(_) => outcome is Done || outcome is WouldBlock
            || outcome is Failed,
        ConnectionWork::WritePacket => outcome is Packet || outcome is Drained || outcome is Failed,
        ConnectionWork::SessionEnded(_)
        | ConnectionWork::Finished => false,
    }
}

/// What a connection has in hand.
#[verifier::ext_equal]
pub struct ConnectionState {
    pub session: Option<DoH3ServerSession>,
    /// The requests that are not sent yet, the next one first.
    pub requests: Seq<DoH3Request>,
    /// The packets that wait for their time.
    pub packets: Seq<QueuedDoH3Packet>,
    /// The requests that wait for a response, by their stream.
    pub streams: Map<u64, DoH3Request>,
}

impl ConnectionState {
    /// Whether HTTP/3 runs in a session.
    pub open spec fn speaks_http3(self) -> bool {
        self.session is Some && self.session->0.http3
    }

    /// Whether there is a session with a socket.
    pub open spec fn has_socket(self) -> bool {
        self.session is Some && self.session->0.socket
    }
}

/// The state of a connection without a session.
pub open spec fn idle() -> ConnectionState {
    ConnectionState {
        session: None,
        requests: Seq::empty(),
        packets: Seq::empty(),
        streams: Map::empty(),
    }
}

/// Whether a pass may ask for `work` in `state`.
pub open spec fn in_pass(state: ConnectionState, work: ConnectionWork) -> bool {
    match work {
        ConnectionWork::SessionEnded(_) => state.session is None,
        ConnectionWork::Finished => true,
        ConnectionWork::ReceiveDatagram
        | ConnectionWork::FeedDatagram(_)
        | ConnectionWork::SendPacket(_) => state.has_socket(),
        ConnectionWork::SendRequest => state.speaks_http3() && state.requests.len() > 0,
        ConnectionWork::PollHttp3
        | ConnectionWork::ReadBody(_) => state.speaks_http3(),
        ConnectionWork::DeliverResponse(stream, _) => state.speaks_http3()
            && state.streams.contains_key(stream),
        ConnectionWork::CheckPacketDue(index)
        | ConnectionWork::CheckPacketAge(index) => state.session is Some && index
            < state.packets.len(),
        ConnectionWork::SendQueuedPacket(index) => state.has_socket() && index
            < state.packets.len(),
        _ => state.session is Some,
    }
}

/// The streams whose request is not older than the time-out.
pub open spec fn unexpired(streams: Map<u64, DoH3Request>, now: u128) -> Map<u64, DoH3Request> {
    streams.restrict(
        streams.dom().filter(
            |stream: u64|
                elapsed_secs(now, streams[stream].creation_time) <= ACTIVE_REQUEST_TIMEOUT_SECONDS,
        ),
    )
}

/// The end of a session: nothing is kept.
pub open spec fn ended(state: ConnectionState) -> (ConnectionState, ConnectionWork) {
    (idle(), ConnectionWork::SessionEnded(state.has_socket()))
}

/// What follows once requests were sent: the next request, or the responses.
pub open spec fn sending(state: ConnectionState) -> (ConnectionState, ConnectionWork) {
    if state.requests.len() > 0 {
        (state, ConnectionWork::SendRequest)
    } else {
        (state, ConnectionWork::PollHttp3)
    }
}

/// What follows once the queued packets in front of `index` were looked at.
pub open spec fn flushing(state: ConnectionState, index: int) -> (ConnectionState, ConnectionWork) {
    if index < state.packets.len() {
        (state, ConnectionWork::CheckPacketDue(index as usize))
    } else {
        (state, ConnectionWork::WritePacket)
    }
}

/// What follows once it is known whether HTTP/3 runs.
pub open spec fn after_setup(state: ConnectionState) -> (ConnectionState, ConnectionWork) {
    if state.speaks_http3() {
        sending(state)
    } else {
        flushing(state, 0)
    }
}

/// The queued packet at `index` is dropped, and the next one comes up.
pub open spec fn drop_packet(state: ConnectionState, index: int) -> (
    ConnectionState,
    ConnectionWork,
) {
    flushing(ConnectionState { packets: state.packets.remove(index), ..state }, index)
}

/// The state and the next piece of work after `work` had the outcome `outcome`.
pub open spec fn next(
    state: ConnectionState,
    work: ConnectionWork,
    outcome: ConnectionOutcome,
) -> (ConnectionState, ConnectionWork) {
    match (work, outcome) {
        (ConnectionWork::ExpireRequests, ConnectionOutcome::Clock(now)) => (
            ConnectionState { streams: unexpired(state.streams, now), ..state },
            ConnectionWork::QueryTimeout,
        ),
        (ConnectionWork::QueryTimeout, ConnectionOutcome::Timeout(timeout)) => {
            if timeout == Some(0u128) {
                (state, ConnectionWork::HandleTimeout)
            } else if state.has_socket() {
                (state, ConnectionWork::ReceiveDatagram)
            } else {
                ended(state)
            }
        },
        (ConnectionWork::HandleTimeout, ConnectionOutcome::Done) => (
            state,
            ConnectionWork::QueryEstablished,
        ),
        (ConnectionWork::ReceiveDatagram, ConnectionOutcome::Received(length)) => (
            state,
            ConnectionWork::FeedDatagram(length),
        ),
        (ConnectionWork::ReceiveDatagram, ConnectionOutcome::WouldBlock) => (
            state,
            ConnectionWork::QueryEstablished,
        ),
        (ConnectionWork::ReceiveDatagram, ConnectionOutcome::Failed) => ended(state),
        (ConnectionWork::FeedDatagram(_), _) => (state, ConnectionWork::QueryTimeout),
        (ConnectionWork::QueryEstablished, ConnectionOutcome::Answer(established)) => {
            if established && !state.speaks_http3() {
                (state, ConnectionWork::CreateHttp3)
            } else {
                after_setup(state)
            }
        },
        (ConnectionWork::CreateHttp3, ConnectionOutcome::Done) => after_setup(
            ConnectionState {
                session: Some(DoH3ServerSession { http3: true, ..state.session->0 }),
                ..state
            },
        ),
        (ConnectionWork::CreateHttp3, ConnectionOutcome::Failed) => after_setup(
            ConnectionState {
                session: Some(DoH3ServerSession { http3: false, ..state.session->0 }),
                ..state
            },
        ),
        (ConnectionWork::SendRequest, ConnectionOutcome::RequestSent(stream)) => sending(
            ConnectionState {
                requests: state.requests.drop_first(),
                streams: state.streams.insert(stream, state.requests[0]),
                ..state
            },
        ),
        (ConnectionWork::SendRequest, ConnectionOutcome::RequestRefused(error)) => {
            match refusal_decision(error) {
                RefusalDecision::Drop => sending(
                    ConnectionState { requests: state.requests.drop_first(), ..state },
                ),
                RefusalDecision::Retry => (state, ConnectionWork::PollHttp3),
                RefusalDecision::EndSession => ended(state),
            }
        },
        (ConnectionWork::PollHttp3, ConnectionOutcome::Event(stream, event)) => match event {
            Http3Event::Data => (state, ConnectionWork::ReadBody(stream)),
            Http3Event::Finished | Http3Event::Reset => (
                ConnectionState { streams: state.streams.remove(stream), ..state },
                ConnectionWork::PollHttp3,
            ),
            Http3Event::GoAway => ended(state),
            Http3Event::Headers | Http3Event::PriorityUpdate => (state, ConnectionWork::PollHttp3),
        },
        (ConnectionWork::PollHttp3, ConnectionOutcome::Failed) => flushing(state, 0),
        (ConnectionWork::ReadBody(stream), ConnectionOutcome::Received(length)) => {
            if state.streams.contains_key(stream) {
                (state, ConnectionWork::DeliverResponse(stream, length))
            } else {
                (state, ConnectionWork::ReadBody(stream))
            }
        },
        (ConnectionWork::ReadBody(_), ConnectionOutcome::Failed) => (
            state,
            ConnectionWork::PollHttp3,
        ),
        (ConnectionWork::DeliverResponse(stream, _), ConnectionOutcome::Done) => (
            state,
            ConnectionWork::ReadBody(stream),
        ),
        (ConnectionWork::CheckPacketDue(index), ConnectionOutcome::Clock(now)) => {
            if state.packets[index as int].send_info.at >= now {
                flushing(state, index + 1)
            } else {
                (state, ConnectionWork::CheckPacketAge(index))
            }
        },
        (ConnectionWork::CheckPacketAge(index), ConnectionOutcome::Clock(now)) => {
            if elapsed_secs(now, state.packets[index as int].send_info.at)
                > PENDING_PACKET_TIMEOUT_SECONDS || !state.has_socket() {
                drop_packet(state, index as int)
            } else {
                (state, ConnectionWork::SendQueuedPacket(index))
            }
        },
        (ConnectionWork::SendQueuedPacket(index), ConnectionOutcome::WouldBlock) => flushing(
            state,
            index + 1,
        ),
        (ConnectionWork::SendQueuedPacket(index), _) => drop_packet(state, index as int),
        (ConnectionWork::WritePacket, ConnectionOutcome::Packet(packet)) => (
            state,
            ConnectionWork::CheckPacing(packet),
        ),
        (ConnectionWork::WritePacket, ConnectionOutcome::Drained) => (
            state,
            ConnectionWork::QueryClosed,
        ),
        (ConnectionWork::WritePacket, ConnectionOutcome::Failed) => (
            state,
            ConnectionWork::CloseConnection,
        ),
        (ConnectionWork::CheckPacing(packet), ConnectionOutcome::Clock(now)) => {
            if packet.send_info.at >= now {
                (
                    ConnectionState { packets: state.packets.push(packet), ..state },
                    ConnectionWork::WritePacket,
                )
            } else if state.has_socket() {
                (state, ConnectionWork::SendPacket(packet))
            } else {
                (state, ConnectionWork::WritePacket)
            }
        },
        (ConnectionWork::SendPacket(_), ConnectionOutcome::Done) => (
            state,
            ConnectionWork::WritePacket,
        ),
        (ConnectionWork::SendPacket(_), ConnectionOutcome::WouldBlock) => (
            state,
            ConnectionWork::QueryClosed,
        ),
        (ConnectionWork::SendPacket(_), ConnectionOutcome::Failed) => ended(state),
        (ConnectionWork::CloseConnection, ConnectionOutcome::Done) => (
            state,
            ConnectionWork::QueryClosed,
        ),
        (ConnectionWork::QueryClosed, ConnectionOutcome::Answer(closed)) => {
            if closed {
                ended(state)
            } else {
                (state, ConnectionWork::Finished)
            }
        },
        _ => (state, work),
    }
}

/// The connection to one server: its session, and what waits to be sent or answered.
pub struct DoH3ServerConnectionContainer {
    pub server: DoH3Server,
    pub active_session: Option<DoH3ServerSession>,
    pub request_queue: VecDeque<DoH3Request>,
    pub queued_packets: Vec<QueuedDoH3Packet>,
    pub sent_request_streams: HashMap<u64, DoH3Request>,
    pub token: usize,
}

impl View for DoH3ServerConnectionContainer {
    type V = ConnectionState;

    open spec fn view(&self) -> ConnectionState {
        ConnectionState {
            session: self.active_session,
            requests: self.request_queue@,
            packets: self.queued_packets@,
            streams: self.sent_request_streams@,
        }
    }
}

impl DoH3ServerConnectionContainer {
    /// Creates a connection without a session.
    pub fn new(server: DoH3Server, token: usize) -> (connection: Self)
        ensures
            connection.server == server,
            connection.token == token,
            connection@ == idle(),
    {
        DoH3ServerConnectionContainer {
            server,
            active_session: None,
            request_queue: VecDeque::new(),
            queued_packets: Vec::new(),
            sent_request_streams: HashMap::new(),
            token,
        }
    }

    /// Ends the session and forgets everything that belongs to it. Returns whether the session
    /// leaves a socket behind, which is then removed from the poller.
    pub fn end_session(&mut self) -> (remove_socket: bool)
        ensures
            (final(self)@, ConnectionWork::SessionEnded(remove_socket)) == ended(old(self)@),
            final(self).server == old(self).server,
            final(self).token == old(self).token,
    {
        let remove_socket = match self.active_session {
            Some(session) => session.socket,
            None => false,
        };
        self.active_session = None;
        self.request_queue.clear();
        self.queued_packets.clear();
        self.sent_request_streams.clear();
        remove_socket
    }

    /// Starts a pass; names the first piece of work. Without a session there is nothing to do.
    pub fn begin_pass(&self) -> (work: ConnectionWork)
        ensures
            work == (if self@.session is Some {
                ConnectionWork::ExpireRequests
            } else {
                ConnectionWork::Finished
            }),
            in_pass(self@, work),
    {
        if self.active_session.is_some() {
            ConnectionWork::ExpireRequests
        } else {
            ConnectionWork::Finished
        }
    }

    /// Forgets the requests that got no response in time.
    fn expire_requests(&mut self, now: u128)
        ensures
            final(self)@ == (ConnectionState {
                streams: unexpired(old(self)@.streams, now),
                ..old(self)@
            }),
            final(self).server == old(self).server,
            final(self).token == old(self).token,
    {
        let ghost before = self.sent_request_streams@;
        let ghost kept = unexpired(before, now);
        let mut streams: Vec<u64> = Vec::new();
        for stream in it: self.sent_request_streams.keys()
            invariant
                it.seq().unref().to_set() == before.dom(),
                streams@ == it.seq().unref().take(it.index()),
                it.index() == it.seq().len() ==> streams@ == it.seq().unref(),
        {
            streams.push(*stream);
        }
        assert(streams@.to_set() == before.dom());
        let mut index: usize = 0;
        while index < streams.len()
            invariant
                index <= streams@.len(),
                streams@.to_set() == before.dom(),
                before == old(self)@.streams,
                kept == unexpired(before, now),
                self@ == (ConnectionState { streams: self@.streams, ..old(self)@ }),
                self.server == old(self).server,
                self.token == old(self).token,
                self@.streams.submap_of(before),
                kept.submap_of(self@.streams),
                forall|i: int|
                    0 <= i < index && self@.streams.contains_key(#[trigger] streams@[i])
                        ==> kept.contains_key(streams@[i]),
            decreases streams@.len() - index,
        {
            let stream = streams[index];
            assert(streams@.to_set().contains(stream));
            let expired = match self.sent_request_streams.get(&stream) {
                Some(request) => seconds_since(now, request.creation_time)
                    > ACTIVE_REQUEST_TIMEOUT_SECONDS,
                None => false,
            };
            if expired {
                self.sent_request_streams.remove(&stream);
            }
            index = index + 1;
        }
        assert(self@.streams =~= kept) by {
            assert forall|stream: u64| self@.streams.contains_key(stream) implies
                kept.contains_key(stream) by {
                assert(streams@.to_set().contains(stream));
                let i = choose|i: int| 0 <= i < streams@.len() && streams@[i] == stream;
                assert(kept.contains_key(streams@[i]));
            }
        }
    }

    /// Takes the outcome of a piece of work and names the next one.
    pub fn advance(&mut self, work: ConnectionWork, outcome: ConnectionOutcome) -> (following:
        ConnectionWork)
        requires
            in_pass(old(self)@, work),
            accepts(work, outcome),
        ensures
            (final(self)@, following) == next(old(self)@, work, outcome),
            in_pass(final(self)@, following),
            final(self).server == old(self).server,
            final(self).token == old(self).token,
    {
        match work {
            ConnectionWork::ExpireRequests => match outcome {
                ConnectionOutcome::Clock(now) => {
                    self.expire_requests(now);
                    ConnectionWork::QueryTimeout
                },
                _ => ConnectionWork::ExpireRequests,
            },
            ConnectionWork::QueryTimeout => match outcome {
                ConnectionOutcome::Timeout(Some(0)) => ConnectionWork::HandleTimeout,
                _ => {
                    if self.has_socket() {
                        ConnectionWork::ReceiveDatagram
                    } else {
                        ConnectionWork::SessionEnded(self.end_session())
                    }
                },
            },
            ConnectionWork::HandleTimeout => ConnectionWork::QueryEstablished,
            ConnectionWork::ReceiveDatagram => match outcome {
                ConnectionOutcome::Received(length) => ConnectionWork::FeedDatagram(length),
                ConnectionOutcome::WouldBlock => ConnectionWork::QueryEstablished,
                _ => ConnectionWork::SessionEnded(self.end_session()),
            },
            ConnectionWork::FeedDatagram(_) => ConnectionWork::QueryTimeout,
            ConnectionWork::QueryEstablished => match outcome {
                ConnectionOutcome::Answer(true) => {
                    if self.speaks_http3() {
                        self.after_setup()
                    } else {
                        ConnectionWork::CreateHttp3
                    }
                },
                _ => self.after_setup(),
            },
            ConnectionWork::CreateHttp3 => {
                let http3 = match outcome {
                    ConnectionOutcome::Done => true,
                    _ => false,
                };
                if let Some(session) = self.active_session {
                    self.active_session = Some(DoH3ServerSession { http3, ..session });
                }
                self.after_setup()
            },
            ConnectionWork::SendRequest => match outcome {
                ConnectionOutcome::RequestSent(stream) => {
                    if let Some(request) = self.request_queue.pop_front() {
                        self.sent_request_streams.insert(stream, request);
                    }
                    self.next_request()
                },
                ConnectionOutcome::RequestRefused(error) => match decide_refusal(error) {
                    RefusalDecision::Drop => {
                        let _ = self.request_queue.pop_front();
                        self.next_request()
                    },
                    RefusalDecision::Retry => ConnectionWork::PollHttp3,
                    RefusalDecision::EndSession => ConnectionWork::SessionEnded(self.end_session()),
                },
                _ => ConnectionWork::SendRequest,
            },
            ConnectionWork::PollHttp3 => match outcome {
                ConnectionOutcome::Event(stream, event) => match event {
                    Http3Event::Data => ConnectionWork::ReadBody(stream),
                    Http3Event::Finished | Http3Event::Reset => {
                        let _ = self.sent_request_streams.remove(&stream);
                        ConnectionWork::PollHttp3
                    },
                    Http3Event::GoAway => ConnectionWork::SessionEnded(self.end_session()),
                    Http3Event::Headers | Http3Event::PriorityUpdate => ConnectionWork::PollHttp3,
                },
                _ => self.next_packet(0),
            },
            ConnectionWork::ReadBody(stream) => match outcome {
                ConnectionOutcome::Received(length) => {
                    if self.sent_request_streams.contains_key(&stream) {
                        ConnectionWork::DeliverResponse(stream, length)
                    } else {
                        ConnectionWork::ReadBody(stream)
                    }
                },
                _ => ConnectionWork::PollHttp3,
            },
            ConnectionWork::DeliverResponse(stream, _) => ConnectionWork::ReadBody(stream),
            ConnectionWork::CheckPacketDue(index) => match outcome {
                ConnectionOutcome::Clock(now) => {
                    assert(index < self.queued_packets.len());
                    if self.queued_packets[index].send_info.at >= now {
                        self.next_packet(index + 1)
                    } else {
                        ConnectionWork::CheckPacketAge(index)
                    }
                },
                _ => ConnectionWork::CheckPacketDue(index),
            },
            ConnectionWork::CheckPacketAge(index) => match outcome {
                ConnectionOutcome::Clock(now) => {
                    let late = seconds_since(now, self.queued_packets[index].send_info.at);
                    if late > PENDING_PACKET_TIMEOUT_SECONDS || !self.has_socket() {
                        let _ = self.queued_packets.remove(index);
                        self.next_packet(index)
                    } else {
                        ConnectionWork::SendQueuedPacket(index)
                    }
                },
                _ => ConnectionWork::CheckPacketAge(index),
            },
            ConnectionWork::SendQueuedPacket(index) => match outcome {
                ConnectionOutcome::WouldBlock => {
                    assert(index < self.queued_packets.len());
                    self.next_packet(index + 1)
                },
                _ => {
                    let _ = self.queued_packets.remove(index);
                    self.next_packet(index)
                },
            },
            ConnectionWork::WritePacket => match outcome {
                ConnectionOutcome::Packet(packet) => ConnectionWork::CheckPacing(packet),
                ConnectionOutcome::Drained => ConnectionWork::QueryClosed,
                _ => ConnectionWork::CloseConnection,
            },
            ConnectionWork::CheckPacing(packet) => match outcome {
                ConnectionOutcome::Clock(now) => {
                    if packet.send_info.at >= now {
                        self.queued_packets.push(packet);
                        ConnectionWork::WritePacket
                    } else if self.has_socket() {
                        ConnectionWork::SendPacket(packet)
                    } else {
                        ConnectionWork::WritePacket
                    }
                },
                _ => ConnectionWork::CheckPacing(packet),
            },
            ConnectionWork::SendPacket(_) => match outcome {
                ConnectionOutcome::Done => ConnectionWork::WritePacket,
                ConnectionOutcome::WouldBlock => ConnectionWork::QueryClosed,
                _ => ConnectionWork::SessionEnded(self.end_session()),
            },
            ConnectionWork::CloseConnection => ConnectionWork::QueryClosed,
            ConnectionWork::QueryClosed => match outcome {
                ConnectionOutcome::Answer(true) => ConnectionWork::SessionEnded(self.end_session()),
                _ => ConnectionWork::Finished,
            },
            ConnectionWork::SessionEnded(remove_socket) => ConnectionWork::SessionEnded(
                remove_socket,
            ),
            ConnectionWork::Finished => ConnectionWork::Finished,
        }
    }

    fn has_socket(&self) -> (socket: bool)
        ensures
            socket == self@.has_socket(),
    {
        match self.active_session {
            Some(session) => session.socket,
            None => false,
        }
    }

    fn speaks_http3(&self) -> (http3: bool)
        ensures
            http3 == self@.speaks_http3(),
    {
        match self.active_session {
            Some(session) => session.http3,
            None => false,
        }
    }

    fn after_setup(&self) -> (following: ConnectionWork)
        requires
            self@.session is Some,
        ensures
            (self@, following) == after_setup(self@),
            in_pass(self@, following),
    {
        if self.speaks_http3() {
            self.next_request()
        } else {
            self.next_packet(0)
        }
    }

    fn next_request(&self) -> (following: ConnectionWork)
        requires
            self@.speaks_http3(),
        ensures
            (self@, following) == sending(self@),
            in_pass(self@, following),
    {
        if self.request_queue.len() > 0 {
            ConnectionWork::SendRequest
        } else {
            ConnectionWork::PollHttp3
        }
    }

    fn next_packet(&self, index: usize) -> (following: ConnectionWork)
        requires
            self@.session is Some,
        ensures
            (self@, following) == flushing(self@, index as int),
            in_pass(self@, following),
    {
        if index < self.queued_packets.len() {
            ConnectionWork::CheckPacketDue(index)
        } else {
            ConnectionWork::WritePacket
        }
    }
}

/// A session that ends leaves nothing behind: no request, no packet and no open stream. The next
/// pass then has nothing to do.
pub proof fn law_ended_session_leaves_nothing(
    state: ConnectionState,
    work: ConnectionWork,
    outcome: ConnectionOutcome,
)
    requires
        in_pass(state, work),
        accepts(work, outcome),
    ensures
        next(state, work, outcome).1 matches ConnectionWork::SessionEnded(remove_socket) ==> {
            &&& next(state, work, outcome).0 == idle()
            &&& remove_socket == state.has_socket()
        },
        !(next(state, work, outcome).1 is SessionEnded) ==> {
            &&& next(state, work, outcome).0.session is Some
            &&& next(state, work, outcome).0.has_socket() == state.has_socket()
        },
{
}

/// Requests are sent in the order in which they were queued. A request leaves the queue only from
/// its front, when it was sent or given up, or when the session ends.
pub proof fn law_requests_leave_in_order(
    state: ConnectionState,
    work: ConnectionWork,
    outcome: ConnectionOutcome,
)
    requires
        in_pass(state, work),
        accepts(work, outcome),
    ensures
        ({
            let (after, following) = next(state, work, outcome);
            if following is SessionEnded {
                after.requests == Seq::<DoH3Request>::empty()
            } else if work is SendRequest && (outcome is RequestSent || refusal_decision(
                outcome->RequestRefused_0,
            ) == RefusalDecision::Drop) {
                after.requests == state.requests.drop_first()
            } else {
                after.requests == state.requests
            }
        }),
{
}

/// A request that was sent waits for the response on its stream.
pub proof fn law_sent_request_waits(state: ConnectionState, stream: u64)
    requires
        in_pass(state, ConnectionWork::SendRequest),
    ensures
        ({
            let sent = ConnectionOutcome::RequestSent(stream);
            let after = next(state, ConnectionWork::SendRequest, sent).0;
            &&& after.streams.contains_key(stream)
            &&& after.streams[stream] == state.requests[0]
        }),
{
}

/// A request that waits for its response goes on waiting until its stream is finished or reset, its
/// time is over, its stream is used for another request, or the session ends.
pub proof fn law_waiting_request_stays(
    state: ConnectionState,
    work: ConnectionWork,
    outcome: ConnectionOutcome,
    stream: u64,
)
    requires
        in_pass(state, work),
        accepts(work, outcome),
        state.streams.contains_key(stream),
        outcome != ConnectionOutcome::Event(stream, Http3Event::Finished),
        outcome != ConnectionOutcome::Event(stream, Http3Event::Reset),
        outcome != ConnectionOutcome::RequestSent(stream),
        work is ExpireRequests ==> elapsed_secs(
            outcome->Clock_0,
            state.streams[stream].creation_time,
        ) <= ACTIVE_REQUEST_TIMEOUT_SECONDS,
        !(next(state, work, outcome).1 is SessionEnded),
    ensures
        next(state, work, outcome).0.streams.contains_key(stream),
        next(state, work, outcome).0.streams[stream] == state.streams[stream],
{
}

/// Nothing is delivered but to requests that wait: a stream becomes known only by sending a request
/// on it.
pub proof fn law_no_stream_out_of_nothing(
    state: ConnectionState,
    work: ConnectionWork,
    outcome: ConnectionOutcome,
    stream: u64,
)
    requires
        in_pass(state, work),
        accepts(work, outcome),
        !state.streams.contains_key(stream),
        outcome != ConnectionOutcome::RequestSent(stream),
    ensures
        !next(state, work, outcome).0.streams.contains_key(stream),
        !(next(state, work, outcome).1 matches ConnectionWork::DeliverResponse(delivered, _)
            && delivered == stream),
{
}

/// A request is forgotten once it is eleven seconds old, and not before.
pub proof fn law_request_time_out(streams: Map<u64, DoH3Request>, stream: u64, now: u128)
    requires
        streams.contains_key(stream),
    ensures
        unexpired(streams, now).contains_key(stream) <==> now < streams[stream].creation_time
            + 11_000_000_000,
        unexpired(streams, now).contains_key(stream) ==> unexpired(streams, now)[stream]
            == streams[stream],
{
    let then = streams[stream].creation_time;
    lemma_whole_seconds(now, then, ACTIVE_REQUEST_TIMEOUT_SECONDS);
}

/// No more than `count` whole seconds have passed exactly if the next second is not over.
pub proof fn lemma_whole_seconds(now: u128, then: u128, count: u128)
    ensures
        elapsed_secs(now, then) <= count <==> now < then + (count + 1) * NANOS_PER_SECOND,
{
    if now >= then {
        let passed = now - then;
        assert(passed / 1_000_000_000 <= count <==> passed < (count + 1) * 1_000_000_000)
            by (nonlinear_arith)
            requires
                passed >= 0,
        ;
    } else {
        assert(0 <= (count + 1) * NANOS_PER_SECOND) by (nonlinear_arith);
    }
}

/// A packet is not sent before it is due: not when the QUIC connection hands it out, and not once it
/// was queued. A queued packet is not sent either once it is eleven seconds late.
pub proof fn law_packets_are_sent_in_time(
    state: ConnectionState,
    packet: QueuedDoH3Packet,
    index: usize,
    first: u128,
    second: u128,
)
    requires
        in_pass(state, ConnectionWork::CheckPacketDue(index)),
    ensures
        ({
            let pacing = ConnectionWork::CheckPacing(packet);
            let paced = next(state, pacing, ConnectionOutcome::Clock(first));
            paced.1 is SendPacket ==> paced.1 == ConnectionWork::SendPacket(packet)
                && packet.send_info.at < first
        }),
        ({
            let due = ConnectionWork::CheckPacketDue(index);
            let (after, following) = next(state, due, ConnectionOutcome::Clock(first));
            let sent = next(after, following, ConnectionOutcome::Clock(second));
            let at = state.packets[index as int].send_info.at;
            sent.1 is SendQueuedPacket ==> {
                &&& sent.0 == state
                &&& sent.1 == ConnectionWork::SendQueuedPacket(index)
                &&& at < first
                &&& second < at + 11 * NANOS_PER_SECOND
            }
        }),
{
    let at = state.packets[index as int].send_info.at;
    lemma_whole_seconds(second, at, PENDING_PACKET_TIMEOUT_SECONDS);
}

/// A piece of work takes at most one packet out of the queue, or puts one behind it, unless the
/// session ends.
pub proof fn law_packets_are_kept(
    state: ConnectionState,
    work: ConnectionWork,
    outcome: ConnectionOutcome,
)
    requires
        in_pass(state, work),
        accepts(work, outcome),
    ensures
        ({
            let (after, following) = next(state, work, outcome);
            ||| following is SessionEnded
            ||| after.packets == state.packets
            ||| work matches ConnectionWork::CheckPacketAge(index) && after.packets
                == state.packets.remove(index as int)
            ||| work matches ConnectionWork::SendQueuedPacket(index) && after.packets
                == state.packets.remove(index as int)
            ||| work matches ConnectionWork::CheckPacing(packet) && after.packets
                == state.packets.push(packet)
        }),
{
}

/// How far a pass is.
pub open spec fn stage(work: ConnectionWork) -> int {
    match work {
        ConnectionWork::ExpireRequests => 0,
        ConnectionWork::QueryTimeout
        | ConnectionWork::ReceiveDatagram
        | ConnectionWork::FeedDatagram(_) => 1,
        ConnectionWork::HandleTimeout => 2,
        ConnectionWork::QueryEstablished => 3,
        ConnectionWork::CreateHttp3 => 4,
        ConnectionWork::SendRequest => 5,
        ConnectionWork::PollHttp3
        | ConnectionWork::ReadBody(_)
        | ConnectionWork::DeliverResponse(_, _) => 6,
        ConnectionWork::CheckPacketDue(_)
        | ConnectionWork::CheckPacketAge(_)
        | ConnectionWork::SendQueuedPacket(_) => 7,
        ConnectionWork::WritePacket
        | ConnectionWork::CheckPacing(_)
        | ConnectionWork::SendPacket(_) => 8,
        ConnectionWork::CloseConnection => 9,
        ConnectionWork::QueryClosed => 10,
        ConnectionWork::SessionEnded(_)
        | ConnectionWork::Finished => 11,
    }
}

/// A pass reads before it sends requests, sends requests before it looks for responses, and writes
/// last; it never goes back.
pub proof fn law_pass_never_goes_back(
    state: ConnectionState,
    work: ConnectionWork,
    outcome: ConnectionOutcome,
)
    requires
        in_pass(state, work),
        accepts(work, outcome),
    ensures
        stage(work) <= stage(next(state, work, outcome).1) <= 11,
{
}

/// What is left to do while requests are sent and while queued packets are looked at.
pub open spec fn left_to_do(state: ConnectionState, work: ConnectionWork) -> int {
    match work {
        ConnectionWork::SendRequest => state.requests.len() as int,
        ConnectionWork::CheckPacketDue(index) => 3 * (state.packets.len() - index),
        ConnectionWork::CheckPacketAge(index) => 3 * (state.packets.len() - index) - 1,
        ConnectionWork::SendQueuedPacket(index) => 3 * (state.packets.len() - index) - 2,
        _ => 0,
    }
}

/// The sending of queued requests and the look at queued packets come to an end: each piece of work
/// for them leaves less to do, or brings the pass further.
pub proof fn law_queues_are_worked_off(
    state: ConnectionState,
    work: ConnectionWork,
    outcome: ConnectionOutcome,
)
    requires
        in_pass(state, work),
        accepts(work, outcome),
        stage(work) == 5 || stage(work) == 7,
        state.packets.len() <= usize::MAX,
    ensures
        ({
            let (after, following) = next(state, work, outcome);
            ||| stage(work) < stage(following)
            ||| 0 <= left_to_do(after, following) < left_to_do(state, work)
        }),
{
}

} // verus!
