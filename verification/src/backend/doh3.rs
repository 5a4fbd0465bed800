//! The backend that forwards DNS requests over HTTP/3.

use crate::address;
use crate::address::Endpoint;
use crate::backend::connection;
use crate::backend::connection::{
    ConnectionOutcome, ConnectionState, ConnectionWork, DoH3Server, DoH3ServerConnectionContainer,
    DoH3ServerSession, QueuedDoH3Packet,
};
use crate::backend::request;
use crate::backend::request::DoH3Request;
use crate::backend::session;
use crate::backend::session::{DnsBackendError, SessionOutcome, SessionWork};
use crate::encoding;
use crate::text;
use crate::validation;
use crate::validation::{NativeDnsServer, NativeDnsServerType, ServerKind, ServerView};
use crate::vpn;
use std::sync::Arc;
use vstd::prelude::*;

verus! {

/// The port on which DNS-over-HTTP/3 servers listen.
pub const DOH3_PORT: u16 = 443;

/// After this many seconds without traffic a connection is given up.
pub const CONNECTION_TIMEOUT_SECONDS: u64 = 30;

/// The size of the buffer into which datagrams and bodies are received.
pub const INPUT_BUFFER_SIZE: usize = 65535;

/// The size of the buffer from which datagrams are sent.
pub const OUTPUT_BUFFER_SIZE: usize = 1350;

/// The possible errors when the backend is created.
#[derive(Clone, Copy, Debug, PartialEq, Eq, Structural)]
pub enum DoH3BackendError {
    /// Returned if no server could be configured.
    ConfigurationFailure,
}

/// The settings of a QUIC connection.
#[derive(Clone, Copy, Debug, PartialEq, Eq, Structural)]
pub struct TransportSettings {
    pub max_idle_timeout_millis: u64,
    pub max_send_udp_payload_size: usize,
    pub max_recv_udp_payload_size: usize,
    pub initial_max_streams_bidi: u64,
    pub initial_max_streams_uni: u64,
    pub initial_max_data: u64,
    pub initial_max_stream_data_bidi_local: u64,
    pub initial_max_stream_data_bidi_remote: u64,
    pub initial_max_stream_data_uni: u64,
    pub disable_active_migration: bool,
}

/// Returns the settings with which the connections to servers are made.
pub fn transport_settings() -> (settings: TransportSettings)
    ensures
        settings == (TransportSettings {
            max_idle_timeout_millis: 30_000,
            max_send_udp_payload_size: 1350,
            max_recv_udp_payload_size: 1350,
            initial_max_streams_bidi: 100,
            initial_max_streams_uni: 100,
            initial_max_data: 10_000_000,
            initial_max_stream_data_bidi_local: 10_000_000,
            initial_max_stream_data_bidi_remote: 10_000_000,
            initial_max_stream_data_uni: 10_000_000,
            disable_active_migration: true,
        }),
{
    TransportSettings {
        max_idle_timeout_millis: CONNECTION_TIMEOUT_SECONDS * 1000,
        max_send_udp_payload_size: OUTPUT_BUFFER_SIZE,
        max_recv_udp_payload_size: OUTPUT_BUFFER_SIZE,
        initial_max_streams_bidi: 100,
        initial_max_streams_uni: 100,
        initial_max_data: 10_000_000,
        initial_max_stream_data_bidi_local: 10_000_000,
        initial_max_stream_data_bidi_remote: 10_000_000,
        initial_max_stream_data_uni: 10_000_000,
        disable_active_migration: true,
    }
}

/// What is known of a server that the backend speaks to.
#[verifier::ext_equal]
pub struct EntryView {
    pub domain_name: Seq<char>,
    pub path: Option<Seq<char>>,
    pub address: Seq<u8>,
    pub port: u16,
    pub token: int,
}

impl EntryView {
    /// The text under which requests find the server: its name followed by its path.
    pub open spec fn key(self) -> Seq<char> {
        self.domain_name + text::text_or_empty(self.path)
    }
}

/// What is known of the server of a connection.
pub open spec fn entry(connection: DoH3ServerConnectionContainer) -> EntryView {
    EntryView {
        domain_name: connection.server.domain_name@,
        path: text::optional_text(connection.server.path),
        address: connection.server.resolved_address.ip.octets_view(),
        port: connection.server.resolved_address.port,
        token: connection.token as int,
    }
}

/// What is known of the servers of a sequence of connections.
pub open spec fn entries(connections: Seq<DoH3ServerConnectionContainer>) -> Seq<EntryView> {
    connections.map_values(|connection: DoH3ServerConnectionContainer| entry(connection))
}

/// What a sequence of connections has in hand.
pub open spec fn states(connections: Seq<DoH3ServerConnectionContainer>) -> Seq<ConnectionState> {
    connections.map_values(|connection: DoH3ServerConnectionContainer| connection@)
}

/// Whether no two servers have the same key.
pub open spec fn distinct_keys(servers: Seq<EntryView>) -> bool {
    forall|i: int, j: int|
        0 <= i < j < servers.len() ==> (#[trigger] servers[i]).key() != (#[trigger]
        servers[j]).key()
}

/// The keys of a sequence of servers.
pub open spec fn keys(servers: Seq<EntryView>) -> Seq<Seq<char>> {
    servers.map_values(|server: EntryView| server.key())
}

/// These servers with `server` in the place of the one that has its key, or behind them if none has.
pub open spec fn with_entry(servers: Seq<EntryView>, server: EntryView) -> Seq<EntryView> {
    match keys(servers).index_of_first(server.key()) {
        Some(index) => servers.update(index, server),
        None => servers.push(server),
    }
}

/// What the backend knows of `server`, which stands at the position `index`, if it can speak to it:
/// a DoH3 server with an IPv4 or IPv6 address.
pub open spec fn candidate(server: ServerView, index: int) -> Option<EntryView> {
    match server.kind {
        ServerKind::DoH3(name, path) => if server.address.len() == 4 || server.address.len() == 16 {
            Some(
                EntryView {
                    domain_name: name,
                    path,
                    address: server.address,
                    port: DOH3_PORT,
                    token: index,
                },
            )
        } else {
            None
        },
        ServerKind::Standard => None,
    }
}

/// The servers that the backend speaks to: those it can speak to and that could be configured. Of
/// several with the same name and path the last one counts.
pub open spec fn chosen(servers: Seq<ServerView>, configured: Seq<bool>) -> Seq<EntryView>
    decreases servers.len(),
{
    if servers.len() == 0 {
        Seq::empty()
    } else {
        let front = chosen(servers.drop_last(), configured);
        let index = servers.len() - 1;
        match candidate(servers[index], index) {
            Some(server) => if configured[index] {
                with_entry(front, server)
            } else {
                front
            },
            None => front,
        }
    }
}

/// How the registration of a socket with the poller went.
#[derive(Clone, Copy, Debug, PartialEq, Eq, Structural)]
pub enum RegistrationOutcome {
    Registered,
    AlreadyExists,
    Failed,
}

/// Whether the socket of this connection has to be handed to the poller.
pub open spec fn wants_registration(state: ConnectionState) -> bool {
    state.session is Some && !state.session->0.socket_registered && state.session->0.socket
}

/// Whether this connection counts as polled, where `outcome` is how its registration went if it
/// wanted one.
pub open spec fn counts_as_registered(state: ConnectionState, outcome: RegistrationOutcome) -> bool {
    state.session is Some && (state.session->0.socket_registered || state.session->0.socket
        && outcome != RegistrationOutcome::Failed)
}

/// The number of connections that count as polled.
pub open spec fn registered_count(
    connections: Seq<ConnectionState>,
    outcomes: Seq<RegistrationOutcome>,
) -> nat
    decreases connections.len(),
{
    if connections.len() == 0 {
        0
    } else {
        let index = connections.len() - 1;
        registered_count(connections.drop_last(), outcomes) + if counts_as_registered(
            connections[index],
            outcomes[index],
        ) {
            1nat
        } else {
            0nat
        }
    }
}

/// This connection once its registration was tried, however that went.
pub open spec fn after_registration(state: ConnectionState) -> ConnectionState {
    if wants_registration(state) {
        ConnectionState {
            session: Some(DoH3ServerSession { socket_registered: true, ..state.session->0 }),
            ..state
        }
    } else {
        state
    }
}

/// The times by which packets are late at the time `now`.
pub open spec fn lateness(packets: Seq<QueuedDoH3Packet>, now: u128) -> Set<u128> {
    Set::new(
        |duration: u128|
            exists|j: int|
                #![trigger packets[j]]
                0 <= j < packets.len() && packets[j].send_info.at + duration == now,
    )
}

/// The times after which a connection is a reason to wake up: the times by which its queued packets
/// are late, and the time-out of its QUIC connection. Without a session there are none.
pub open spec fn session_wake_times(
    state: ConnectionState,
    quic_timeout: Option<u128>,
    now: u128,
) -> Set<u128> {
    if state.session is None {
        Set::empty()
    } else {
        match quic_timeout {
            Some(duration) => lateness(state.packets, now).insert(duration),
            None => lateness(state.packets, now),
        }
    }
}

/// The times after which some connection is a reason to wake up.
pub open spec fn wake_times(
    connections: Seq<ConnectionState>,
    quic_timeouts: Seq<Option<u128>>,
    now: u128,
) -> Set<u128> {
    Set::new(
        |duration: u128|
            exists|i: int|
                0 <= i < connections.len() && #[trigger] session_wake_times(
                    connections[i],
                    quic_timeouts[i],
                    now,
                ).contains(duration),
    )
}

/// Whether the connection at `index` is a reason to wake up after `time`: it has a session, and `time`
/// is the time-out of its QUIC connection, or the time by which its queued packet at `packet` is late.
pub open spec fn wakes_after(
    connections: Seq<ConnectionState>,
    quic_timeouts: Seq<Option<u128>>,
    now: u128,
    index: int,
    packet: int,
    time: u128,
) -> bool {
    &&& 0 <= index < connections.len()
    &&& connections[index].session is Some
    &&& {
        ||| quic_timeouts[index] == Some(time)
        ||| 0 <= packet < connections[index].packets.len()
            && connections[index].packets[packet].send_info.at + time == now
    }
}

/// The wake times are the times of all reasons to wake up.
proof fn lemma_wake_times(
    connections: Seq<ConnectionState>,
    quic_timeouts: Seq<Option<u128>>,
    now: u128,
)
    ensures
        forall|time: u128| #[trigger]
            wake_times(connections, quic_timeouts, now).contains(time) ==> exists|i: int, j: int|
             #[trigger] wakes_after(connections, quic_timeouts, now, i, j, time),
        forall|i: int, j: int, time: u128| #[trigger]
            wakes_after(connections, quic_timeouts, now, i, j, time) ==> wake_times(
                connections,
                quic_timeouts,
                now,
            ).contains(time),
{
    assert forall|time: u128| #[trigger]
        wake_times(connections, quic_timeouts, now).contains(time) implies exists|i: int, j: int|
     #[trigger] wakes_after(connections, quic_timeouts, now, i, j, time) by {
        let i = choose|i: int|
            0 <= i < connections.len() && #[trigger] session_wake_times(
                connections[i],
                quic_timeouts[i],
                now,
            ).contains(time);
        if quic_timeouts[i] == Some(time) {
            assert(wakes_after(connections, quic_timeouts, now, i, 0, time));
        } else {
            let packets = connections[i].packets;
            assert(lateness(packets, now).contains(time));
            let j = choose|j: int|
                #![trigger packets[j]]
                0 <= j < packets.len() && packets[j].send_info.at + time == now;
            assert(wakes_after(connections, quic_timeouts, now, i, j, time));
        }
    }
    assert forall|i: int, j: int, time: u128| #[trigger]
        wakes_after(connections, quic_timeouts, now, i, j, time) implies wake_times(
        connections,
        quic_timeouts,
        now,
    ).contains(time) by {
        let packets = connections[i].packets;
        if quic_timeouts[i] != Some(time) {
            assert(packets[j].send_info.at + time == now);
            assert(lateness(packets, now).contains(time));
        }
        assert(session_wake_times(connections[i], quic_timeouts[i], now).contains(time));
    }
}

/// Whether `least` is the smallest of `times`, or nothing where there are none.
pub open spec fn is_least(times: Set<u128>, least: Option<u128>) -> bool {
    match least {
        Some(time) => times.contains(time) && forall|other: u128| #[trigger]
            times.contains(other) ==> time <= other,
        None => times == Set::<u128>::empty(),
    }
}

/// Whether requests to `destination` go over the connection at `index`: the first one whose server's
/// key has these bytes.
pub open spec fn is_route(servers: Seq<EntryView>, destination: Seq<u8>, index: int) -> bool {
    vstd::utf8::encode_utf8(servers[index].key()) == destination && forall|i: int|
        0 <= i < index ==> vstd::utf8::encode_utf8((#[trigger] servers[i]).key()) != destination
}

/// Whether requests to `destination` go over some connection.
pub open spec fn is_reached(servers: Seq<EntryView>, destination: Seq<u8>) -> bool {
    exists|index: int|
        0 <= index < servers.len() && #[trigger] is_route(servers, destination, index)
}

/// This connection with one more request in its queue.
pub open spec fn with_request(state: ConnectionState, request: DoH3Request) -> ConnectionState {
    ConnectionState { requests: state.requests.push(request), ..state }
}

/// The shorter of two optional times.
pub open spec fn sooner(first: Option<u128>, second: u128) -> Option<u128> {
    match first {
        Some(time) => if time <= second {
            Some(time)
        } else {
            Some(second)
        },
        None => Some(second),
    }
}

fn shorten(timeout: Option<u128>, candidate: u128) -> (shorter: Option<u128>)
    ensures
        shorter == sooner(timeout, candidate),
{
    match timeout {
        Some(existing) => if existing <= candidate {
            Some(existing)
        } else {
            Some(candidate)
        },
        None => Some(candidate),
    }
}

/// Forwards DNS requests to DNS-over-HTTP/3 servers.
pub struct DoH3Backend {
    connections: Vec<DoH3ServerConnectionContainer>,
}

impl DoH3Backend {
    /// The servers that the backend speaks to.
    pub closed spec fn servers(self) -> Seq<EntryView> {
        entries(self.connections@)
    }

    /// What the connections to the servers have in hand.
    pub closed spec fn states(self) -> Seq<ConnectionState> {
        states(self.connections@)
    }

    /// There is one connection for each server.
    pub proof fn law_one_connection_for_each_server(self)
        ensures
            self.states().len() == self.servers().len(),
    {
    }

    /// Creates a new backend with the provided servers. The flag at a server's position tells
    /// whether a QUIC connection to it could be configured. If none of the servers are valid, an
    /// error is returned.
    pub fn new(servers: &Vec<Arc<NativeDnsServer>>, configured: &Vec<bool>) -> (backend: Result<
        Self,
        DoH3BackendError,
    >)
        requires
            configured@.len() == servers@.len(),
        ensures
            match backend {
                Ok(backend) => {
                    &&& backend.servers() == chosen(
                        validation::server_views(servers@),
                        configured@,
                    )
                    &&& backend.servers().len() > 0
                    &&& distinct_keys(backend.servers())
                    &&& backend.states() == Seq::new(
                        backend.servers().len(),
                        |i: int| connection::idle(),
                    )
                },
                Err(error) => error == DoH3BackendError::ConfigurationFailure && chosen(
                    validation::server_views(servers@),
                    configured@,
                ).len() == 0,
            },
    {
        let mut connections: Vec<DoH3ServerConnectionContainer> = Vec::new();
        let mut index: usize = 0;
        let ghost views = validation::server_views(servers@);
        assert(views.take(0) =~= Seq::empty());
        assert(entries(connections@) =~= Seq::empty());
        while index < servers.len()
            invariant
                index <= servers@.len(),
                configured@.len() == servers@.len(),
                views == validation::server_views(servers@),
                entries(connections@) == chosen(views.take(index as int), configured@),
                distinct_keys(entries(connections@)),
                forall|i: int|
                    0 <= i < connections@.len() ==> (#[trigger] connections@[i])@
                        == connection::idle(),
            decreases servers@.len() - index,
        {
            let server = &servers[index];
            assert(views.take(index + 1).drop_last() =~= views.take(index as int));
            assert(views.take(index + 1)[index as int] == server@);
            match server.get_type() {
                NativeDnsServerType::DoH3(domain_name, path) => {
                    match address::ip_from_octets(&server.get_address()) {
                        Some(ip) => {
                            if configured[index] {
                                let server = DoH3Server {
                                    domain_name,
                                    path,
                                    resolved_address: Endpoint { ip, port: DOH3_PORT },
                                };
                                let connection = DoH3ServerConnectionContainer::new(server, index);
                                assert(candidate(views[index as int], index as int) == Some(
                                    entry(connection),
                                ));
                                Self::add_connection(&mut connections, connection);
                            }
                        },
                        None => {},
                    }
                },
                NativeDnsServerType::Standard => {},
            }
            index = index + 1;
        }
        assert(views.take(index as int) =~= views);
        if connections.len() == 0 {
            return Err(DoH3BackendError::ConfigurationFailure);
        }
        let backend = DoH3Backend { connections };
        assert(backend.states() =~= Seq::new(
            backend.servers().len(),
            |i: int| connection::idle(),
        ));
        Ok(backend)
    }

    /// Finds the connection that a request to `destination` goes over.
    pub fn route(&self, destination: &[u8]) -> (found: Result<usize, DnsBackendError>)
        ensures
            match found {
                Ok(index) => index < self.servers().len() && is_route(
                    self.servers(),
                    destination@,
                    index as int,
                ),
                Err(error) => error == DnsBackendError::InvalidAddress && !is_reached(
                    self.servers(),
                    destination@,
                ),
            },
    {
        match Self::position(&self.connections, destination) {
            Some(index) => Ok(index),
            None => Err(DnsBackendError::InvalidAddress),
        }
    }

    /// Starts a session over the connection at `index`, unless it has one; names the first piece of
    /// work.
    pub fn begin_session(&self, index: usize) -> (work: SessionWork)
        requires
            index < self.servers().len(),
        ensures
            work == (if self.states()[index as int].session is Some {
                SessionWork::Return(Ok(()))
            } else {
                SessionWork::BindSocket
            }),
    {
        self.connections[index].begin_session()
    }

    /// Takes the outcome of a piece of work for the start of a session and names the next one.
    pub fn advance_session(&mut self, index: usize, work: SessionWork, outcome: SessionOutcome) -> (
    following: SessionWork)
        requires
            index < old(self).servers().len(),
            session::accepts(work, outcome),
        ensures
            (final(self).states()[index as int], following) == session::next(
                old(self).states()[index as int],
                work,
                outcome,
            ),
            final(self).states() == old(self).states().update(
                index as int,
                final(self).states()[index as int],
            ),
            final(self).servers() == old(self).servers(),
    {
        let following = self.connections[index].advance_session(work, outcome);
        assert(self.servers() =~= old(self).servers());
        assert(self.states() =~= old(self).states().update(
            index as int,
            self.states()[index as int],
        ));
        following
    }

    /// Queues the DNS message `packet`, which came in `request_packet`, for the connection at
    /// `index`, where `session` is how the start of its session ended: a session stands if it
    /// succeeded. A failed start is passed on and nothing is queued.
    pub fn forward_packet(
        &mut self,
        index: usize,
        session: Result<(), DnsBackendError>,
        packet: &[u8],
        request_packet: &[u8],
        now: u128,
    ) -> (forwarded: Result<(), DnsBackendError>)
        requires
            index < old(self).servers().len(),
            session is Ok ==> old(self).states()[index as int].session is Some,
            encoding::base64_len(packet@.len()) <= isize::MAX,
        ensures
            forwarded == session,
            session is Err ==> *final(self) == *old(self),
            session is Ok ==> ({
                let before = old(self).states()[index as int];
                let after = final(self).states()[index as int];
                &&& after.requests.len() == before.requests.len() + 1
                &&& after.requests.drop_last() == before.requests
                &&& after.requests.last().request_packet@ == request_packet@
                &&& after.session == before.session
                &&& after.packets == before.packets
                &&& after.streams == before.streams
            }),
            forall|i: int|
                0 <= i < old(self).states().len() && i != index ==> (
                #[trigger] final(self).states()[i]) == old(self).states()[i],
            session is Ok ==> ({
                let server = old(self).servers()[index as int];
                let request = final(self).states()[index as int].requests.last();
                &&& final(self).states() == old(self).states().update(
                    index as int,
                    with_request(old(self).states()[index as int], request),
                )
                &&& request.creation_time == now
                &&& request.request_packet@ == request_packet@
                &&& request::header_views(request.payload@) == request::request_headers(
                    server.domain_name,
                    server.path,
                    packet@,
                )
            }),
            final(self).servers() == old(self).servers(),
    {
        match session {
            Ok(_) => {
                let connection = &self.connections[index];
                let request = DoH3Request::new(
                    connection.server.domain_name.as_str(),
                    validation::copy_path(&connection.server.path),
                    request_packet,
                    packet,
                    now,
                );
                self.connections[index].request_queue.push_back(request);
                assert(self.servers() =~= old(self).servers());
                assert(self.states() =~= old(self).states().update(
                    index as int,
                    with_request(old(self).states()[index as int], request),
                ));
                assert(self.states()[index as int].requests.drop_last()
                    =~= old(self).states()[index as int].requests);
            },
            Err(_) => {},
        }
        session
    }

    /// Starts a pass over the connection at `index`; names the first piece of work.
    pub fn begin_pass(&self, index: usize) -> (work: ConnectionWork)
        requires
            index < self.servers().len(),
        ensures
            work == (if self.states()[index as int].session is Some {
                ConnectionWork::ExpireRequests
            } else {
                ConnectionWork::Finished
            }),
            connection::in_pass(self.states()[index as int], work),
    {
        self.connections[index].begin_pass()
    }

    /// Takes the outcome of a piece of work for the connection at `index` and names the next one.
    pub fn advance(&mut self, index: usize, work: ConnectionWork, outcome: ConnectionOutcome) -> (
    following: ConnectionWork)
        requires
            index < old(self).servers().len(),
            connection::in_pass(old(self).states()[index as int], work),
            connection::accepts(work, outcome),
        ensures
            (final(self).states()[index as int], following) == connection::next(
                old(self).states()[index as int],
                work,
                outcome,
            ),
            connection::in_pass(final(self).states()[index as int], following),
            final(self).states() == old(self).states().update(
                index as int,
                final(self).states()[index as int],
            ),
            final(self).servers() == old(self).servers(),
    {
        let following = self.connections[index].advance(work, outcome);
        assert(self.servers() =~= old(self).servers());
        assert(self.states() =~= old(self).states().update(
            index as int,
            self.states()[index as int],
        ));
        following
    }

    /// Returns the number of connections.
    pub fn connection_count(&self) -> (count: usize)
        ensures
            count == self.servers().len(),
            count == self.states().len(),
    {
        self.connections.len()
    }

    /// Returns the connection at `index`.
    pub fn connection(&self, index: usize) -> (connection: &DoH3ServerConnectionContainer)
        requires
            index < self.servers().len(),
        ensures
            entry(*connection) == self.servers()[index as int],
            connection@ == self.states()[index as int],
    {
        &self.connections[index]
    }

    /// Returns the most events that one poll can bring for the connections.
    pub fn get_max_events_count(&self) -> (count: usize)
        requires
            self.servers().len() * 1024 <= usize::MAX,
        ensures
            count == self.servers().len() * 1024,
    {
        self.connections.len() * 1024
    }

    /// Returns whether the socket of the connection at `index` has to be handed to the poller.
    pub fn needs_registration(&self, index: usize) -> (needed: bool)
        requires
            index < self.servers().len(),
        ensures
            needed == wants_registration(self.states()[index as int]),
    {
        match self.connections[index].active_session {
            Some(session) => !session.socket_registered && session.socket,
            None => false,
        }
    }

    /// Notes how the registrations with the poller went: `outcomes` holds one entry for each
    /// connection, and matters where the connection needed a registration. Returns the number of
    /// sources that are polled. A registration is tried once.
    pub fn register_sources(&mut self, outcomes: &Vec<RegistrationOutcome>) -> (registered: usize)
        requires
            outcomes@.len() == old(self).servers().len(),
        ensures
            registered == registered_count(old(self).states(), outcomes@),
            final(self).states() == old(self).states().map_values(
                |state: ConnectionState| after_registration(state),
            ),
            final(self).servers() == old(self).servers(),
    {
        let ghost before = self.states();
        let mut registered: usize = 0;
        let mut index: usize = 0;
        assert(before.take(0) =~= Seq::empty());
        while index < self.connections.len()
            invariant
                before == old(self).states(),
                outcomes@.len() == before.len(),
                self.connections@.len() == before.len(),
                index <= before.len(),
                registered <= index,
                registered == registered_count(before.take(index as int), outcomes@),
                self.servers() == old(self).servers(),
                forall|i: int|
                    0 <= i < index ==> (#[trigger] self.connections@[i])@ == after_registration(
                        before[i],
                    ),
                forall|i: int|
                    index <= i < before.len() ==> (#[trigger] self.connections@[i])@ == before[i],
            decreases before.len() - index,
        {
            let ghost current = self.connections@;
            assert(before.take(index + 1).drop_last() =~= before.take(index as int));
            assert(before.take(index + 1)[index as int] == before[index as int]);
            assert(self.connections@[index as int]@ == before[index as int]);
            if let Some(session) = self.connections[index].active_session {
                if session.socket_registered {
                    registered = registered + 1;
                } else if session.socket {
                    if outcomes[index] != RegistrationOutcome::Failed {
                        registered = registered + 1;
                    }
                    self.connections[index].active_session = Some(
                        DoH3ServerSession { socket_registered: true, ..session },
                    );
                }
            }
            assert(forall|i: int|
                0 <= i < before.len() && i != index ==> #[trigger] self.connections@[i]
                    == current[i]);
            assert(self.servers() =~= old(self).servers()) by {
                assert(forall|i: int|
                    0 <= i < before.len() ==> #[trigger] self.servers()[i] == entry(current[i]));
            }
            index = index + 1;
        }
        assert(before.take(index as int) =~= before);
        assert(self.states() =~= before.map_values(
            |state: ConnectionState| after_registration(state),
        ));
        registered
    }

    /// Returns how long a poll may last at most: the shortest time among those by which queued
    /// packets are late and the time-outs of the QUIC connections, given in `quic_timeouts` for each
    /// connection. Connections without a session do not count.
    pub fn get_poll_timeout(&self, quic_timeouts: &Vec<Option<u128>>, now: u128) -> (timeout: Option<
        u128,
    >)
        requires
            quic_timeouts@.len() == self.servers().len(),
        ensures
            is_least(wake_times(self.states(), quic_timeouts@, now), timeout),
            timeout matches Some(time) ==> exists|i: int, j: int| #[trigger]
                wakes_after(self.states(), quic_timeouts@, now, i, j, time),
            forall|i: int, j: int, time: u128| #[trigger]
                wakes_after(self.states(), quic_timeouts@, now, i, j, time) ==> timeout is Some
                    && timeout->0 <= time,
    {
        let ghost all = self.states();
        let mut timeout: Option<u128> = None;
        let mut index: usize = 0;
        assert(wake_times(all.take(0), quic_timeouts@, now) =~= Set::empty());
        while index < self.connections.len()
            invariant
                all == self.states(),
                all.len() == self.connections@.len(),
                quic_timeouts@.len() == all.len(),
                index <= all.len(),
                is_least(
                    wake_times(all.take(index as int), quic_timeouts@, now),
                    timeout,
                ),
            decreases all.len() - index,
        {
            let connection = &self.connections[index];
            let ghost state = connection@;
            assert(state == all[index as int]);
            let mut own: Option<u128> = None;
            if connection.active_session.is_some() {
                let mut packet: usize = 0;
                assert(lateness(connection.queued_packets@.take(0), now) =~= Set::empty());
                while packet < connection.queued_packets.len()
                    invariant
                        packet <= connection.queued_packets@.len(),
                        is_least(
                            lateness(connection.queued_packets@.take(packet as int), now),
                            own,
                        ),
                    decreases connection.queued_packets@.len() - packet,
                {
                    let at = connection.queued_packets[packet].send_info.at;
                    proof {
                        lemma_lateness_step(connection.queued_packets@, packet as int, now);
                    }
                    if at <= now {
                        own = shorten(own, now - at);
                    }
                    packet = packet + 1;
                }
                assert(connection.queued_packets@.take(packet as int)
                    =~= connection.queued_packets@);
                if let Some(duration) = quic_timeouts[index] {
                    own = shorten(own, duration);
                }
            }
            assert(is_least(session_wake_times(state, quic_timeouts@[index as int], now), own));
            proof {
                lemma_wake_times_step(all, quic_timeouts@, index as int, now);
            }
            let ghost sooner_times = wake_times(all.take(index as int), quic_timeouts@, now);
            let ghost own_times = session_wake_times(state, quic_timeouts@[index as int], now);
            if let Some(duration) = own {
                timeout = shorten(timeout, duration);
                assert(sooner_times.union(own_times).contains(timeout->0));
            } else {
                assert(sooner_times.union(own_times) =~= sooner_times);
            }
            index = index + 1;
        }
        assert(all.take(index as int) =~= all);
        proof {
            lemma_wake_times(all, quic_timeouts@, now);
            if let Some(time) = timeout {
                assert(wake_times(all, quic_timeouts@, now).contains(time));
            }
        }
        timeout
    }

    /// Finds the connection whose server has the key `key`.
    fn position(connections: &Vec<DoH3ServerConnectionContainer>, key: &[u8]) -> (position: Option<
        usize,
    >)
        ensures
            match position {
                Some(index) => index < connections@.len() && vstd::utf8::encode_utf8(
                    entries(connections@)[index as int].key(),
                ) == key@ && forall|i: int|
                    0 <= i < index ==> vstd::utf8::encode_utf8(
                        (#[trigger] entries(connections@)[i]).key(),
                    ) != key@,
                None => forall|i: int|
                    0 <= i < connections@.len() ==> vstd::utf8::encode_utf8(
                        (#[trigger] entries(connections@)[i]).key(),
                    ) != key@,
            },
    {
        let mut index: usize = 0;
        while index < connections.len()
            invariant
                index <= connections@.len(),
                forall|i: int|
                    0 <= i < index ==> vstd::utf8::encode_utf8(
                        (#[trigger] entries(connections@)[i]).key(),
                    ) != key@,
            decreases connections@.len() - index,
        {
            assert(entries(connections@)[index as int] == entry(connections@[index as int]));
            if connections[index].server.has_key(key) {
                return Some(index);
            }
            index = index + 1;
        }
        None
    }

    /// Puts a connection in the place of the one that has its key, or behind the others.
    fn add_connection(
        connections: &mut Vec<DoH3ServerConnectionContainer>,
        connection: DoH3ServerConnectionContainer,
    )
        requires
            distinct_keys(entries(old(connections)@)),
        ensures
            entries(final(connections)@) == with_entry(
                entries(old(connections)@),
                entry(connection),
            ),
            distinct_keys(entries(final(connections)@)),
            forall|i: int|
                0 <= i < final(connections)@.len() ==> {
                    ||| #[trigger] final(connections)@[i] == connection
                    ||| i < old(connections)@.len() && final(connections)@[i] == old(
                        connections,
                    )@[i]
                },
    {
        let key = connection.server.key();
        let ghost before = entries(connections@);
        let ghost added = entry(connection);
        proof {
            keys(before).index_of_first_ensures(added.key());
        }
        match Self::position(connections, key.as_str().as_bytes()) {
            Some(index) => {
                proof {
                    text::law_utf8_injective(before[index as int].key(), added.key());
                    assert(keys(before)[index as int] == added.key());
                    let first = keys(before).index_of_first(added.key())->0;
                    assert(keys(before)[first] == before[first].key());
                }
                connections[index] = connection;
                assert(entries(connections@) =~= before.update(index as int, added));
            },
            None => {
                assert forall|i: int| 0 <= i < before.len() implies keys(before)[i] != added.key() by {
                    assert(keys(before)[i] == before[i].key());
                }
                connections.push(connection);
                assert(entries(connections@) =~= before.push(added));
                assert(keys(before).index_of_first(added.key()) is None);
                assert forall|i: int, j: int|
                    0 <= i < j < entries(connections@).len() implies (#[trigger] entries(
                    connections@,
                )[i]).key() != (#[trigger] entries(connections@)[j]).key() by {
                    assert(keys(before)[i] == before[i].key());
                }
            },
        }
    }
}

impl DoH3Server {
    /// The key of this server: its name followed by its path.
    pub open spec fn key_view(self) -> Seq<char> {
        self.domain_name@ + text::text_or_empty(text::optional_text(self.path))
    }

    /// Returns the text under which requests find the server.
    pub fn key(&self) -> (key: String)
        ensures
            key@ == self.key_view(),
    {
        match &self.path {
            Some(path) => text::join(self.domain_name.as_str(), path.as_str()),
            None => {
                assert(self.key_view() =~= self.domain_name@);
                self.domain_name.clone()
            },
        }
    }

    /// Tells whether these bytes are the key of the server.
    pub fn has_key(&self, bytes: &[u8]) -> (same: bool)
        ensures
            same == (vstd::utf8::encode_utf8(self.key_view()) == bytes@),
    {
        let key = self.key();
        let own = key.as_str().as_bytes();
        if own.len() != bytes.len() {
            return false;
        }
        let mut index: usize = 0;
        while index < own.len()
            invariant
                own@ == vstd::utf8::encode_utf8(self.key_view()),
                own@.len() == bytes@.len(),
                index <= own@.len(),
                forall|i: int| 0 <= i < index ==> own@[i] == bytes@[i],
            decreases own@.len() - index,
        {
            if own[index] != bytes[index] {
                return false;
            }
            index = index + 1;
        }
        assert(own@ =~= bytes@);
        true
    }
}

/// How one more packet changes the times by which packets are late.
proof fn lemma_lateness_step(packets: Seq<QueuedDoH3Packet>, count: int, now: u128)
    requires
        0 <= count < packets.len(),
    ensures
        lateness(packets.take(count + 1), now) == if packets[count].send_info.at <= now {
            lateness(packets.take(count), now).insert((now - packets[count].send_info.at) as u128)
        } else {
            lateness(packets.take(count), now)
        },
{
    let before = packets.take(count);
    let after = packets.take(count + 1);
    assert(forall|j: int| 0 <= j < count ==> #[trigger] before[j] == after[j]);
    assert(forall|j: int| 0 <= j < count ==> #[trigger] after[j] == before[j]);
    assert(after[count] == packets[count]);
    if packets[count].send_info.at <= now {
        let late = (now - packets[count].send_info.at) as u128;
        assert(lateness(after, now) =~= lateness(before, now).insert(late));
    } else {
        assert(lateness(after, now) =~= lateness(before, now));
    }
}

/// How one more connection changes the times after which there is a reason to wake up.
proof fn lemma_wake_times_step(
    connections: Seq<ConnectionState>,
    quic_timeouts: Seq<Option<u128>>,
    count: int,
    now: u128,
)
    requires
        0 <= count < connections.len(),
    ensures
        wake_times(connections.take(count + 1), quic_timeouts, now) == wake_times(
            connections.take(count),
            quic_timeouts,
            now,
        ).union(session_wake_times(connections[count], quic_timeouts[count], now)),
{
    let before = connections.take(count);
    let after = connections.take(count + 1);
    let own = session_wake_times(connections[count], quic_timeouts[count], now);
    assert forall|duration: u128|
        wake_times(after, quic_timeouts, now).contains(duration) == wake_times(
            before,
            quic_timeouts,
            now,
        ).union(own).contains(duration) by {
        if wake_times(before, quic_timeouts, now).contains(duration) {
            let i = choose|i: int|
                0 <= i < before.len() && #[trigger] session_wake_times(
                    before[i],
                    quic_timeouts[i],
                    now,
                ).contains(duration);
            assert(session_wake_times(after[i], quic_timeouts[i], now).contains(duration));
        }
        if own.contains(duration) {
            assert(session_wake_times(after[count], quic_timeouts[count], now).contains(duration));
        }
        if wake_times(after, quic_timeouts, now).contains(duration) && !own.contains(duration) {
            let i = choose|i: int|
                0 <= i < after.len() && #[trigger] session_wake_times(
                    after[i],
                    quic_timeouts[i],
                    now,
                ).contains(duration);
            assert(session_wake_times(before[i], quic_timeouts[i], now).contains(duration));
        }
    }
    assert(wake_times(after, quic_timeouts, now) =~= wake_times(before, quic_timeouts, now).union(
        own,
    ));
}

/// Whether the server at `index` is one that the backend speaks to: it can, and the connection could
/// be configured.
pub open spec fn usable(servers: Seq<ServerView>, configured: Seq<bool>, index: int) -> bool {
    candidate(servers[index], index) is Some && configured[index]
}

/// How one more server changes the servers that the backend speaks to.
proof fn lemma_with_entry(servers: Seq<EntryView>, server: EntryView)
    requires
        distinct_keys(servers),
    ensures
        distinct_keys(with_entry(servers, server)),
        with_entry(servers, server).contains(server),
        forall|other: EntryView|
            other.key() != server.key() && servers.contains(other) ==> #[trigger] with_entry(
                servers,
                server,
            ).contains(other),
        forall|other: EntryView| #[trigger]
            with_entry(servers, server).contains(other) ==> other == server || servers.contains(
                other,
            ),
        with_entry(servers, server).len() > 0,
{
    let all = keys(servers);
    let after = with_entry(servers, server);
    all.index_of_first_ensures(server.key());
    assert forall|i: int| 0 <= i < servers.len() implies all[i] == (#[trigger] servers[i]).key() by {}
    match all.index_of_first(server.key()) {
        Some(index) => {
            assert(all[index] == servers[index].key());
            assert(after[index] == server);
            assert forall|other: EntryView|
                other.key() != server.key() && servers.contains(other) implies #[trigger] after.contains(
                other,
            ) by {
                let i = choose|i: int| 0 <= i < servers.len() && servers[i] == other;
                assert(after[i] == other);
            }
        },
        None => {
            assert(after[servers.len() as int] == server);
            assert forall|i: int| 0 <= i < servers.len() implies (#[trigger] servers[i]).key()
                != server.key() by {
                assert(all[i] == servers[i].key());
            }
            assert forall|other: EntryView|
                other.key() != server.key() && servers.contains(other) implies #[trigger] after.contains(
                other,
            ) by {
                let i = choose|i: int| 0 <= i < servers.len() && servers[i] == other;
                assert(after[i] == other);
            }
        },
    }
    assert forall|other: EntryView| #[trigger] after.contains(other) implies other == server
        || servers.contains(other) by {
        let i = choose|i: int| 0 <= i < after.len() && after[i] == other;
        if i < servers.len() {
            assert(servers[i] == other || other == server);
        }
    }
}

/// No two of the servers that the backend speaks to have the same name and path.
pub proof fn law_chosen_servers_differ(servers: Seq<ServerView>, configured: Seq<bool>)
    ensures
        distinct_keys(chosen(servers, configured)),
    decreases servers.len(),
{
    if servers.len() > 0 {
        let front = servers.drop_last();
        let index = servers.len() - 1;
        law_chosen_servers_differ(front, configured);
        if let Some(server) = candidate(servers[index], index) {
            lemma_with_entry(chosen(front, configured), server);
        }
    }
}

/// Every server that the backend speaks to is one that it was given, under the position of that
/// server, and it could be configured.
pub proof fn law_chosen_servers_were_given(
    servers: Seq<ServerView>,
    configured: Seq<bool>,
    server: EntryView,
)
    requires
        chosen(servers, configured).contains(server),
    ensures
        0 <= server.token < servers.len(),
        candidate(servers[server.token], server.token) == Some(server),
        configured[server.token],
    decreases servers.len(),
{
    if servers.len() > 0 {
        let front = servers.drop_last();
        let index = servers.len() - 1;
        let before = chosen(front, configured);
        law_chosen_servers_differ(front, configured);
        if let Some(added) = candidate(servers[index], index) {
            if configured[index] {
                lemma_with_entry(before, added);
            }
        }
        if before.contains(server) {
            law_chosen_servers_were_given(front, configured, server);
            assert(front[server.token] == servers[server.token]);
        }
    }
}

/// Of several usable servers with the same name and path the backend speaks to the last one.
pub proof fn law_last_server_counts(
    servers: Seq<ServerView>,
    configured: Seq<bool>,
    index: int,
)
    requires
        0 <= index < servers.len(),
        usable(servers, configured, index),
        forall|later: int|
            index < later < servers.len() && #[trigger] usable(servers, configured, later)
                ==> candidate(servers[later], later)->0.key() != candidate(
                servers[index],
                index,
            )->0.key(),
    ensures
        chosen(servers, configured).contains(candidate(servers[index], index)->0),
    decreases servers.len(),
{
    let front = servers.drop_last();
    let last = servers.len() - 1;
    let server = candidate(servers[index], index)->0;
    law_chosen_servers_differ(front, configured);
    if index == last {
        lemma_with_entry(chosen(front, configured), server);
    } else {
        assert(front[index] == servers[index]);
        assert forall|later: int|
            index < later < front.len() && #[trigger] usable(front, configured, later) implies candidate(
            front[later],
            later,
        )->0.key() != candidate(front[index], index)->0.key() by {
            assert(front[later] == servers[later]);
            assert(usable(servers, configured, later));
        }
        law_last_server_counts(front, configured, index);
        if usable(servers, configured, last) {
            lemma_with_entry(chosen(front, configured), candidate(servers[last], last)->0);
        }
    }
}

/// A request that goes to the DoH3 address of a usable server finds the connection to a server with
/// this address.
pub proof fn law_usable_server_is_reached(
    servers: Seq<ServerView>,
    configured: Seq<bool>,
    index: int,
)
    requires
        0 <= index < servers.len(),
        usable(servers, configured, index),
    ensures
        servers[index].kind.doh3_address() is Some,
        is_reached(
            chosen(servers, configured),
            vstd::utf8::encode_utf8(servers[index].kind.doh3_address()->0),
        ),
    decreases servers.len() - index,
{
    let key = candidate(servers[index], index)->0.key();
    assert(servers[index].kind.doh3_address() == Some(key));
    if exists|later: int|
        index < later < servers.len() && #[trigger] usable(servers, configured, later)
            && candidate(servers[later], later)->0.key() == key {
        let later = choose|later: int|
            index < later < servers.len() && #[trigger] usable(servers, configured, later)
                && candidate(servers[later], later)->0.key() == key;
        law_usable_server_is_reached(servers, configured, later);
        assert(servers[later].kind.doh3_address() == Some(key));
    } else {
        let entries = chosen(servers, configured);
        law_last_server_counts(servers, configured, index);
        law_chosen_servers_differ(servers, configured);
        let server = candidate(servers[index], index)->0;
        let route = choose|i: int| 0 <= i < entries.len() && entries[i] == server;
        assert forall|i: int| 0 <= i < route implies vstd::utf8::encode_utf8(
            (#[trigger] entries[i]).key(),
        ) != vstd::utf8::encode_utf8(key) by {
            if vstd::utf8::encode_utf8(entries[i].key()) == vstd::utf8::encode_utf8(key) {
                text::law_utf8_injective(entries[i].key(), key);
                assert(entries[i].key() != entries[route].key());
            }
        }
        assert(is_route(entries, vstd::utf8::encode_utf8(key), route));
    }
}

/// The backend fails to start exactly if no server is usable.
pub proof fn law_no_backend_without_servers(servers: Seq<ServerView>, configured: Seq<bool>)
    ensures
        chosen(servers, configured).len() == 0 <==> forall|index: int|
            0 <= index < servers.len() ==> !#[trigger] usable(servers, configured, index),
{
    let entries = chosen(servers, configured);
    if entries.len() > 0 {
        let server = entries[0];
        assert(entries.contains(server));
        law_chosen_servers_were_given(servers, configured, server);
        assert(usable(servers, configured, server.token));
    }
    if exists|index: int|
        0 <= index < servers.len() && #[trigger] usable(servers, configured, index) {
        let index = choose|index: int|
            0 <= index < servers.len() && #[trigger] usable(servers, configured, index);
        law_usable_server_is_reached(servers, configured, index);
    }
}

/// A destination leads to a connection exactly if it is the DoH3 address of a usable server.
pub proof fn law_destinations_are_addresses(
    servers: Seq<ServerView>,
    configured: Seq<bool>,
    destination: Seq<u8>,
)
    ensures
        is_reached(chosen(servers, configured), destination) <==> exists|index: int|
            0 <= index < servers.len() && #[trigger] usable(servers, configured, index)
                && vstd::utf8::encode_utf8(servers[index].kind.doh3_address()->0) == destination,
{
    let entries = chosen(servers, configured);
    if is_reached(entries, destination) {
        let route = choose|route: int|
            0 <= route < entries.len() && #[trigger] is_route(entries, destination, route);
        let server = entries[route];
        assert(entries.contains(server));
        law_chosen_servers_were_given(servers, configured, server);
        assert(usable(servers, configured, server.token));
        assert(servers[server.token].kind.doh3_address() == Some(server.key()));
    }
    if exists|index: int|
        0 <= index < servers.len() && #[trigger] usable(servers, configured, index)
            && vstd::utf8::encode_utf8(servers[index].kind.doh3_address()->0) == destination {
        let index = choose|index: int|
            0 <= index < servers.len() && #[trigger] usable(servers, configured, index)
                && vstd::utf8::encode_utf8(servers[index].kind.doh3_address()->0) == destination;
        law_usable_server_is_reached(servers, configured, index);
    }
}

/// No connection is polled under a token of the main loop.
pub proof fn law_tokens_are_free(servers: Seq<ServerView>, configured: Seq<bool>, index: int)
    requires
        servers.len() < usize::MAX,
        0 <= index < chosen(servers, configured).len(),
    ensures
        0 <= chosen(servers, configured)[index].token < vpn::VPN_CONTROLLER_TOKEN < vpn::VPN_TOKEN,
{
    let entries = chosen(servers, configured);
    assert(entries.contains(entries[index]));
    law_chosen_servers_were_given(servers, configured, entries[index]);
}

/// No two connections are polled under the same token.
pub proof fn law_tokens_differ(
    servers: Seq<ServerView>,
    configured: Seq<bool>,
    first: int,
    second: int,
)
    requires
        0 <= first < second < chosen(servers, configured).len(),
    ensures
        chosen(servers, configured)[first].token != chosen(servers, configured)[second].token,
{
    let entries = chosen(servers, configured);
    assert(entries.contains(entries[first]));
    assert(entries.contains(entries[second]));
    law_chosen_servers_were_given(servers, configured, entries[first]);
    law_chosen_servers_were_given(servers, configured, entries[second]);
    law_chosen_servers_differ(servers, configured);
}

/// A registration with the poller is tried once for a session.
pub proof fn law_registration_is_tried_once(state: ConnectionState)
    ensures
        !wants_registration(after_registration(state)),
        after_registration(after_registration(state)) == after_registration(state),
{
}

/// Connections without a session never cut a poll short.
pub proof fn law_idle_connections_wait(
    connections: Seq<ConnectionState>,
    quic_timeouts: Seq<Option<u128>>,
    now: u128,
    timeout: Option<u128>,
)
    requires
        forall|i: int| 0 <= i < connections.len() ==> (#[trigger] connections[i]).session is None,
        is_least(wake_times(connections, quic_timeouts, now), timeout),
    ensures
        timeout is None,
{
    if let Some(time) = timeout {
        assert(wake_times(connections, quic_timeouts, now).contains(time));
        let i = choose|i: int|
            0 <= i < connections.len() && #[trigger] session_wake_times(
                connections[i],
                quic_timeouts[i],
                now,
            ).contains(time);
        assert(connections[i].session is None);
    }
}

/// A poll never lasts longer than the time-out of a QUIC connection that is in use.
pub proof fn law_poll_ends_for_quic(
    connections: Seq<ConnectionState>,
    quic_timeouts: Seq<Option<u128>>,
    now: u128,
    timeout: Option<u128>,
    index: int,
)
    requires
        0 <= index < connections.len(),
        connections[index].session is Some,
        quic_timeouts[index] is Some,
        is_least(wake_times(connections, quic_timeouts, now), timeout),
    ensures
        timeout matches Some(time) && time <= quic_timeouts[index]->0,
{
    let duration = quic_timeouts[index]->0;
    assert(session_wake_times(connections[index], quic_timeouts[index], now).contains(duration));
    assert(wake_times(connections, quic_timeouts, now).contains(duration));
}

/// The backend speaks to exactly those servers that are DoH3 servers with four or sixteen octets, on
/// port 443, under the name, the path, the octets and the position that they were given with.
pub proof fn law_servers_that_can_be_spoken_to(
    server: ServerView,
    name: Seq<char>,
    path: Option<Seq<char>>,
    index: int,
)
    ensures
        server.kind is Standard ==> candidate(server, index) is None,
        server.address.len() != 4 && server.address.len() != 16 ==> candidate(server, index) is None,
        server.kind == ServerKind::DoH3(name, path) && (server.address.len() == 4
            || server.address.len() == 16) ==> {
            &&& candidate(server, index) is Some
            &&& candidate(server, index)->0.domain_name == name
            &&& candidate(server, index)->0.path == path
            &&& candidate(server, index)->0.address == server.address
            &&& candidate(server, index)->0.port == 443
            &&& candidate(server, index)->0.token == index
        },
{
}

/// A server is found under its name followed by its path, if it has one.
pub proof fn law_keys(server: EntryView, path: Seq<char>)
    ensures
        server.path is None ==> server.key() == server.domain_name,
        server.path == Some(path) ==> server.key() == server.domain_name + path,
{
    assert(server.domain_name + Seq::<char>::empty() =~= server.domain_name);
}

/// What is known of a connection's server is what the connection holds.
pub proof fn law_entries(
    connection: DoH3ServerConnectionContainer,
    connections: Seq<DoH3ServerConnectionContainer>,
    index: int,
)
    requires
        0 <= index < connections.len(),
    ensures
        entry(connection).domain_name == connection.server.domain_name@,
        connection.server.path is None ==> entry(connection).path is None,
        connection.server.path is Some ==> entry(connection).path == Some(
            connection.server.path->0@,
        ),
        entry(connection).address == connection.server.resolved_address.ip.octets_view(),
        entry(connection).port == connection.server.resolved_address.port,
        entry(connection).token == connection.token,
        entries(connections).len() == connections.len(),
        entries(connections)[index] == entry(connections[index]),
        states(connections).len() == connections.len(),
        states(connections)[index] == connections[index]@,
{
}

/// A destination leads to the connection whose server's name, followed by its path, has its bytes; of
/// several such connections it would be the first one.
pub proof fn law_routes(
    servers: Seq<EntryView>,
    destination: Seq<u8>,
    index: int,
    path: Seq<char>,
)
    requires
        0 <= index < servers.len(),
        distinct_keys(servers),
    ensures
        servers[index].path is None ==> (is_route(servers, destination, index) <==> destination
            == vstd::utf8::encode_utf8(servers[index].domain_name)),
        servers[index].path == Some(path) ==> (is_route(servers, destination, index) <==> destination
            == vstd::utf8::encode_utf8(servers[index].domain_name + path)),
        is_reached(servers, destination) <==> exists|i: int|
            0 <= i < servers.len() && vstd::utf8::encode_utf8((#[trigger] servers[i]).key())
                == destination,
{
    assert(servers[index].domain_name + Seq::<char>::empty() =~= servers[index].domain_name);
    assert forall|i: int| 0 <= i < servers.len() && vstd::utf8::encode_utf8(
        (#[trigger] servers[i]).key(),
    ) == destination implies is_route(servers, destination, i) by {
        assert forall|k: int| 0 <= k < i implies vstd::utf8::encode_utf8(
            (#[trigger] servers[k]).key(),
        ) != destination by {
            if vstd::utf8::encode_utf8(servers[k].key()) == destination {
                text::law_utf8_injective(servers[k].key(), servers[i].key());
            }
        }
    }
    if exists|i: int|
        0 <= i < servers.len() && vstd::utf8::encode_utf8((#[trigger] servers[i]).key())
            == destination {
        let i = choose|i: int|
            0 <= i < servers.len() && vstd::utf8::encode_utf8((#[trigger] servers[i]).key())
                == destination;
        assert(is_route(servers, destination, i));
    }
    if is_reached(servers, destination) {
        let route = choose|route: int|
            0 <= route < servers.len() && #[trigger] is_route(servers, destination, route);
        assert(vstd::utf8::encode_utf8(servers[route].key()) == destination);
    }
}

/// A socket is handed to the poller exactly if there is a session that has one and did not hand it over
/// yet; afterwards it counts as handed over, and nothing else changes. A connection counts as polled if
/// its socket was handed over before, or is handed over now and the poller takes or has it.
pub proof fn law_registrations(
    state: ConnectionState,
    session: DoH3ServerSession,
    outcome: RegistrationOutcome,
    front: Seq<ConnectionState>,
    outcomes: Seq<RegistrationOutcome>,
)
    requires
        outcomes.len() > front.len(),
        outcomes[front.len() as int] == outcome,
    ensures
        registered_count(Seq::empty(), outcomes) == 0,
        state.session is None ==> {
            &&& !wants_registration(state)
            &&& after_registration(state) == state
            &&& registered_count(front.push(state), outcomes) == registered_count(front, outcomes)
        },
        state.session == Some(session) ==> {
            let after = after_registration(state);
            &&& wants_registration(state) <==> session.socket && !session.socket_registered
            &&& after.session is Some
            &&& after.session->0.socket == session.socket
            &&& after.session->0.http3 == session.http3
            &&& after.session->0.socket_registered == (session.socket || session.socket_registered)
            &&& after.requests == state.requests
            &&& after.packets == state.packets
            &&& after.streams == state.streams
            &&& registered_count(front.push(state), outcomes) == registered_count(front, outcomes)
                + if session.socket_registered || (session.socket && !(outcome is Failed)) {
                1int
            } else {
                0int
            }
        },
{
    assert(front.push(state).drop_last() =~= front);
    assert(front.push(state)[front.len() as int] == state);
}

/// The limits of the connections: idle ones are given up after thirty seconds, what is sent fits into
/// the buffer for datagrams, and what is received fits into a datagram of any size.
pub proof fn law_limits_of_connections(length: u16)
    ensures
        CONNECTION_TIMEOUT_SECONDS == 30,
        OUTPUT_BUFFER_SIZE == 1350,
        length <= INPUT_BUFFER_SIZE,
        INPUT_BUFFER_SIZE <= u16::MAX,
        connection::CLOSE_ERROR_CODE == 1,
        connection::CLOSE_REASON@ == seq!['f', 'a', 'i', 'l'],
{
    reveal_strlit("fail");
    assert("fail"@ =~= seq!['f', 'a', 'i', 'l']);
}

} // verus!
