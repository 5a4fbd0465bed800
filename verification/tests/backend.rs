use libnet::address::IpRecord;
use libnet::backend::connection::{
    ConnectionOutcome, ConnectionWork, QueuedDoH3Packet, SendInfo,
};
use libnet::backend::doh3::{
    transport_settings, DoH3Backend, DoH3BackendError, RegistrationOutcome,
};
use libnet::backend::events::BackendWork;
use libnet::backend::request::headers_to_strings;
use libnet::backend::session::{DnsBackendError, SessionOutcome, SessionWork};
use libnet::run::backend_addresses;
use libnet::validation::{NativeDnsServer, NativeDnsServerType};
use std::sync::Arc;

fn doh3(address: Vec<u8>, name: &str, path: Option<&str>) -> Arc<NativeDnsServer> {
    let path = path.map(|path| path.to_string());
    let kind = NativeDnsServerType::DoH3(name.to_string(), path);
    Arc::new(NativeDnsServer::new(address, kind))
}

fn backend(servers: &Vec<Arc<NativeDnsServer>>) -> DoH3Backend {
    match DoH3Backend::new(servers, &vec![true; servers.len()]) {
        Ok(backend) => backend,
        Err(_) => panic!("no backend"),
    }
}

fn two() -> DoH3Backend {
    backend(&vec![
        doh3(vec![1, 1, 1, 1], "a", None),
        doh3(vec![2; 16], "b", Some("/x")),
    ])
}

fn start(backend: &mut DoH3Backend, index: usize) -> Result<(), DnsBackendError> {
    let mut work = backend.begin_session(index);
    loop {
        let outcome = match work {
            SessionWork::DrawConnectionId => SessionOutcome::ConnectionId(Ok(vec![7; 20])),
            SessionWork::Return(result) => return result,
            _ => SessionOutcome::Done,
        };
        work = backend.advance_session(index, work, outcome);
    }
}

/// Queues a packet that is due at `at` over the connection at `index`.
fn queue_packet(backend: &mut DoH3Backend, index: usize, at: u128) {
    let to = backend.connection(index).server.resolved_address;
    let packet = QueuedDoH3Packet {
        send_info: SendInfo { at, to },
        buffer: vec![1],
    };
    let work = ConnectionWork::WritePacket;
    let work = backend.advance(index, work, ConnectionOutcome::Packet(packet));
    let work = backend.advance(index, work, ConnectionOutcome::Clock(0));
    assert!(matches!(work, ConnectionWork::WritePacket));
}

#[test]
fn settings_of_connections() {
    let settings = transport_settings();
    assert_eq!(settings.max_idle_timeout_millis, 30_000);
    assert_eq!(settings.max_send_udp_payload_size, 1350);
    assert_eq!(settings.max_recv_udp_payload_size, 1350);
    assert_eq!(settings.initial_max_streams_bidi, 100);
    assert_eq!(settings.initial_max_streams_uni, 100);
    assert_eq!(settings.initial_max_data, 10_000_000);
    assert_eq!(settings.initial_max_stream_data_bidi_local, 10_000_000);
    assert_eq!(settings.initial_max_stream_data_bidi_remote, 10_000_000);
    assert_eq!(settings.initial_max_stream_data_uni, 10_000_000);
    assert!(settings.disable_active_migration);
}

#[test]
fn usable_servers_are_kept() {
    let servers = vec![
        Arc::new(NativeDnsServer::new(vec![9; 4], NativeDnsServerType::Standard)),
        doh3(vec![1, 1, 1, 1], "a", None),
        doh3(vec![1, 1, 1], "short", None),
        doh3(vec![3; 4], "unconfigured", None),
        doh3(vec![2; 16], "b", Some("/x")),
    ];
    let configured = vec![true, true, true, false, true];
    let backend = match DoH3Backend::new(&servers, &configured) {
        Ok(backend) => backend,
        Err(_) => panic!("no backend"),
    };
    assert_eq!(backend.connection_count(), 2);
    let first = backend.connection(0);
    assert_eq!(first.server.domain_name, "a");
    assert_eq!(first.server.path, None);
    assert_eq!(first.server.resolved_address.ip, IpRecord::V4([1, 1, 1, 1]));
    assert_eq!(first.server.resolved_address.port, 443);
    assert_eq!(first.token, 1);
    let second = backend.connection(1);
    assert_eq!(second.server.key(), "b/x");
    assert_eq!(second.server.resolved_address.ip, IpRecord::V6([2; 16]));
    assert_eq!(second.token, 4);
    assert_eq!(backend.get_max_events_count(), 2048);
}

#[test]
fn no_usable_server_is_an_error() {
    let none = DoH3Backend::new(&vec![], &vec![]);
    assert!(matches!(none, Err(DoH3BackendError::ConfigurationFailure)));
    let standard = Arc::new(NativeDnsServer::new(vec![9; 4], NativeDnsServerType::Standard));
    let none = DoH3Backend::new(&vec![standard], &vec![true]);
    assert!(matches!(none, Err(DoH3BackendError::ConfigurationFailure)));
    let none = DoH3Backend::new(&vec![doh3(vec![1; 4], "a", None)], &vec![false]);
    assert!(matches!(none, Err(DoH3BackendError::ConfigurationFailure)));
}

#[test]
fn last_server_of_a_name_counts() {
    let backend = backend(&vec![
        doh3(vec![1; 4], "a", Some("/x")),
        doh3(vec![2; 4], "b", None),
        doh3(vec![3; 4], "a/x", None),
    ]);
    assert_eq!(backend.connection_count(), 2);
    let route = backend.route(b"a/x").unwrap();
    let connection = backend.connection(route);
    assert_eq!(connection.server.resolved_address.ip, IpRecord::V4([3; 4]));
    assert_eq!(connection.token, 2);
}

#[test]
fn proxy_addresses_are_reached() {
    let servers = vec![
        doh3(vec![1; 4], "a", Some("/x")),
        doh3(vec![2; 4], "b", None),
    ];
    let backend = backend(&servers);
    let addresses = backend_addresses(&servers);
    assert_eq!(backend.route(&addresses[0]), Ok(0));
    assert_eq!(backend.route(&addresses[1]), Ok(1));
    assert_eq!(backend.route(b"a"), Err(DnsBackendError::InvalidAddress));
    assert_eq!(backend.route(&[0xff]), Err(DnsBackendError::InvalidAddress));
    assert_eq!(backend.route(&[]), Err(DnsBackendError::InvalidAddress));
}

#[test]
fn packets_are_forwarded_once_a_session_stands() {
    let mut backend = two();
    let failed = Err(DnsBackendError::SocketFailure);
    assert_eq!(backend.forward_packet(1, failed, b"foo", &[5], 77), failed);
    assert!(backend.connection(1).request_queue.is_empty());

    let session = start(&mut backend, 1);
    assert_eq!(backend.forward_packet(1, session, b"foo", &[5], 77), Ok(()));
    assert_eq!(backend.forward_packet(1, Ok(()), b"fo", &[6], 78), Ok(()));
    assert!(backend.connection(0).request_queue.is_empty());
    let queue = &backend.connection(1).request_queue;
    assert_eq!(queue.len(), 2);
    assert_eq!(queue[0].creation_time, 77);
    assert_eq!(queue[0].request_packet, vec![5]);
    let method = headers_to_strings(&queue[0].payload)[0].1.clone();
    assert_eq!(method, "GET /x/dns-query?dns=Zm9v HTTP/1.1");
    assert_eq!(queue[1].request_packet, vec![6]);
}

#[test]
fn sources_are_registered_once() {
    let mut backend = two();
    assert!(!backend.needs_registration(0));
    let registered = RegistrationOutcome::Registered;
    let failed = RegistrationOutcome::Failed;
    assert_eq!(backend.register_sources(&vec![registered, registered]), 0);
    start(&mut backend, 0).unwrap();
    start(&mut backend, 1).unwrap();
    assert!(backend.needs_registration(0));
    assert_eq!(backend.register_sources(&vec![RegistrationOutcome::AlreadyExists, failed]), 1);
    assert!(!backend.needs_registration(0));
    assert!(!backend.needs_registration(1));
    assert_eq!(backend.register_sources(&vec![failed, failed]), 2);
}

#[test]
fn poll_timeout_is_the_shortest() {
    let mut backend = two();
    assert_eq!(backend.get_poll_timeout(&vec![Some(5), Some(6)], 100), None);
    start(&mut backend, 0).unwrap();
    assert_eq!(backend.get_poll_timeout(&vec![None, Some(6)], 100), None);
    assert_eq!(backend.get_poll_timeout(&vec![Some(50), Some(6)], 100), Some(50));
    queue_packet(&mut backend, 0, 70);
    queue_packet(&mut backend, 0, 60);
    queue_packet(&mut backend, 0, 200);
    assert_eq!(backend.get_poll_timeout(&vec![Some(50), None], 100), Some(30));
    assert_eq!(backend.get_poll_timeout(&vec![Some(20), None], 100), Some(20));
    assert_eq!(backend.get_poll_timeout(&vec![None, None], 70), Some(0));
    start(&mut backend, 1).unwrap();
    assert_eq!(backend.get_poll_timeout(&vec![Some(20), Some(6)], 100), Some(6));
}

/// Walks over the connections. The socket of a connection in `broken` fails when it is read.
/// Returns the indices at which passes began and those whose sockets were removed.
fn walk(backend: &mut DoH3Backend, broken: &[usize]) -> (Vec<usize>, Vec<usize>) {
    let mut passes: Vec<usize> = Vec::new();
    let mut removed: Vec<usize> = Vec::new();
    let mut work = backend.begin_events();
    loop {
        let outcome = match &work {
            BackendWork::Connection(index, work) => match work {
                ConnectionWork::ExpireRequests => {
                    passes.push(*index);
                    ConnectionOutcome::Clock(0)
                }
                ConnectionWork::QueryTimeout => ConnectionOutcome::Timeout(None),
                ConnectionWork::ReceiveDatagram => {
                    if broken.contains(index) {
                        ConnectionOutcome::Failed
                    } else {
                        ConnectionOutcome::WouldBlock
                    }
                }
                ConnectionWork::WritePacket => ConnectionOutcome::Drained,
                _ => ConnectionOutcome::Answer(false),
            },
            BackendWork::RemoveSocket(index) => {
                removed.push(*index);
                ConnectionOutcome::Done
            }
            BackendWork::Finished => return (passes, removed),
        };
        work = backend.advance_events(work, outcome);
    }
}

#[test]
fn each_connection_gets_one_pass() {
    let mut backend = backend(&vec![
        doh3(vec![1; 4], "a", None),
        doh3(vec![2; 4], "b", None),
        doh3(vec![3; 4], "c", None),
        doh3(vec![4; 4], "d", None),
    ]);
    assert!(matches!(backend.begin_events(), BackendWork::Finished));
    start(&mut backend, 0).unwrap();
    start(&mut backend, 2).unwrap();
    start(&mut backend, 3).unwrap();
    assert_eq!(walk(&mut backend, &[]), (vec![0, 2, 3], vec![]));
    assert_eq!(walk(&mut backend, &[0, 3]), (vec![0, 2, 3], vec![0, 3]));
    assert!(backend.connection(0).active_session.is_none());
    assert!(backend.connection(2).active_session.is_some());
    assert_eq!(walk(&mut backend, &[2]), (vec![2], vec![2]));
    assert_eq!(walk(&mut backend, &[]), (vec![], vec![]));
}

#[test]
fn passes_leave_other_connections_alone() {
    let mut backend = two();
    start(&mut backend, 0).unwrap();
    start(&mut backend, 1).unwrap();
    let work = backend.begin_pass(0);
    let work = backend.advance(0, work, ConnectionOutcome::Clock(0));
    let work = backend.advance(0, work, ConnectionOutcome::Timeout(None));
    let work = backend.advance(0, work, ConnectionOutcome::Failed);
    assert!(matches!(work, ConnectionWork::SessionEnded(true)));
    assert!(backend.connection(0).active_session.is_none());
    assert!(backend.connection(1).active_session.is_some());
    assert!(matches!(backend.begin_pass(0), ConnectionWork::Finished));
    assert!(matches!(backend.begin_pass(1), ConnectionWork::ExpireRequests));
}
