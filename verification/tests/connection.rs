use libnet::address::{Endpoint, IpRecord};
use libnet::backend::connection::{
    decide_refusal, seconds_since, ConnectionOutcome, ConnectionWork, DoH3Server,
    DoH3ServerConnectionContainer, Http3Error, Http3Event, QueuedDoH3Packet, RefusalDecision,
    SendInfo, TransportError,
};
use libnet::backend::request::DoH3Request;
use libnet::backend::session::{
    draw_connection_id, DnsBackendError, SessionOutcome, SessionWork,
};

const SECOND: u128 = 1_000_000_000;

fn endpoint() -> Endpoint {
    Endpoint {
        ip: IpRecord::V4([1, 1, 1, 1]),
        port: 443,
    }
}

fn container() -> DoH3ServerConnectionContainer {
    let server = DoH3Server {
        domain_name: "dns.example".to_string(),
        path: None,
        resolved_address: endpoint(),
    };
    DoH3ServerConnectionContainer::new(server, 4)
}

fn start(connection: &mut DoH3ServerConnectionContainer) {
    let mut work = connection.begin_session();
    loop {
        let outcome = match &work {
            SessionWork::DrawConnectionId => SessionOutcome::ConnectionId(Ok(vec![7; 20])),
            SessionWork::Return(result) => {
                assert!(result.is_ok());
                return;
            }
            _ => SessionOutcome::Done,
        };
        work = connection.advance_session(work, outcome);
    }
}

fn request(id: u8, creation_time: u128) -> DoH3Request {
    DoH3Request::new("dns.example", None, &[id], &[id], creation_time)
}

fn packet(at: u128, byte: u8) -> QueuedDoH3Packet {
    QueuedDoH3Packet {
        send_info: SendInfo { at, to: endpoint() },
        buffer: vec![byte],
    }
}

/// A connection with a session whose pass has just found out whether HTTP/3 can be started.
fn established(connection: &mut DoH3ServerConnectionContainer) -> ConnectionWork {
    let work = connection.begin_pass();
    assert!(matches!(work, ConnectionWork::ExpireRequests));
    let work = connection.advance(work, ConnectionOutcome::Clock(0));
    assert!(matches!(work, ConnectionWork::QueryTimeout));
    let work = connection.advance(work, ConnectionOutcome::Timeout(None));
    assert!(matches!(work, ConnectionWork::ReceiveDatagram));
    let work = connection.advance(work, ConnectionOutcome::WouldBlock);
    assert!(matches!(work, ConnectionWork::QueryEstablished));
    connection.advance(work, ConnectionOutcome::Answer(true))
}

/// A connection that speaks HTTP/3, with these requests in its queue.
fn speaking(requests: Vec<DoH3Request>) -> (DoH3ServerConnectionContainer, ConnectionWork) {
    let mut connection = container();
    start(&mut connection);
    for request in requests {
        connection.request_queue.push_back(request);
    }
    let work = established(&mut connection);
    assert!(matches!(work, ConnectionWork::CreateHttp3));
    let work = connection.advance(work, ConnectionOutcome::Done);
    (connection, work)
}

fn is_idle(connection: &DoH3ServerConnectionContainer) -> bool {
    connection.active_session.is_none()
        && connection.request_queue.is_empty()
        && connection.queued_packets.is_empty()
        && connection.sent_request_streams.is_empty()
}

#[test]
fn seconds_are_whole() {
    assert_eq!(seconds_since(5 * SECOND, 3 * SECOND), 2);
    assert_eq!(seconds_since(5 * SECOND - 1, 3 * SECOND), 1);
    assert_eq!(seconds_since(3 * SECOND, 5 * SECOND), 0);
}

#[test]
fn session_stands_once_everything_worked() {
    let mut connection = container();
    let work = connection.begin_session();
    assert!(matches!(work, SessionWork::BindSocket));
    let work = connection.advance_session(work, SessionOutcome::Done);
    assert!(matches!(work, SessionWork::ProtectSocket));
    let work = connection.advance_session(work, SessionOutcome::Done);
    assert!(matches!(work, SessionWork::DrawConnectionId));
    let drawn = SessionOutcome::ConnectionId(Ok(vec![7; 20]));
    let work = connection.advance_session(work, drawn);
    assert!(matches!(&work, SessionWork::ReadLocalAddress(id) if *id == vec![7u8; 20]));
    let work = connection.advance_session(work, SessionOutcome::Done);
    assert!(matches!(&work, SessionWork::Connect(id) if *id == vec![7u8; 20]));
    let work = connection.advance_session(work, SessionOutcome::Done);
    assert!(matches!(work, SessionWork::WriteHandshake));
    let work = connection.advance_session(work, SessionOutcome::Done);
    assert!(matches!(work, SessionWork::SendHandshake));
    let work = connection.advance_session(work, SessionOutcome::WouldBlock);
    assert!(matches!(work, SessionWork::SendHandshake));
    assert!(connection.active_session.is_none());
    let work = connection.advance_session(work, SessionOutcome::Done);
    assert!(matches!(work, SessionWork::Return(Ok(()))));
    let session = connection.active_session.unwrap();
    assert!(session.socket);
    assert!(!session.socket_registered);
    assert!(!session.http3);
    assert!(matches!(connection.begin_session(), SessionWork::Return(Ok(()))));
}

#[test]
fn session_start_can_fail() {
    let expected = |work: SessionWork, outcome: SessionOutcome, error: DnsBackendError| {
        let mut connection = container();
        match connection.advance_session(work, outcome) {
            SessionWork::Return(Err(found)) => assert_eq!(found, error),
            _ => panic!("no error"),
        }
        assert!(connection.active_session.is_none());
    };
    let socket = DnsBackendError::SocketFailure;
    expected(SessionWork::BindSocket, SessionOutcome::Failed, socket);
    expected(SessionWork::ProtectSocket, SessionOutcome::Failed, socket);
    expected(SessionWork::Connect(vec![]), SessionOutcome::Failed, socket);
    expected(SessionWork::WriteHandshake, SessionOutcome::Failed, socket);
    expected(SessionWork::SendHandshake, SessionOutcome::Failed, socket);
    expected(
        SessionWork::ReadLocalAddress(vec![]),
        SessionOutcome::Failed,
        DnsBackendError::InvalidAddress,
    );
    expected(
        SessionWork::DrawConnectionId,
        SessionOutcome::ConnectionId(Err(DnsBackendError::RandomGenerationFailure)),
        DnsBackendError::RandomGenerationFailure,
    );
}

#[test]
fn connection_ids_are_random() {
    let first = draw_connection_id().unwrap();
    let second = draw_connection_id().unwrap();
    assert_eq!(first.len(), 20);
    assert_eq!(second.len(), 20);
    assert_ne!(first, vec![0u8; 20]);
    assert_ne!(first, second);
}

#[test]
fn connection_without_session_has_nothing_to_do() {
    let connection = container();
    assert_eq!(connection.token, 4);
    assert!(matches!(connection.begin_pass(), ConnectionWork::Finished));
}

#[test]
fn refusals_are_decided() {
    let ends = [
        Http3Error::InternalError,
        Http3Error::ClosedCriticalStream,
        Http3Error::FrameUnexpected,
        Http3Error::TransportError(TransportError::CryptoFail),
        Http3Error::TransportError(TransportError::TlsFail),
        Http3Error::TransportError(TransportError::StreamLimit),
        Http3Error::TransportError(TransportError::KeyUpdate),
    ];
    for error in ends {
        assert_eq!(decide_refusal(error), RefusalDecision::EndSession);
    }
    let retries = [
        Http3Error::ExcessiveLoad,
        Http3Error::IdError,
        Http3Error::StreamCreationError,
        Http3Error::StreamBlocked,
    ];
    for error in retries {
        assert_eq!(decide_refusal(error), RefusalDecision::Retry);
    }
    let drops = [
        Http3Error::Done,
        Http3Error::RequestRejected,
        Http3Error::TransportError(TransportError::Done),
        Http3Error::TransportError(TransportError::Other),
        Http3Error::Other,
    ];
    for error in drops {
        assert_eq!(decide_refusal(error), RefusalDecision::Drop);
    }
}

#[test]
fn old_requests_are_forgotten() {
    let mut connection = container();
    start(&mut connection);
    connection.sent_request_streams.insert(0, request(1, 0));
    connection.sent_request_streams.insert(4, request(2, 1));
    connection.sent_request_streams.insert(8, request(3, 20 * SECOND));
    let work = connection.begin_pass();
    connection.advance(work, ConnectionOutcome::Clock(11 * SECOND));
    assert!(!connection.sent_request_streams.contains_key(&0));
    assert!(connection.sent_request_streams.contains_key(&4));
    assert!(connection.sent_request_streams.contains_key(&8));
}

#[test]
fn datagrams_are_read_until_there_are_no_more() {
    let mut connection = container();
    start(&mut connection);
    let work = connection.begin_pass();
    let work = connection.advance(work, ConnectionOutcome::Clock(0));
    let work = connection.advance(work, ConnectionOutcome::Timeout(Some(5)));
    let work = connection.advance(work, ConnectionOutcome::Received(1200));
    assert!(matches!(work, ConnectionWork::FeedDatagram(1200)));
    let work = connection.advance(work, ConnectionOutcome::Failed);
    assert!(matches!(work, ConnectionWork::QueryTimeout));
    let work = connection.advance(work, ConnectionOutcome::Timeout(Some(0)));
    assert!(matches!(work, ConnectionWork::HandleTimeout));
    let work = connection.advance(work, ConnectionOutcome::Done);
    assert!(matches!(work, ConnectionWork::QueryEstablished));
    let work = connection.advance(work, ConnectionOutcome::Answer(false));
    assert!(matches!(work, ConnectionWork::WritePacket));
}

#[test]
fn broken_socket_ends_the_session() {
    let mut connection = container();
    start(&mut connection);
    connection.request_queue.push_back(request(1, 0));
    connection.queued_packets.push(packet(0, 1));
    connection.sent_request_streams.insert(0, request(2, 0));
    let work = connection.begin_pass();
    let work = connection.advance(work, ConnectionOutcome::Clock(0));
    let work = connection.advance(work, ConnectionOutcome::Timeout(None));
    let work = connection.advance(work, ConnectionOutcome::Failed);
    assert!(matches!(work, ConnectionWork::SessionEnded(true)));
    assert!(is_idle(&connection));
    assert!(matches!(connection.begin_pass(), ConnectionWork::Finished));
    assert_eq!(connection.server.domain_name, "dns.example");
}

#[test]
fn end_of_no_session_leaves_no_socket() {
    let mut connection = container();
    connection.request_queue.push_back(request(1, 0));
    assert!(!connection.end_session());
    assert!(is_idle(&connection));
    start(&mut connection);
    assert!(connection.end_session());
    assert!(is_idle(&connection));
}

#[test]
fn requests_are_sent_in_order() {
    let (mut connection, work) = speaking(vec![request(1, 0), request(2, 0), request(3, 0)]);
    assert!(matches!(work, ConnectionWork::SendRequest));
    let work = connection.advance(work, ConnectionOutcome::RequestSent(0));
    assert!(matches!(work, ConnectionWork::SendRequest));
    let dropped = ConnectionOutcome::RequestRefused(Http3Error::RequestRejected);
    let work = connection.advance(work, dropped);
    assert!(matches!(work, ConnectionWork::SendRequest));
    let work = connection.advance(work, ConnectionOutcome::RequestSent(4));
    assert!(matches!(work, ConnectionWork::PollHttp3));
    assert_eq!(connection.sent_request_streams[&0].request_packet, vec![1]);
    assert_eq!(connection.sent_request_streams[&4].request_packet, vec![3]);
    assert_eq!(connection.sent_request_streams.len(), 2);
    assert!(connection.request_queue.is_empty());
}

#[test]
fn blocked_request_stays_in_front() {
    let (mut connection, work) = speaking(vec![request(1, 0), request(2, 0)]);
    let blocked = ConnectionOutcome::RequestRefused(Http3Error::StreamBlocked);
    let work = connection.advance(work, blocked);
    assert!(matches!(work, ConnectionWork::PollHttp3));
    assert_eq!(connection.request_queue.len(), 2);
    assert_eq!(connection.request_queue[0].request_packet, vec![1]);
}

#[test]
fn fatal_refusal_ends_the_session() {
    let (mut connection, work) = speaking(vec![request(1, 0)]);
    let fatal = ConnectionOutcome::RequestRefused(Http3Error::FrameUnexpected);
    let work = connection.advance(work, fatal);
    assert!(matches!(work, ConnectionWork::SessionEnded(true)));
    assert!(is_idle(&connection));
}

#[test]
fn responses_reach_waiting_requests_only() {
    let (mut connection, work) = speaking(vec![request(1, 0)]);
    let work = connection.advance(work, ConnectionOutcome::RequestSent(0));
    let work = connection.advance(work, ConnectionOutcome::Event(0, Http3Event::Headers));
    assert!(matches!(work, ConnectionWork::PollHttp3));
    let work = connection.advance(work, ConnectionOutcome::Event(0, Http3Event::Data));
    assert!(matches!(work, ConnectionWork::ReadBody(0)));
    let work = connection.advance(work, ConnectionOutcome::Received(30));
    assert!(matches!(work, ConnectionWork::DeliverResponse(0, 30)));
    let work = connection.advance(work, ConnectionOutcome::Done);
    assert!(matches!(work, ConnectionWork::ReadBody(0)));
    let work = connection.advance(work, ConnectionOutcome::Failed);
    let work = connection.advance(work, ConnectionOutcome::Event(0, Http3Event::Finished));
    assert!(connection.sent_request_streams.is_empty());
    let work = connection.advance(work, ConnectionOutcome::Event(0, Http3Event::Data));
    let work = connection.advance(work, ConnectionOutcome::Received(30));
    assert!(matches!(work, ConnectionWork::ReadBody(0)));
    let work = connection.advance(work, ConnectionOutcome::Failed);
    let work = connection.advance(work, ConnectionOutcome::Event(9, Http3Event::PriorityUpdate));
    assert!(matches!(work, ConnectionWork::PollHttp3));
    let work = connection.advance(work, ConnectionOutcome::Failed);
    assert!(matches!(work, ConnectionWork::WritePacket));
}

#[test]
fn reset_and_goaway() {
    let (mut connection, work) = speaking(vec![request(1, 0), request(2, 0)]);
    let work = connection.advance(work, ConnectionOutcome::RequestSent(0));
    let work = connection.advance(work, ConnectionOutcome::RequestSent(4));
    let work = connection.advance(work, ConnectionOutcome::Event(0, Http3Event::Reset));
    assert!(!connection.sent_request_streams.contains_key(&0));
    assert!(connection.sent_request_streams.contains_key(&4));
    let work = connection.advance(work, ConnectionOutcome::Event(0, Http3Event::GoAway));
    assert!(matches!(work, ConnectionWork::SessionEnded(true)));
    assert!(is_idle(&connection));
}

#[test]
fn http3_that_cannot_start_is_tried_again() {
    let mut connection = container();
    start(&mut connection);
    let work = established(&mut connection);
    assert!(matches!(work, ConnectionWork::CreateHttp3));
    let work = connection.advance(work, ConnectionOutcome::Failed);
    assert!(matches!(work, ConnectionWork::WritePacket));
    let work = established(&mut connection);
    assert!(matches!(work, ConnectionWork::CreateHttp3));
    connection.advance(work, ConnectionOutcome::Done);
    let work = established(&mut connection);
    assert!(matches!(work, ConnectionWork::PollHttp3));
}

#[test]
fn queued_packets_go_out_in_time() {
    let mut connection = container();
    start(&mut connection);
    connection.queued_packets.push(packet(20 * SECOND, 1));
    connection.queued_packets.push(packet(SECOND, 2));
    connection.queued_packets.push(packet(2 * SECOND, 3));
    connection.queued_packets.push(packet(2 * SECOND, 4));
    connection.queued_packets.push(packet(2 * SECOND, 5));
    let now = ConnectionOutcome::Clock;
    let work = established(&mut connection);
    let work = connection.advance(work, ConnectionOutcome::Failed);
    // The first packet is not due yet.
    assert!(matches!(work, ConnectionWork::CheckPacketDue(0)));
    let work = connection.advance(work, now(12 * SECOND));
    // The second one is too late.
    assert!(matches!(work, ConnectionWork::CheckPacketDue(1)));
    let work = connection.advance(work, now(12 * SECOND));
    assert!(matches!(work, ConnectionWork::CheckPacketAge(1)));
    let work = connection.advance(work, now(12 * SECOND));
    // The third one blocks, the fourth one is sent and the last one fails.
    assert!(matches!(work, ConnectionWork::CheckPacketDue(1)));
    let work = connection.advance(work, now(12 * SECOND));
    let work = connection.advance(work, now(12 * SECOND));
    assert!(matches!(work, ConnectionWork::SendQueuedPacket(1)));
    let work = connection.advance(work, ConnectionOutcome::WouldBlock);
    assert!(matches!(work, ConnectionWork::CheckPacketDue(2)));
    let work = connection.advance(work, now(12 * SECOND));
    let work = connection.advance(work, now(12 * SECOND));
    let work = connection.advance(work, ConnectionOutcome::Done);
    assert!(matches!(work, ConnectionWork::CheckPacketDue(2)));
    let work = connection.advance(work, now(12 * SECOND));
    let work = connection.advance(work, now(12 * SECOND));
    let work = connection.advance(work, ConnectionOutcome::Failed);
    assert!(matches!(work, ConnectionWork::WritePacket));
    let left: Vec<u8> = connection.queued_packets.iter().map(|packet| packet.buffer[0]).collect();
    assert_eq!(left, vec![1, 3]);
}

#[test]
fn packets_are_paced() {
    let mut connection = container();
    start(&mut connection);
    let work = ConnectionWork::WritePacket;
    let work = connection.advance(work, ConnectionOutcome::Packet(packet(10, 1)));
    assert!(matches!(work, ConnectionWork::CheckPacing(_)));
    let work = connection.advance(work, ConnectionOutcome::Clock(10));
    assert!(matches!(work, ConnectionWork::WritePacket));
    assert_eq!(connection.queued_packets.len(), 1);
    let work = connection.advance(work, ConnectionOutcome::Packet(packet(10, 2)));
    let work = connection.advance(work, ConnectionOutcome::Clock(11));
    assert!(matches!(&work, ConnectionWork::SendPacket(packet) if packet.buffer == vec![2u8]));
    let work = connection.advance(work, ConnectionOutcome::Done);
    assert!(matches!(work, ConnectionWork::WritePacket));
    let work = connection.advance(work, ConnectionOutcome::Drained);
    assert!(matches!(work, ConnectionWork::QueryClosed));
    let work = connection.advance(work, ConnectionOutcome::Answer(false));
    assert!(matches!(work, ConnectionWork::Finished));
}

#[test]
fn writing_can_end_the_pass() {
    let mut connection = container();
    start(&mut connection);
    let send = ConnectionWork::SendPacket(packet(0, 1));
    let work = connection.advance(send, ConnectionOutcome::WouldBlock);
    assert!(matches!(work, ConnectionWork::QueryClosed));
    let work = connection.advance(ConnectionWork::WritePacket, ConnectionOutcome::Failed);
    assert!(matches!(work, ConnectionWork::CloseConnection));
    let work = connection.advance(work, ConnectionOutcome::Done);
    assert!(matches!(work, ConnectionWork::QueryClosed));
    let work = connection.advance(work, ConnectionOutcome::Answer(true));
    assert!(matches!(work, ConnectionWork::SessionEnded(true)));
    assert!(is_idle(&connection));

    start(&mut connection);
    let send = ConnectionWork::SendPacket(packet(0, 1));
    let work = connection.advance(send, ConnectionOutcome::Failed);
    assert!(matches!(work, ConnectionWork::SessionEnded(true)));
    assert!(is_idle(&connection));
}
