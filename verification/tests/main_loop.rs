use libnet::controller::VpnController;
use libnet::status::{VpnError, VpnResult};
use libnet::vpn::{
    select_events, IterationOutcome, IterationWork, PollEvent, PollStatus, Vpn, OWN_EVENTS,
    PACKET_BUFFER_SIZE, VPN_CONTROLLER_TOKEN, VPN_TOKEN,
};

fn event(token: usize, readable: bool, writable: bool) -> PollEvent {
    PollEvent {
        token,
        readable,
        writable,
    }
}

fn vpn() -> Vpn {
    Vpn::new(&VpnController::new(7))
}

fn polled(vpn: &mut Vpn, events: Vec<PollEvent>) -> IterationWork {
    let work = vpn.begin_iteration();
    let work = vpn.advance_iteration(work, IterationOutcome::Done);
    assert!(matches!(work, IterationWork::Poll));
    let work = vpn.advance_iteration(work, IterationOutcome::Polled(PollStatus::Ready, events));
    assert!(matches!(work, IterationWork::TakeStop(_)));
    let work = vpn.advance_iteration(work, IterationOutcome::Stop(None));
    assert!(matches!(work, IterationWork::ProcessBackend(_)));
    work
}

fn failure(work: IterationWork) -> VpnError {
    match work {
        IterationWork::Return(Err(error)) => error,
        _ => panic!("no error"),
    }
}

#[test]
fn sizes_of_the_main_loop() {
    assert_eq!(PACKET_BUFFER_SIZE, i16::MAX as usize);
    assert_eq!(OWN_EVENTS, 2);
}

#[test]
fn controller_is_polled() {
    assert_eq!(vpn().get_controller_fd(), 7);
}

#[test]
fn events_are_sorted() {
    let events = vec![
        event(0, true, false),
        event(VPN_TOKEN, true, false),
        event(3, true, false),
        event(VPN_TOKEN, false, true),
    ];
    let selected = select_events(&events);
    assert!(selected.read_from_device);
    assert!(selected.write_to_device);
    assert_eq!(selected.backend_events, vec![0, 2]);
}

#[test]
fn events_behind_the_controller_are_ignored() {
    let events = vec![
        event(0, true, false),
        event(VPN_CONTROLLER_TOKEN, true, false),
        event(VPN_TOKEN, true, true),
        event(1, true, false),
    ];
    let selected = select_events(&events);
    assert!(!selected.read_from_device);
    assert!(!selected.write_to_device);
    assert_eq!(selected.backend_events, vec![0]);
}

#[test]
fn packets_leave_in_order() {
    let mut vpn = vpn();
    assert!(matches!(vpn.begin_iteration(), IterationWork::RegisterTunnel(false)));
    assert!(vpn.handle_dns_response(true, Some(vec![1])));
    assert!(!vpn.handle_dns_response(false, Some(vec![2])));
    assert!(!vpn.handle_dns_response(true, None));
    for expected in [vec![1u8], vec![2u8]] {
        assert!(matches!(vpn.begin_iteration(), IterationWork::RegisterTunnel(true)));
        let work = polled(&mut vpn, vec![event(VPN_TOKEN, false, true)]);
        let work = vpn.advance_iteration(work, IterationOutcome::Done);
        match &work {
            IterationWork::WriteTunnel(packet, read) => {
                assert_eq!(*packet, expected);
                assert!(!*read);
            }
            _ => panic!("nothing to write"),
        }
        let work = vpn.advance_iteration(work, IterationOutcome::Done);
        assert!(matches!(work, IterationWork::DeregisterTunnel));
        let work = vpn.advance_iteration(work, IterationOutcome::Done);
        assert!(matches!(work, IterationWork::Return(Ok(VpnResult::Continuing))));
    }
    assert!(matches!(vpn.begin_iteration(), IterationWork::RegisterTunnel(false)));
}

#[test]
fn write_is_followed_by_read() {
    let mut vpn = vpn();
    vpn.handle_dns_response(true, Some(vec![1]));
    let work = polled(&mut vpn, vec![event(VPN_TOKEN, true, true)]);
    let work = vpn.advance_iteration(work, IterationOutcome::Done);
    let work = vpn.advance_iteration(work, IterationOutcome::Done);
    assert!(matches!(work, IterationWork::ReadTunnel));
    let work = vpn.advance_iteration(work, IterationOutcome::Read(60));
    assert!(matches!(work, IterationWork::HandleRequest(60)));
    let work = vpn.advance_iteration(work, IterationOutcome::Done);
    assert!(matches!(work, IterationWork::DeregisterTunnel));
}

#[test]
fn empty_packets_are_ignored() {
    let mut vpn = vpn();
    let work = polled(&mut vpn, vec![event(VPN_TOKEN, true, false)]);
    let work = vpn.advance_iteration(work, IterationOutcome::Done);
    let work = vpn.advance_iteration(work, IterationOutcome::Read(0));
    assert!(matches!(work, IterationWork::DeregisterTunnel));
}

#[test]
fn stop_ends_the_iteration() {
    let mut vpn = vpn();
    let work = vpn.begin_iteration();
    let work = vpn.advance_iteration(work, IterationOutcome::Done);
    let interrupted = IterationOutcome::Polled(PollStatus::Interrupted, vec![]);
    let work = vpn.advance_iteration(work, interrupted);
    let work = vpn.advance_iteration(work, IterationOutcome::Stop(Some(VpnResult::Stopping)));
    assert!(matches!(work, IterationWork::Return(Ok(VpnResult::Stopping))));
}

#[test]
fn failures_of_the_iteration() {
    let mut vpn = vpn();
    let work = vpn.begin_iteration();
    let work = vpn.advance_iteration(work, IterationOutcome::Failed);
    assert_eq!(failure(work), VpnError::TunnelPollRegistrationFailure);

    let failed = IterationOutcome::Polled(PollStatus::Failed, vec![]);
    let work = vpn.advance_iteration(IterationWork::Poll, failed);
    assert_eq!(failure(work), VpnError::PollFailure);

    let work = polled(&mut vpn, vec![]);
    let work = vpn.advance_iteration(work, IterationOutcome::Failed);
    assert_eq!(failure(work), VpnError::SourcePollRegistrationFailure);

    let work = polled(&mut vpn, vec![event(VPN_TOKEN, false, true)]);
    let work = vpn.advance_iteration(work, IterationOutcome::Done);
    assert_eq!(failure(work), VpnError::TunnelWriteFailure);

    let write = IterationWork::WriteTunnel(vec![1], false);
    let work = vpn.advance_iteration(write, IterationOutcome::Failed);
    assert_eq!(failure(work), VpnError::TunnelWriteFailure);

    let work = vpn.advance_iteration(IterationWork::ReadTunnel, IterationOutcome::Failed);
    assert_eq!(failure(work), VpnError::TunnelReadFailure);

    let refused = IterationOutcome::RequestFailed(VpnError::SocketFailure);
    let work = vpn.advance_iteration(IterationWork::HandleRequest(3), refused);
    assert_eq!(failure(work), VpnError::SocketFailure);

    let work = vpn.advance_iteration(IterationWork::DeregisterTunnel, IterationOutcome::Failed);
    assert_eq!(failure(work), VpnError::TunnelPollRegistrationFailure);
}
