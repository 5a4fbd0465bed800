use libnet::controller::VpnController;
use libnet::status::VpnResult;

#[test]
fn stop_result_is_taken_once() {
    let mut controller = VpnController::new(7);
    assert_eq!(controller.get_event_fd(), 7);
    assert_eq!(controller.get_stop_result(), None);
    assert!(controller.stop(VpnResult::Reconnecting));
    assert_eq!(controller.get_stop_result(), Some(VpnResult::Reconnecting));
    assert_eq!(controller.get_stop_result(), None);
}

#[test]
fn first_stop_wins() {
    let mut controller = VpnController::new(7);
    assert!(controller.stop(VpnResult::Stopping));
    assert!(!controller.stop(VpnResult::Reconnecting));
    assert_eq!(controller.get_stop_result(), Some(VpnResult::Stopping));
    assert!(controller.stop(VpnResult::Reconnecting));
}

#[test]
fn descriptor_follows_the_result() {
    let mut controller = VpnController::new(7);
    let mut counter: u64 = 0;
    let mut pending = false;
    let calls = [
        Some(VpnResult::Continuing),
        Some(VpnResult::Stopping),
        Some(VpnResult::Reconnecting),
        None,
        None,
        Some(VpnResult::Reconnecting),
        Some(VpnResult::Continuing),
        None,
    ];
    let expected: [u64; 8] = [0, 1, 1, 0, 0, 1, 1, 0];
    for (call, expected) in calls.into_iter().zip(expected) {
        match call {
            Some(result) => {
                if controller.stop(result) {
                    counter += 1;
                    pending = true;
                }
            }
            None => {
                if controller.get_stop_result().is_some() {
                    counter = 0;
                    pending = false;
                }
            }
        }
        assert_eq!(counter, expected);
        assert_eq!(counter == 1, pending);
    }
}

#[test]
fn continuing_is_no_reason_to_stop() {
    let mut controller = VpnController::new(7);
    assert!(!controller.stop(VpnResult::Continuing));
    assert_eq!(controller.get_stop_result(), None);
}
