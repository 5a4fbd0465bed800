use libnet::backend::doh3::DoH3BackendError;
use libnet::run::{
    backend_addresses, uses_doh3, RunOutcome, RunWork, VpnConfigurationResult, VpnRun,
};
use libnet::status::{VpnError, VpnResult, VpnStatus};
use libnet::validation::{NativeDnsServer, NativeDnsServerType};
use std::sync::Arc;

fn standard(octet: u8) -> Arc<NativeDnsServer> {
    Arc::new(NativeDnsServer::new(vec![octet; 4], NativeDnsServerType::Standard))
}

fn doh3(octet: u8, name: &str, path: Option<&str>) -> Arc<NativeDnsServer> {
    let path = path.map(|path| path.to_string());
    Arc::new(NativeDnsServer::new(
        vec![octet; 4],
        NativeDnsServerType::DoH3(name.to_string(), path),
    ))
}

fn configured(result: VpnConfigurationResult) -> RunWork {
    let (mut run, work) = VpnRun::begin();
    let work = run.advance(work, RunOutcome::CacheOpened(false));
    assert!(matches!(work, RunWork::Configure));
    run.advance(work, RunOutcome::Configured(result))
}

fn iterating(cache_file: bool) -> (VpnRun, RunWork) {
    let (mut run, work) = VpnRun::begin();
    let work = run.advance(work, RunOutcome::CacheOpened(cache_file));
    let success = VpnConfigurationResult::Success(9, vec![standard(8)]);
    let work = run.advance(work, RunOutcome::Configured(success));
    assert!(matches!(work, RunWork::StartBackend(false, 9, _)));
    let work = run.advance(work, RunOutcome::BackendStarted(Ok(())));
    match &work {
        RunWork::PreparePolling(fd, addresses) => {
            assert_eq!(*fd, 9);
            assert_eq!(*addresses, vec![vec![8u8; 4]]);
        }
        _ => panic!("no polling"),
    }
    let work = run.advance(work, RunOutcome::Done);
    assert!(matches!(work, RunWork::ReportStatus(5)));
    let work = run.advance(work, RunOutcome::Done);
    assert!(matches!(work, RunWork::Iterate));
    (run, work)
}

#[test]
fn status_numbers() {
    assert_eq!(VpnStatus::Stopped.code(), 0);
    assert_eq!(VpnStatus::Starting.code(), 1);
    assert_eq!(VpnStatus::Stopping.code(), 2);
    assert_eq!(VpnStatus::WaitingForNetwork.code(), 3);
    assert_eq!(VpnStatus::Reconnecting.code(), 4);
    assert_eq!(VpnStatus::Running.code(), 5);
}

#[test]
fn one_doh3_server_decides_for_the_backend() {
    assert!(!uses_doh3(&vec![]));
    assert!(!uses_doh3(&vec![standard(1), standard(2)]));
    assert!(uses_doh3(&vec![standard(1), doh3(2, "a", None)]));
}

#[test]
fn addresses_for_the_backend() {
    let plain = vec![standard(1), standard(2)];
    assert_eq!(backend_addresses(&plain), vec![vec![1u8; 4], vec![2u8; 4]]);
    let mixed = vec![standard(1), doh3(2, "a", Some("/x")), doh3(3, "b", None)];
    assert_eq!(backend_addresses(&mixed), vec![b"a/x".to_vec(), b"b".to_vec()]);
    assert!(backend_addresses(&vec![]).is_empty());
}

#[test]
fn configuration_can_fail() {
    let work = configured(VpnConfigurationResult::NoNetwork);
    assert!(matches!(work, RunWork::Return(Err(VpnError::NoNetwork))));
    let work = configured(VpnConfigurationResult::BuilderFailure);
    assert!(matches!(work, RunWork::Return(Err(VpnError::ConfigurationFailure))));
    let work = configured(VpnConfigurationResult::InvalidDnsServers);
    assert!(matches!(work, RunWork::Return(Err(VpnError::InvalidDnsServers))));
    let work = configured(VpnConfigurationResult::Interrupted(VpnResult::Reconnecting));
    assert!(matches!(work, RunWork::Return(Ok(VpnResult::Reconnecting))));
}

#[test]
fn backend_can_fail() {
    let (mut run, work) = VpnRun::begin();
    let work = run.advance(work, RunOutcome::CacheOpened(true));
    let success = VpnConfigurationResult::Success(9, vec![doh3(8, "a", None)]);
    let work = run.advance(work, RunOutcome::Configured(success));
    assert!(matches!(work, RunWork::StartBackend(true, 9, _)));
    let failed = RunOutcome::BackendStarted(Err(DoH3BackendError::ConfigurationFailure));
    let work = run.advance(work, failed);
    assert!(matches!(work, RunWork::Return(Err(VpnError::ConfigurationFailure))));
}

#[test]
fn polling_can_fail() {
    let (mut run, _) = VpnRun::begin();
    let work = run.advance(RunWork::PreparePolling(9, vec![]), RunOutcome::Failed);
    assert!(matches!(work, RunWork::Return(Err(VpnError::TunnelPollRegistrationFailure))));
}

#[test]
fn stop_saves_the_cache_if_it_has_a_file() {
    let (mut run, work) = iterating(true);
    let work = run.advance(work, RunOutcome::Iterated(Ok(VpnResult::Continuing)));
    assert!(matches!(work, RunWork::Iterate));
    let work = run.advance(work, RunOutcome::Iterated(Ok(VpnResult::Stopping)));
    assert!(matches!(work, RunWork::SaveCache(VpnResult::Stopping)));
    let work = run.advance(work, RunOutcome::Done);
    assert!(matches!(work, RunWork::Return(Ok(VpnResult::Stopping))));

    let (mut run, work) = iterating(false);
    let work = run.advance(work, RunOutcome::Iterated(Ok(VpnResult::Reconnecting)));
    assert!(matches!(work, RunWork::Return(Ok(VpnResult::Reconnecting))));
}

#[test]
fn error_ends_the_run_without_saving() {
    let (mut run, work) = iterating(true);
    let work = run.advance(work, RunOutcome::Iterated(Err(VpnError::PollFailure)));
    assert!(matches!(work, RunWork::Return(Err(VpnError::PollFailure))));
}
