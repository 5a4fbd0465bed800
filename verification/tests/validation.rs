use libnet::address::IpRecord;
use libnet::resolver::resolution_report;
use libnet::status::VpnResult;
use libnet::validation::{
    NativeDnsServer, NativeDnsServerType, ValidateDnsError, ValidateDnsResult,
};
use libnet::validator::{
    plan_server, DnsValidation, ServerPlan, ValidationOutcome, ValidationWork, CONTROLLER_TOKEN,
    PIPE_TOKEN, POLL_TIMEOUT_SECONDS, READ_SIZE,
};

fn begin(ipv6_support: bool, servers: &[&str]) -> (DnsValidation, ValidationWork) {
    let servers = servers.iter().map(|server| server.to_string()).collect();
    let (mut validation, work) = DnsValidation::begin(ipv6_support, servers);
    assert!(matches!(work, ValidationWork::CreatePipe));
    let work = validation.advance(work, ValidationOutcome::Done);
    (validation, work)
}

fn parsed(
    validation: &mut DnsValidation,
    work: ValidationWork,
    address: Option<IpRecord>,
) -> ValidationWork {
    assert!(matches!(work, ValidationWork::ParseAddress(_)));
    validation.advance(work, ValidationOutcome::Address(address))
}

/// Leads every server into a resolver that has been started.
fn started(servers: &[&str]) -> (DnsValidation, ValidationWork) {
    let (mut validation, mut work) = begin(true, servers);
    for _ in servers {
        work = parsed(&mut validation, work, None);
        assert!(matches!(work, ValidationWork::LookUpCache(_, _, _)));
        work = validation.advance(work, ValidationOutcome::Cached(None));
        assert!(matches!(work, ValidationWork::StartRequester(_)));
        work = validation.advance(work, ValidationOutcome::Done);
    }
    assert!(matches!(work, ValidationWork::PreparePolling));
    (validation, work)
}

fn addresses(work: &ValidationWork) -> Vec<(Vec<u8>, Option<String>)> {
    match work {
        ValidationWork::Return(Ok(ValidateDnsResult::Success(servers))) => servers
            .iter()
            .map(|server| (server.get_address(), server.get_type().get_doh3_address()))
            .collect(),
        _ => panic!("not a success"),
    }
}

#[test]
fn doh3_address_is_name_and_path() {
    let name = "dns.example".to_string();
    let plain = NativeDnsServerType::DoH3(name.clone(), None);
    assert_eq!(plain.get_doh3_address(), Some("dns.example".to_string()));
    let with_path = NativeDnsServerType::DoH3(name, Some("/0a1b".to_string()));
    assert_eq!(with_path.get_doh3_address(), Some("dns.example/0a1b".to_string()));
    assert_eq!(with_path.clone().get_doh3_address(), Some("dns.example/0a1b".to_string()));
    assert_eq!(NativeDnsServerType::Standard.get_doh3_address(), None);
}

#[test]
fn server_keeps_address_and_type() {
    let server = NativeDnsServer::new(vec![8, 8, 8, 8], NativeDnsServerType::Standard);
    assert_eq!(server.get_address(), vec![8, 8, 8, 8]);
    assert!(matches!(server.get_type(), NativeDnsServerType::Standard));
}

#[test]
fn names_are_stripped() {
    match plan_server("https://dns.google/dns-query", None, true) {
        ServerPlan::Lookup(name, path) => {
            assert_eq!(name, "dns.google");
            assert_eq!(path, Some("/dns-query".to_string()));
        }
        _ => panic!("no lookup"),
    }
    match plan_server("dns.google", None, true) {
        ServerPlan::Lookup(name, path) => {
            assert_eq!(name, "dns.google");
            assert_eq!(path, None);
        }
        _ => panic!("no lookup"),
    }
    match plan_server("http://dns.google", None, true) {
        ServerPlan::Lookup(name, path) => {
            assert_eq!(name, "http:");
            assert_eq!(path, Some("//dns.google".to_string()));
        }
        _ => panic!("no lookup"),
    }
}

#[test]
fn servers_without_a_name_are_left_out() {
    assert!(matches!(plan_server("", None, true), ServerPlan::Skip));
    assert!(matches!(plan_server("https://", None, true), ServerPlan::Skip));
    assert!(matches!(plan_server("/dns-query", None, true), ServerPlan::Skip));
    assert!(matches!(plan_server("https:///x", None, true), ServerPlan::Skip));
}

#[test]
fn pipe_failure_fails_the_validation() {
    let (mut validation, work) = DnsValidation::begin(true, vec!["8.8.8.8".to_string()]);
    let work = validation.advance(work, ValidationOutcome::Failed);
    assert!(matches!(work, ValidationWork::Return(Err(ValidateDnsError::ResolveFailure))));
}

#[test]
fn addresses_validate_in_order() {
    let (mut validation, work) = begin(true, &["9.9.9.9", "::1", "8.8.8.8"]);
    assert_eq!(validation.user_server(1), Some(&"::1".to_string()));
    assert_eq!(validation.user_server(3), None);
    let work = parsed(&mut validation, work, Some(IpRecord::V4([9, 9, 9, 9])));
    let mut octets: [u8; 16] = [0; 16];
    octets[15] = 1;
    let work = parsed(&mut validation, work, Some(IpRecord::V6(octets)));
    let work = parsed(&mut validation, work, Some(IpRecord::V4([8, 8, 8, 8])));
    let expected = vec![
        (vec![9, 9, 9, 9], None),
        (octets.to_vec(), None),
        (vec![8, 8, 8, 8], None),
    ];
    assert_eq!(addresses(&work), expected);
}

#[test]
fn ipv6_is_left_out_where_it_is_not_supported() {
    let (mut validation, work) = begin(false, &["::", "8.8.8.8"]);
    let work = parsed(&mut validation, work, Some(IpRecord::V6([0; 16])));
    let work = parsed(&mut validation, work, Some(IpRecord::V4([8, 8, 8, 8])));
    assert_eq!(addresses(&work), vec![(vec![8, 8, 8, 8], None)]);

    let (mut validation, work) = begin(false, &["::"]);
    let work = parsed(&mut validation, work, Some(IpRecord::V6([0; 16])));
    assert!(matches!(work, ValidationWork::Return(Err(ValidateDnsError::ParseFailure))));
}

#[test]
fn no_servers_are_a_failure() {
    let (_, work) = begin(true, &[]);
    assert!(matches!(work, ValidationWork::Return(Err(ValidateDnsError::ParseFailure))));
}

#[test]
fn cached_name_is_validated() {
    let (mut validation, work) = begin(true, &["https://dns.example/0a1b"]);
    let work = parsed(&mut validation, work, None);
    match &work {
        ValidationWork::LookUpCache(index, name, path) => {
            assert_eq!(*index, 0);
            assert_eq!(name, "dns.example");
            assert_eq!(*path, Some("/0a1b".to_string()));
        }
        _ => panic!("no look-up"),
    }
    let cached = ValidationOutcome::Cached(Some(IpRecord::V4([1, 1, 1, 1])));
    let work = validation.advance(work, cached);
    let expected = vec![(vec![1, 1, 1, 1], Some("dns.example/0a1b".to_string()))];
    assert_eq!(addresses(&work), expected);
}

#[test]
fn requesters_have_their_own_numbers() {
    let (validation, _) = started(&["a", "b/x"]);
    assert_eq!(validation.requester_count(), 2);
    let newest = validation.newest_requester().unwrap();
    assert_eq!(newest.server_name, "b");
    assert_eq!(newest.server_path, Some("/x".to_string()));
    assert_eq!(newest.result_id, 1);
}

#[test]
fn polling_must_be_prepared() {
    let (mut validation, work) = started(&["a"]);
    let work = validation.advance(work, ValidationOutcome::Failed);
    assert!(matches!(work, ValidationWork::Return(Err(ValidateDnsError::ResolveFailure))));

    let (mut validation, work) = started(&["a"]);
    let work = validation.advance(work, ValidationOutcome::Done);
    assert!(matches!(work, ValidationWork::Poll));
    let work = validation.advance(work, ValidationOutcome::Failed);
    assert!(matches!(work, ValidationWork::Return(Err(ValidateDnsError::ResolveFailure))));
}

#[test]
fn resolved_names_are_validated() {
    let (mut validation, work) = started(&["a", "b/x"]);
    let work = validation.advance(work, ValidationOutcome::Done);
    let work = validation.advance(work, ValidationOutcome::Events(vec![false]));
    assert!(matches!(work, ValidationWork::ReadPipe(_, 0)));
    let mut bytes = resolution_report(1, &vec![IpRecord::V4([2, 2, 2, 2])]);
    bytes.extend(resolution_report(0, &vec![IpRecord::V4([1, 1, 1, 1])]));
    let work = validation.advance(work, ValidationOutcome::Bytes(bytes));
    assert!(matches!(work, ValidationWork::ReadPipe(_, 0)));
    assert_eq!(validation.response_count(), 1);
    let work = validation.advance(work, ValidationOutcome::NothingToRead);
    match &work {
        ValidationWork::StoreAnswers(answers) => {
            assert_eq!(answers.len(), 2);
            assert_eq!(answers[0].server_name, "a");
            assert_eq!(answers[0].address, vec![1, 1, 1, 1]);
            assert_eq!(answers[1].server_name, "b");
            assert_eq!(answers[1].address, vec![2, 2, 2, 2]);
        }
        _ => panic!("nothing to store"),
    }
    let work = validation.advance(work, ValidationOutcome::Done);
    let expected = vec![
        (vec![1, 1, 1, 1], Some("a".to_string())),
        (vec![2, 2, 2, 2], Some("b/x".to_string())),
    ];
    assert_eq!(addresses(&work), expected);
}

#[test]
fn wait_goes_on_for_missing_answers() {
    let (mut validation, work) = started(&["a", "b"]);
    let work = validation.advance(work, ValidationOutcome::Done);
    let work = validation.advance(work, ValidationOutcome::Events(vec![false]));
    let bytes = resolution_report(1, &vec![IpRecord::V4([2, 2, 2, 2])]);
    let work = validation.advance(work, ValidationOutcome::Bytes(bytes));
    let work = validation.advance(work, ValidationOutcome::NothingToRead);
    assert!(matches!(work, ValidationWork::Poll));
    // A second read, even of a failure, is as many reads as there are requesters.
    let work = validation.advance(work, ValidationOutcome::Events(vec![false]));
    let work = validation.advance(work, ValidationOutcome::Bytes(vec![0; 8]));
    let work = validation.advance(work, ValidationOutcome::NothingToRead);
    assert!(matches!(work, ValidationWork::StoreAnswers(_)));
    let work = validation.advance(work, ValidationOutcome::Done);
    assert_eq!(addresses(&work), vec![(vec![2, 2, 2, 2], Some("b".to_string()))]);
}

#[test]
fn limits_of_the_wait() {
    assert_eq!(POLL_TIMEOUT_SECONDS, 5);
    assert_eq!(READ_SIZE, 512);
    assert_eq!(PIPE_TOKEN, 0);
    assert_eq!(CONTROLLER_TOKEN, usize::MAX);
}

#[test]
fn accepted_servers_precede_answered_names() {
    let (mut validation, work) = begin(false, &["a", "9.9.9.9", "/", "::1", "b/x", "c", "8.8.8.8"]);
    let work = parsed(&mut validation, work, None);
    let work = validation.advance(work, ValidationOutcome::Cached(None));
    let work = validation.advance(work, ValidationOutcome::Done);
    let work = parsed(&mut validation, work, Some(IpRecord::V4([9, 9, 9, 9])));
    let work = parsed(&mut validation, work, None);
    let work = parsed(&mut validation, work, Some(IpRecord::V6([1; 16])));
    let work = parsed(&mut validation, work, None);
    let cached = ValidationOutcome::Cached(Some(IpRecord::V6([2; 16])));
    let work = validation.advance(work, cached);
    let work = parsed(&mut validation, work, None);
    let work = validation.advance(work, ValidationOutcome::Cached(None));
    assert_eq!(validation.newest_requester().unwrap().result_id, 5);
    let work = validation.advance(work, ValidationOutcome::Done);
    let work = parsed(&mut validation, work, Some(IpRecord::V4([8, 8, 8, 8])));
    let work = validation.advance(work, ValidationOutcome::Done);
    // The answers come in two reads, the later name first.
    let work = validation.advance(work, ValidationOutcome::Events(vec![false]));
    let work = validation.advance(work, ValidationOutcome::Bytes(vec![6, 5, 3, 3, 3, 3]));
    let work = validation.advance(work, ValidationOutcome::Bytes(vec![6, 0, 1, 1, 1, 1]));
    let work = validation.advance(work, ValidationOutcome::NothingToRead);
    let work = validation.advance(work, ValidationOutcome::Done);
    let expected = vec![
        (vec![9, 9, 9, 9], None),
        (vec![2; 16], Some("b/x".to_string())),
        (vec![8, 8, 8, 8], None),
        (vec![1, 1, 1, 1], Some("a".to_string())),
        (vec![3, 3, 3, 3], Some("c".to_string())),
    ];
    assert_eq!(addresses(&work), expected);
}

#[test]
fn left_out_servers_alone_are_a_failure() {
    let (mut validation, work) = begin(false, &["https:///x", "::1"]);
    let work = parsed(&mut validation, work, None);
    let work = parsed(&mut validation, work, Some(IpRecord::V6([1; 16])));
    assert!(matches!(work, ValidationWork::Return(Err(ValidateDnsError::ParseFailure))));
}

#[test]
fn time_out_keeps_what_is_there() {
    let (mut validation, work) = started(&["a"]);
    let work = validation.advance(work, ValidationOutcome::Done);
    let work = validation.advance(work, ValidationOutcome::Events(vec![]));
    assert!(matches!(&work, ValidationWork::StoreAnswers(answers) if answers.is_empty()));
    let work = validation.advance(work, ValidationOutcome::Done);
    assert!(addresses(&work).is_empty());
}

#[test]
fn controller_interrupts_the_wait() {
    let (mut validation, work) = started(&["a"]);
    let work = validation.advance(work, ValidationOutcome::Done);
    let work = validation.advance(work, ValidationOutcome::Events(vec![false, true]));
    let work = validation.advance(work, ValidationOutcome::NothingToRead);
    assert!(matches!(work, ValidationWork::TakeStop));
    let work = validation.advance(work, ValidationOutcome::Stop(Some(VpnResult::Stopping)));
    assert!(matches!(
        work,
        ValidationWork::Return(Ok(ValidateDnsResult::Interrupted(VpnResult::Stopping)))
    ));

    let (mut validation, work) = started(&["a"]);
    let work = validation.advance(work, ValidationOutcome::Done);
    let work = validation.advance(work, ValidationOutcome::Events(vec![true]));
    let work = validation.advance(work, ValidationOutcome::Stop(None));
    assert!(matches!(
        work,
        ValidationWork::Return(Ok(ValidateDnsResult::Interrupted(VpnResult::Reconnecting)))
    ));
}

#[test]
fn numbers_wrap_beyond_one_byte() {
    let names: Vec<String> = (0..257).map(|i: i32| format!("server{}", i)).collect();
    let names: Vec<&str> = names.iter().map(|name| name.as_str()).collect();
    let (validation, _) = started(&names);
    assert_eq!(validation.requester_count(), 257);
    assert_eq!(validation.newest_requester().unwrap().result_id, 0);
}
