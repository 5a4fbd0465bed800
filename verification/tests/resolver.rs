use libnet::address::{ip_from_octets, IpRecord};
use libnet::resolver::{
    failure_report, lookup_report, note_answers, resolution_report, resolver_url, DnsRequester,
    RESOLVER_PORT,
};

fn requester(name: &str, result_id: u8) -> DnsRequester {
    DnsRequester::new(name.to_string(), None, result_id)
}

fn v6() -> IpRecord {
    IpRecord::V6([0x20, 1, 0x48, 0x60, 0, 0, 0, 0, 0, 0, 0, 0, 0, 0, 0x88, 0x88])
}

#[test]
fn url_of_a_server_name() {
    assert_eq!(resolver_url("dns.google"), Some("https://dns.google/".to_string()));
    assert_eq!(resolver_url("DNS.Google:8443"), Some("https://dns.google:8443/".to_string()));
    assert_eq!(resolver_url("dns google"), None);
    assert_eq!(resolver_url("dns.google:port"), None);
}

#[test]
fn failed_resolution_is_reported_as_zeros() {
    assert_eq!(failure_report(), vec![0u8; 8]);
    assert_eq!(resolution_report(3, &vec![]), vec![0u8; 8]);
}

#[test]
fn first_address_is_reported() {
    let addresses = vec![IpRecord::V4([8, 8, 4, 4]), v6()];
    assert_eq!(resolution_report(3, &addresses), vec![6, 3, 8, 8, 4, 4]);
    let report = resolution_report(4, &vec![v6()]);
    assert_eq!(report.len(), 18);
    assert_eq!(report[0], 18);
    assert_eq!(report[1], 4);
    assert_eq!(report[2..].to_vec(), v6().octets());
}

#[test]
fn lookup_decides_the_report() {
    assert_eq!(RESOLVER_PORT, 53);
    assert_eq!(lookup_report(3, None), vec![0u8; 8]);
    assert_eq!(lookup_report(3, Some(&vec![])), vec![0u8; 8]);
    let found = vec![IpRecord::V4([8, 8, 4, 4]), v6()];
    assert_eq!(lookup_report(3, Some(&found)), vec![6, 3, 8, 8, 4, 4]);
}

#[test]
fn report_reads_back() {
    let mut requesters = vec![requester("a", 0), requester("b", 1)];
    let report = resolution_report(1, &vec![IpRecord::V4([1, 1, 1, 1])]);
    note_answers(&mut requesters, &report);
    assert_eq!(requesters[0].resolved_address, None);
    assert_eq!(requesters[1].resolved_address, Some(vec![1, 1, 1, 1]));
    assert_eq!(requesters[1].server_name, "b");
    assert_eq!(requesters[1].result_id, 1);
}

#[test]
fn reports_behind_each_other_are_all_read() {
    let mut requesters = vec![requester("a", 0), requester("b", 1), requester("c", 2)];
    let mut bytes = resolution_report(2, &vec![IpRecord::V4([1, 2, 3, 4])]);
    bytes.extend(resolution_report(0, &vec![v6()]));
    note_answers(&mut requesters, &bytes);
    assert_eq!(requesters[0].resolved_address, Some(v6().octets()));
    assert_eq!(requesters[1].resolved_address, None);
    assert_eq!(requesters[2].resolved_address, Some(vec![1, 2, 3, 4]));
}

#[test]
fn failure_answers_nobody_and_ends_the_reading() {
    let mut requesters = vec![requester("a", 0)];
    note_answers(&mut requesters, &failure_report());
    assert_eq!(requesters[0].resolved_address, None);

    let mut bytes = failure_report();
    bytes.extend(resolution_report(0, &vec![IpRecord::V4([1, 2, 3, 4])]));
    note_answers(&mut requesters, &bytes);
    assert_eq!(requesters[0].resolved_address, None);

    let mut bytes = resolution_report(0, &vec![IpRecord::V4([1, 2, 3, 4])]);
    bytes.extend(failure_report());
    note_answers(&mut requesters, &bytes);
    assert_eq!(requesters[0].resolved_address, Some(vec![1, 2, 3, 4]));
}

#[test]
fn answer_for_nobody_ends_the_reading() {
    let mut requesters = vec![requester("a", 0)];
    let mut bytes = resolution_report(7, &vec![IpRecord::V4([9, 9, 9, 9])]);
    bytes.extend(resolution_report(0, &vec![IpRecord::V4([1, 2, 3, 4])]));
    note_answers(&mut requesters, &bytes);
    assert_eq!(requesters[0].resolved_address, None);
}

#[test]
fn short_reports_are_ignored() {
    let mut requesters = vec![requester("a", 0)];
    note_answers(&mut requesters, &[]);
    note_answers(&mut requesters, &[1]);
    note_answers(&mut requesters, &[1, 0]);
    note_answers(&mut requesters, &[6, 0, 1, 2, 3]);
    assert_eq!(requesters[0].resolved_address, None);
    note_answers(&mut requesters, &[2, 0]);
    assert_eq!(requesters[0].resolved_address, Some(vec![]));
}

#[test]
fn first_requester_with_the_number_is_answered() {
    let mut requesters = vec![requester("a", 5), requester("b", 5)];
    note_answers(&mut requesters, &[6, 5, 1, 2, 3, 4]);
    assert_eq!(requesters[0].resolved_address, Some(vec![1, 2, 3, 4]));
    assert_eq!(requesters[1].resolved_address, None);
}

#[test]
fn addresses_are_read_from_octets() {
    assert_eq!(ip_from_octets(&vec![8, 8, 8, 8]), Some(IpRecord::V4([8, 8, 8, 8])));
    assert_eq!(ip_from_octets(&v6().octets()), Some(v6()));
    assert_eq!(ip_from_octets(&vec![1, 2, 3]), None);
    assert_eq!(ip_from_octets(&vec![]), None);
}
