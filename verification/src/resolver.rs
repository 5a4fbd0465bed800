//! Resolution of DNS-over-HTTP/3 server names, and the reports in which resolver threads hand
//! their answers back over a pipe.
//!
//! A successful report is `[size, result id, octets...]`, where `size` counts the whole report. A
//! reader of the pipe may find several reports behind each other in one read.

use crate::address::IpRecord;
use crate::text;
use vstd::prelude::*;

verus! {

/// The port that stands in for one that the URL of a server does not name.
pub const RESOLVER_PORT: u16 = 53;

/// The declaration of the error of `url::Url::parse`.
#[verifier::external_type_specification]
#[verifier::external_body]
pub struct ExUrlParseError(url::ParseError);

/// The serialization of the URL that `url::Url::parse` reads from a text, `None` where it rejects
/// the text.
pub uninterp spec fn url_serialization(text: Seq<char>) -> Option<Seq<char>>;

/// Calls `url::Url::parse` and hands out the serialization of the URL.
///
/// Claimed of it: whether it accepts a text, and the serialization that it gives, depend on the
/// text alone.
#[verifier::external_body]
fn parse_url(text: &str) -> (parsed: Result<String, url::ParseError>)
    ensures
        match parsed {
            Ok(serialization) => url_serialization(text@) == Some(serialization@),
            Err(_) => url_serialization(text@) is None,
        },
{
    url::Url::parse(text).map(String::from)
}

/// The text that is resolved for a server name: the server's HTTPS URL.
pub open spec fn https_text(server_name: Seq<char>) -> Seq<char> {
    "https://"@ + server_name
}

/// Returns the URL under which the addresses of `server_name` are looked up, `None` where no URL
/// can be made of the name.
pub fn resolver_url(server_name: &str) -> (resolvable: Option<String>)
    ensures
        text::optional_text(resolvable) == url_serialization(https_text(server_name@)),
        text::optional_text(resolvable) == url_serialization("https://"@ + server_name@),
{
    let https_url = text::join("https://", server_name);
    match parse_url(https_url.as_str()) {
        Ok(serialization) => Some(serialization),
        Err(_) => None,
    }
}

/// The report of a failed resolution: eight zero bytes.
pub open spec fn failure_bytes() -> Seq<u8> {
    Seq::new(8, |i: int| 0u8)
}

/// The report of the address `octets` for the requester `result_id`.
pub open spec fn success_bytes(result_id: u8, octets: Seq<u8>) -> Seq<u8> {
    seq![(2 + octets.len()) as u8, result_id] + octets
}

/// The report for the requester `result_id` whose name resolved to `addresses`: the first address,
/// or a failure where there is none.
pub open spec fn report_bytes(result_id: u8, addresses: Seq<IpRecord>) -> Seq<u8> {
    if addresses.len() == 0 {
        failure_bytes()
    } else {
        success_bytes(result_id, addresses[0].octets_view())
    }
}

/// Returns the report of a failed resolution.
pub fn failure_report() -> (report: Vec<u8>)
    ensures
        report@ == failure_bytes(),
        report@ == seq![0u8, 0, 0, 0, 0, 0, 0, 0],
{
    vec![0u8; 8]
}

/// Returns the report that a resolver sends once its name resolved to `addresses`.
pub fn resolution_report(result_id: u8, addresses: &Vec<IpRecord>) -> (report: Vec<u8>)
    ensures
        report@ == report_bytes(result_id, addresses@),
{
    if addresses.len() == 0 {
        return failure_report();
    }
    let mut report = addresses[0].octets();
    let size: u8 = match addresses[0] {
        IpRecord::V4(_) => 2 + 4,
        IpRecord::V6(_) => 2 + 16,
    };
    report.insert(0, result_id);
    report.insert(0, size);
    assert(report@ =~= report_bytes(result_id, addresses@));
    report
}

/// Returns the report of a resolver: `found` holds the addresses that the name resolved to, or is
/// `None` where no URL could be made of the name or the look-up failed.
pub fn lookup_report(result_id: u8, found: Option<&Vec<IpRecord>>) -> (report: Vec<u8>)
    ensures
        report@ == match found {
            Some(addresses) => report_bytes(result_id, addresses@),
            None => failure_bytes(),
        },
{
    match found {
        Some(addresses) => resolution_report(result_id, addresses),
        None => failure_report(),
    }
}

/// What is known of a requester.
#[verifier::ext_equal]
pub struct RequesterView {
    pub server_name: Seq<char>,
    pub server_path: Option<Seq<char>>,
    pub resolved_address: Option<Seq<u8>>,
    pub result_id: u8,
}

/// A server name that is being resolved.
pub struct DnsRequester {
    pub server_name: String,
    pub server_path: Option<String>,
    pub resolved_address: Option<Vec<u8>>,
    pub result_id: u8,
}

/// The bytes of an optional address.
pub open spec fn optional_bytes(bytes: Option<Vec<u8>>) -> Option<Seq<u8>> {
    match bytes {
        Some(vector) => Some(vector@),
        None => None,
    }
}

impl View for DnsRequester {
    type V = RequesterView;

    open spec fn view(&self) -> RequesterView {
        RequesterView {
            server_name: self.server_name@,
            server_path: text::optional_text(self.server_path),
            resolved_address: optional_bytes(self.resolved_address),
            result_id: self.result_id,
        }
    }
}

impl DnsRequester {
    /// Creates a requester that has no answer yet.
    pub fn new(server_name: String, server_path: Option<String>, result_id: u8) -> (requester: Self)
        ensures
            requester@ == (RequesterView {
                server_name: server_name@,
                server_path: text::optional_text(server_path),
                resolved_address: None,
                result_id,
            }),
    {
        DnsRequester { server_name, server_path, resolved_address: None, result_id }
    }
}

/// The views of a sequence of requesters.
pub open spec fn requester_views(requesters: Seq<DnsRequester>) -> Seq<RequesterView> {
    requesters.map_values(|requester: DnsRequester| requester@)
}

/// The answers that stand at the front of what was read from the pipe, up to the first report that
/// is cut short or is no answer.
pub open spec fn answers(bytes: Seq<u8>) -> Seq<(u8, Seq<u8>)>
    decreases bytes.len(),
{
    if bytes.len() == 0 || bytes[0] < 2 || bytes[0] > bytes.len() {
        Seq::empty()
    } else {
        let size = bytes[0] as int;
        seq![(bytes[1], bytes.subrange(2, size))] + answers(bytes.skip(size))
    }
}

/// The first requester that waits under `result_id`.
pub open spec fn waiting_under(requesters: Seq<RequesterView>, result_id: u8) -> Option<int> {
    requesters.map_values(|requester: RequesterView| requester.result_id).index_of_first(result_id)
}

/// The requesters after the answers came in, one after the other. An answer that nobody waits for
/// ends the reading: what follows it is not looked at.
pub open spec fn with_answers(
    requesters: Seq<RequesterView>,
    received: Seq<(u8, Seq<u8>)>,
) -> Seq<RequesterView>
    decreases received.len(),
{
    if received.len() == 0 {
        requesters
    } else {
        match waiting_under(requesters, received[0].0) {
            Some(index) => with_answers(
                requesters.update(
                    index,
                    RequesterView {
                        resolved_address: Some(received[0].1),
                        ..requesters[index]
                    },
                ),
                received.drop_first(),
            ),
            None => requesters,
        }
    }
}

/// Finds the first requester that waits under `result_id`.
fn find_requester(requesters: &Vec<DnsRequester>, result_id: u8) -> (found: Option<usize>)
    ensures
        match found {
            Some(index) => index < requesters@.len() && waiting_under(
                requester_views(requesters@),
                result_id,
            ) == Some(index as int),
            None => waiting_under(requester_views(requesters@), result_id) is None,
        },
{
    let ghost ids = requester_views(requesters@).map_values(
        |requester: RequesterView| requester.result_id,
    );
    proof {
        ids.index_of_first_ensures(result_id);
    }
    let mut index: usize = 0;
    while index < requesters.len()
        invariant
            index <= requesters@.len(),
            ids == requester_views(requesters@).map_values(
                |requester: RequesterView| requester.result_id,
            ),
            forall|i: int| 0 <= i < index ==> ids[i] != result_id,
            match ids.index_of_first(result_id) {
                Some(found) => ids.contains(result_id) && 0 <= found < ids.len() && ids[found]
                    == result_id && forall|j: int| 0 <= j < found ==> ids[j] != result_id,
                None => !ids.contains(result_id),
            },
        decreases requesters@.len() - index,
    {
        assert(ids[index as int] == requesters@[index as int].result_id);
        if requesters[index].result_id == result_id {
            return Some(index);
        }
        index = index + 1;
    }
    None
}

/// Notes the answers in `bytes`, read from the pipe, with the requesters that wait for them.
pub fn note_answers(requesters: &mut Vec<DnsRequester>, bytes: &[u8])
    ensures
        requester_views(final(requesters)@) == with_answers(
            requester_views(old(requesters)@),
            answers(bytes@),
        ),
{
    let mut position: usize = 0;
    assert(bytes@.skip(0) =~= bytes@);
    while position < bytes.len()
        invariant
            position <= bytes@.len(),
            with_answers(requester_views(old(requesters)@), answers(bytes@)) == with_answers(
                requester_views(requesters@),
                answers(bytes@.skip(position as int)),
            ),
        decreases bytes@.len() - position,
    {
        let ghost rest = bytes@.skip(position as int);
        let ghost received = answers(rest);
        let size = bytes[position] as usize;
        if size < 2 || size > bytes.len() - position {
            return;
        }
        let result_id = bytes[position + 1];
        assert(received[0].0 == result_id);
        match find_requester(requesters, result_id) {
            Some(index) => {
                let ghost before = requester_views(requesters@);
                let address = vstd::slice::slice_to_vec(
                    vstd::slice::slice_subrange(bytes, position + 2, position + size),
                );
                assert(address@ =~= rest.subrange(2, size as int));
                requesters[index].resolved_address = Some(address);
                proof {
                    let answered = RequesterView {
                        resolved_address: Some(received[0].1),
                        ..before[index as int]
                    };
                    assert(requester_views(requesters@) =~= before.update(index as int, answered));
                    assert(rest.skip(size as int) =~= bytes@.skip(position + size));
                    assert(received.drop_first() =~= answers(rest.skip(size as int)));
                }
                position = position + size;
            },
            None => {
                return;
            },
        }
    }
}

/// A report that is read back gives the answer that was reported, and what follows it is read on.
pub proof fn law_report_reads_back(result_id: u8, octets: Seq<u8>, rest: Seq<u8>)
    requires
        octets.len() <= u8::MAX - 2,
    ensures
        answers(success_bytes(result_id, octets) + rest) == seq![(result_id, octets)] + answers(rest),
{
    let report = success_bytes(result_id, octets);
    let bytes = report + rest;
    let size = bytes[0] as int;
    assert(size == octets.len() + 2);
    assert(bytes.subrange(2, size) =~= octets);
    assert(bytes.skip(size) =~= rest);
}

/// What a resolver reports of the addresses that it found is the first one of them.
pub proof fn law_first_address_is_reported(result_id: u8, addresses: Seq<IpRecord>)
    requires
        addresses.len() > 0,
    ensures
        answers(report_bytes(result_id, addresses)) == seq![
            (result_id, addresses[0].octets_view()),
        ],
{
    let octets = addresses[0].octets_view();
    let report = success_bytes(result_id, octets);
    law_report_reads_back(result_id, octets, Seq::empty());
    assert(report + Seq::empty() =~= report);
    assert(seq![(result_id, octets)] + answers(Seq::empty()) =~= seq![(result_id, octets)]);
}

/// The report of a failure is an answer for nobody, and it ends the reading.
pub proof fn law_failure_answers_nobody(requesters: Seq<RequesterView>, rest: Seq<u8>)
    ensures
        with_answers(requesters, answers(failure_bytes() + rest)) == requesters,
{
    assert((failure_bytes() + rest)[0] == 0);
}

/// An answer goes to the first requester that waits under its number, and to nobody else.
pub proof fn law_answer_reaches_one_requester(
    requesters: Seq<RequesterView>,
    result_id: u8,
    octets: Seq<u8>,
)
    ensures
        match waiting_under(requesters, result_id) {
            Some(index) => {
                &&& 0 <= index < requesters.len()
                &&& requesters[index].result_id == result_id
                &&& forall|i: int|
                    0 <= i < index ==> (#[trigger] requesters[i]).result_id != result_id
                &&& with_answers(requesters, seq![(result_id, octets)]) == requesters.update(
                    index,
                    RequesterView { resolved_address: Some(octets), ..requesters[index] },
                )
            },
            None => {
                &&& forall|i: int|
                    0 <= i < requesters.len() ==> (#[trigger] requesters[i]).result_id != result_id
                &&& with_answers(requesters, seq![(result_id, octets)]) == requesters
            },
        },
{
    let ids = requesters.map_values(|requester: RequesterView| requester.result_id);
    ids.index_of_first_ensures(result_id);
    assert(forall|i: int|
        0 <= i < requesters.len() ==> (#[trigger] requesters[i]).result_id == ids[i]);
    let received = seq![(result_id, octets)];
    assert(received.drop_first() =~= Seq::empty());
    match waiting_under(requesters, result_id) {
        Some(index) => {
            let after = requesters.update(
                index,
                RequesterView { resolved_address: Some(octets), ..requesters[index] },
            );
            assert(with_answers(after, received.drop_first()) == after);
        },
        None => {
            assert forall|i: int| 0 <= i < requesters.len() implies (#[trigger] requesters[i]).result_id
                != result_id by {
                assert(ids[i] == requesters[i].result_id);
            }
        },
    }
}

/// Whether `after` are the requesters `before`, except that more of them may be answered.
pub open spec fn same_requesters(before: Seq<RequesterView>, after: Seq<RequesterView>) -> bool {
    &&& after.len() == before.len()
    &&& forall|i: int|
        0 <= i < before.len() ==> {
            &&& (#[trigger] after[i]).server_name == before[i].server_name
            &&& after[i].server_path == before[i].server_path
            &&& after[i].result_id == before[i].result_id
            &&& before[i].resolved_address is Some ==> after[i].resolved_address is Some
        }
}

/// Answers change nothing but the addresses of the requesters, and an answered requester stays
/// answered.
pub proof fn law_answers_keep_requesters(
    requesters: Seq<RequesterView>,
    received: Seq<(u8, Seq<u8>)>,
)
    ensures
        same_requesters(requesters, with_answers(requesters, received)),
    decreases received.len(),
{
    if received.len() > 0 {
        let (result_id, octets) = received[0];
        law_answer_reaches_one_requester(requesters, result_id, octets);
        if let Some(index) = waiting_under(requesters, result_id) {
            let after = requesters.update(
                index,
                RequesterView { resolved_address: Some(octets), ..requesters[index] },
            );
            law_answers_keep_requesters(after, received.drop_first());
            let end = with_answers(requesters, received);
            assert forall|i: int| 0 <= i < requesters.len() implies {
                &&& (#[trigger] end[i]).server_name == requesters[i].server_name
                &&& end[i].server_path == requesters[i].server_path
                &&& end[i].result_id == requesters[i].result_id
                &&& requesters[i].resolved_address is Some ==> end[i].resolved_address is Some
            } by {
                assert(after[i].server_name == requesters[i].server_name);
            }
        }
    }
}

/// The reports that the requesters from `from` on get, behind each other, where requester `i`
/// resolves to `addresses[i]`.
pub open spec fn reports(
    requesters: Seq<RequesterView>,
    addresses: Seq<Seq<u8>>,
    from: int,
) -> Seq<u8>
    decreases requesters.len() - from,
{
    if 0 <= from < requesters.len() {
        success_bytes(requesters[from].result_id, addresses[from]) + reports(
            requesters,
            addresses,
            from + 1,
        )
    } else {
        Seq::empty()
    }
}

/// `requesters` with the addresses from `from` on noted.
pub open spec fn resolved_from(
    requesters: Seq<RequesterView>,
    addresses: Seq<Seq<u8>>,
    from: int,
) -> Seq<RequesterView> {
    Seq::new(
        requesters.len(),
        |i: int|
            if from <= i {
                RequesterView { resolved_address: Some(addresses[i]), ..requesters[i] }
            } else {
                requesters[i]
            },
    )
}

/// Reports that come in one read are all noted, each with the requester that it is for, as long as
/// no two requesters wait under the same number.
pub proof fn law_reports_of_one_read(
    requesters: Seq<RequesterView>,
    addresses: Seq<Seq<u8>>,
    from: int,
)
    requires
        0 <= from <= requesters.len(),
        addresses.len() == requesters.len(),
        forall|i: int|
            0 <= i < addresses.len() ==> (#[trigger] addresses[i]).len() <= u8::MAX - 2,
        forall|i: int, j: int|
            0 <= i < j < requesters.len() ==> (#[trigger] requesters[i]).result_id != (
            #[trigger] requesters[j]).result_id,
    ensures
        with_answers(requesters, answers(reports(requesters, addresses, from))) == resolved_from(
            requesters,
            addresses,
            from,
        ),
    decreases requesters.len() - from,
{
    if from < requesters.len() {
        let result_id = requesters[from].result_id;
        let octets = addresses[from];
        let rest = reports(requesters, addresses, from + 1);
        let bytes = reports(requesters, addresses, from);
        law_report_reads_back(result_id, octets, rest);
        law_answer_reaches_one_requester(requesters, result_id, octets);
        let received = answers(bytes);
        assert(received[0] == (result_id, octets));
        assert(received.drop_first() =~= answers(rest));
        assert(waiting_under(requesters, result_id) == Some(from));
        let after = requesters.update(
            from,
            RequesterView { resolved_address: Some(octets), ..requesters[from] },
        );
        lemma_same_reports(requesters, after, addresses, from + 1);
        law_reports_of_one_read(after, addresses, from + 1);
        assert(resolved_from(after, addresses, from + 1) =~= resolved_from(
            requesters,
            addresses,
            from,
        ));
    } else {
        assert(resolved_from(requesters, addresses, from) =~= requesters);
    }
}

/// Reports depend on the numbers of the requesters alone.
proof fn lemma_same_reports(
    first: Seq<RequesterView>,
    second: Seq<RequesterView>,
    addresses: Seq<Seq<u8>>,
    from: int,
)
    requires
        first.len() == second.len(),
        forall|i: int|
            0 <= i < first.len() ==> (#[trigger] first[i]).result_id == second[i].result_id,
    ensures
        reports(first, addresses, from) == reports(second, addresses, from),
    decreases first.len() - from,
{
    if 0 <= from < first.len() {
        lemma_same_reports(first, second, addresses, from + 1);
    }
}

/// The URL of a name is the name behind `https://`.
pub proof fn law_url_of_a_name(server_name: Seq<char>)
    ensures
        https_text(server_name) == seq!['h', 't', 't', 'p', 's', ':', '/', '/'] + server_name,
{
    reveal_strlit("https://");
    assert("https://"@ =~= seq!['h', 't', 't', 'p', 's', ':', '/', '/']);
}

/// The layout of a report: its size, the number of its requester and the octets of the address. A
/// failure is eight zero bytes.
pub proof fn law_layout_of_reports(result_id: u8, address: IpRecord, addresses: Seq<IpRecord>)
    ensures
        failure_bytes() == seq![0u8, 0, 0, 0, 0, 0, 0, 0],
        report_bytes(result_id, Seq::empty()) == failure_bytes(),
        ({
            let report = report_bytes(result_id, seq![address] + addresses);
            let octets = address.octets_view();
            &&& report.len() == octets.len() + 2
            &&& report[0] == report.len()
            &&& report[1] == result_id
            &&& report.skip(2) == octets
        }),
        address matches IpRecord::V4(octets) ==> address.octets_view() == octets@,
        address matches IpRecord::V6(octets) ==> address.octets_view() == octets@,
{
    assert(failure_bytes() =~= seq![0u8, 0, 0, 0, 0, 0, 0, 0]);
    assert((seq![address] + addresses)[0] == address);
    let report = report_bytes(result_id, seq![address] + addresses);
    assert(report.skip(2) =~= address.octets_view());
}

/// What is cut short, or says that it is shorter than a report can be, is no answer.
pub proof fn law_broken_reports_are_no_answers(bytes: Seq<u8>)
    requires
        bytes.len() == 0 || bytes[0] < 2 || bytes[0] > bytes.len(),
    ensures
        answers(bytes) == Seq::<(u8, Seq<u8>)>::empty(),
{
}

/// Answers are noted one after the other; one that nobody waits for hides those behind it.
pub proof fn law_answers_are_noted_one_by_one(
    requesters: Seq<RequesterView>,
    answer: (u8, Seq<u8>),
    rest: Seq<(u8, Seq<u8>)>,
)
    ensures
        with_answers(requesters, Seq::empty()) == requesters,
        (exists|i: int| 0 <= i < requesters.len() && (#[trigger] requesters[i]).result_id
            == answer.0) ==> with_answers(requesters, seq![answer] + rest) == with_answers(
            with_answers(requesters, seq![answer]),
            rest,
        ),
        (forall|i: int| 0 <= i < requesters.len() ==> (#[trigger] requesters[i]).result_id
            != answer.0) ==> with_answers(requesters, seq![answer] + rest) == requesters,
{
    let received = seq![answer] + rest;
    assert(received[0] == answer);
    assert(received.drop_first() =~= rest);
    assert(seq![answer].drop_first() =~= Seq::empty());
    law_answer_reaches_one_requester(requesters, answer.0, answer.1);
    if let Some(index) = waiting_under(requesters, answer.0) {
        let after = requesters.update(
            index,
            RequesterView { resolved_address: Some(answer.1), ..requesters[index] },
        );
        assert(with_answers(after, Seq::empty()) == after);
    }
}

} // verus!
