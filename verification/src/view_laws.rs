//! That sequences of values are seen as the sequences of what each value holds.

use crate::backend::connection::DoH3ServerConnectionContainer;
use crate::backend::request::Header;
use crate::resolver;
use crate::resolver::DnsRequester;
use crate::run::{RunView, RunWork};
use crate::status::{VpnError, VpnResult};
use crate::validation::{
    NativeDnsServer, NativeDnsServerType, ResultView, ServerKind, ValidateDnsError,
    ValidateDnsResult,
};
use crate::validator;
use crate::validator::{CacheAnswer, PlanView, ServerPlan, ValidationWork, WorkView};
use crate::vpn;
use crate::vpn::{EventSelection, IterationView, IterationWork, PollEvent};
use std::sync::Arc;
use vstd::prelude::*;

verus! {

/// Strings, packets and answers are seen one by one, in their order, as they stand.
pub proof fn law_sequences_are_seen_as_they_stand(
    strings: Seq<String>,
    packets: Seq<Vec<u8>>,
    answers: Seq<CacheAnswer>,
    requesters: Seq<DnsRequester>,
    index: int,
)
    ensures
        validator::string_views(strings).len() == strings.len(),
        0 <= index < strings.len() ==> validator::string_views(strings)[index] == strings[index]@,
        vpn::packet_views(packets).len() == packets.len(),
        0 <= index < packets.len() ==> vpn::packet_views(packets)[index] == packets[index]@,
        validator::answer_views(answers).len() == answers.len(),
        0 <= index < answers.len() ==> validator::answer_views(answers)[index] == (
            answers[index].server_name@,
            answers[index].address@,
        ),
        resolver::requester_views(requesters).len() == requesters.len(),
        0 <= index < requesters.len() ==> {
            let view = resolver::requester_views(requesters)[index];
            &&& view.server_name == requesters[index].server_name@
            &&& view.result_id == requesters[index].result_id
            &&& requesters[index].server_path is None ==> view.server_path is None
            &&& requesters[index].server_path is Some ==> view.server_path == Some(
                requesters[index].server_path->0@,
            )
            &&& requesters[index].resolved_address is None ==> view.resolved_address is None
            &&& requesters[index].resolved_address is Some ==> view.resolved_address == Some(
                requesters[index].resolved_address->0@,
            )
        },
{
}

/// A header is seen as its bytes.
pub proof fn law_header_is_seen_as_its_bytes(header: Header)
    ensures
        header@.name == header.name@,
        header@.value == header.value@,
{
}

/// A connection is seen as its session, its queued requests, its queued packets and the requests that
/// wait on streams.
pub proof fn law_connection_is_seen_as_its_parts(connection: DoH3ServerConnectionContainer)
    ensures
        connection@.session == connection.active_session,
        connection@.requests == connection.request_queue@,
        connection@.packets == connection.queued_packets@,
        connection@.streams == connection.sent_request_streams@,
{
}

/// The work of an iteration is seen as what it carries.
pub proof fn law_iteration_work_is_seen_as_it_stands(
    flag: bool,
    events: Vec<PollEvent>,
    selected: EventSelection,
    packet: Vec<u8>,
    length: usize,
    result: Result<VpnResult, VpnError>,
)
    ensures
        IterationWork::RegisterTunnel(flag)@ == IterationView::RegisterTunnel(flag),
        IterationWork::Poll@ == IterationView::Poll,
        IterationWork::TakeStop(events)@ == IterationView::TakeStop(events@),
        IterationWork::ProcessBackend(selected)@ == IterationView::ProcessBackend(selected@),
        IterationWork::WriteTunnel(packet, flag)@ == IterationView::WriteTunnel(packet@, flag),
        IterationWork::ReadTunnel@ == IterationView::ReadTunnel,
        IterationWork::HandleRequest(length)@ == IterationView::HandleRequest(length),
        IterationWork::DeregisterTunnel@ == IterationView::DeregisterTunnel,
        IterationWork::Return(result)@ == IterationView::Return(result),
        selected@.read_from_device == selected.read_from_device,
        selected@.write_to_device == selected.write_to_device,
        selected@.backend_events == selected.backend_events@,
{
}

/// The work of a run is seen as what it carries.
pub proof fn law_run_work_is_seen_as_it_stands(
    flag: bool,
    fd: i32,
    servers: Vec<Arc<NativeDnsServer>>,
    addresses: Vec<Vec<u8>>,
    code: i32,
    stopped: VpnResult,
    result: Result<VpnResult, VpnError>,
    index: int,
)
    ensures
        RunWork::OpenCache@ == RunView::OpenCache,
        RunWork::Configure@ == RunView::Configure,
        ({
            let view = RunWork::StartBackend(flag, fd, servers)@;
            &&& view is StartBackend
            &&& view->StartBackend_0 == flag
            &&& view->StartBackend_1 == fd
            &&& view->StartBackend_2.len() == servers@.len()
            &&& 0 <= index < servers@.len() ==> view->StartBackend_2[index] == servers@[index]@
        }),
        ({
            let view = RunWork::PreparePolling(fd, addresses)@;
            &&& view is PreparePolling
            &&& view->PreparePolling_0 == fd
            &&& view->PreparePolling_1.len() == addresses@.len()
            &&& 0 <= index < addresses@.len() ==> view->PreparePolling_1[index]
                == addresses@[index]@
        }),
        RunWork::ReportStatus(code)@ == RunView::ReportStatus(code),
        RunWork::Iterate@ == RunView::Iterate,
        RunWork::SaveCache(stopped)@ == RunView::SaveCache(stopped),
        RunWork::Return(result)@ == RunView::Return(result),
{
}

/// The work of a validation is seen as what it carries.
pub proof fn law_validation_work_is_seen_as_it_stands(
    position: usize,
    name: String,
    path: String,
    events: Vec<bool>,
    answers: Vec<CacheAnswer>,
    servers: Vec<Arc<NativeDnsServer>>,
    stopped: VpnResult,
    error: ValidateDnsError,
    index: int,
)
    ensures
        ValidationWork::CreatePipe@ == WorkView::CreatePipe,
        ValidationWork::ParseAddress(position)@ == WorkView::ParseAddress(position as int),
        ValidationWork::LookUpCache(position, name, None)@ == WorkView::LookUpCache(
            position as int,
            name@,
            None,
        ),
        ValidationWork::LookUpCache(position, name, Some(path))@ == WorkView::LookUpCache(
            position as int,
            name@,
            Some(path@),
        ),
        ValidationWork::StartRequester(position)@ == WorkView::StartRequester(position as int),
        ValidationWork::PreparePolling@ == WorkView::PreparePolling,
        ValidationWork::Poll@ == WorkView::Poll,
        ValidationWork::ReadPipe(events, position)@ == WorkView::ReadPipe(
            events@,
            position as int,
        ),
        ValidationWork::TakeStop@ == WorkView::TakeStop,
        ValidationWork::StoreAnswers(answers)@ == WorkView::StoreAnswers(
            validator::answer_views(answers@),
        ),
        ValidationWork::Return(Err(error))@ == WorkView::Return(Err(error)),
        ValidationWork::Return(Ok(ValidateDnsResult::Interrupted(stopped)))@ == WorkView::Return(
            Ok(ResultView::Interrupted(stopped)),
        ),
        ({
            let view = ValidationWork::Return(Ok(ValidateDnsResult::Success(servers)))@;
            match view {
                WorkView::Return(Ok(ResultView::Success(views))) => {
                    &&& views.len() == servers@.len()
                    &&& 0 <= index < servers@.len() ==> views[index] == servers@[index]@
                },
                _ => false,
            }
        }),
{
}

/// Plans and kinds of servers are seen as what they carry.
pub proof fn law_plans_are_seen_as_they_stand(server: NativeDnsServer, name: String, path: String)
    ensures
        ServerPlan::Accept(server)@ == PlanView::Accept(server@),
        ServerPlan::Skip@ == PlanView::Skip,
        ServerPlan::Lookup(name, None)@ == PlanView::Lookup(name@, None),
        ServerPlan::Lookup(name, Some(path))@ == PlanView::Lookup(name@, Some(path@)),
        NativeDnsServerType::DoH3(name, None)@ == ServerKind::DoH3(name@, None),
        NativeDnsServerType::DoH3(name, Some(path))@ == ServerKind::DoH3(name@, Some(path@)),
        NativeDnsServerType::Standard@ == ServerKind::Standard,
{
}

} // verus!
