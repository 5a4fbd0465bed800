//! A run of the VPN from its configuration to the reason why it stops.
//!
//! A run is a sequence of pieces of outside work: [`VpnRun::begin`] names the first one and
//! [`VpnRun::advance`] takes the outcome of one and names the next.
//!
//! The general flow is as follows:
//!
//! 1. Poll the VPN file descriptor and the controller's event file descriptor
//!
//! 2. On an event, read a packet from the tunnel, translate its destination, and forward the packet
//!    to the real DNS server
//!
//! 3. Once there is a response, translate the destination and send it back to the tunnel
//!
//! 4. The controller's event file descriptor may be signalled, which ends the run, or there may be a
//!    problem, which ends it with a [`VpnError`].

use crate::backend::doh3;
use crate::backend::doh3::DoH3BackendError;
use crate::status::{VpnError, VpnResult, VpnStatus};
use crate::validation;
use crate::validation::{NativeDnsServer, NativeDnsServerType, ServerView};
use std::sync::Arc;
use vstd::prelude::*;
use vstd::string::*;

verus! {

/// How the configuration of the VPN went.
pub enum VpnConfigurationResult {
    /// The device is not connected to any networks and should wait before establishing the VPN.
    NoNetwork,
    /// There was no tunnel and we should restart.
    BuilderFailure,
    /// At least one of the user's DNS servers was invalid.
    InvalidDnsServers,
    /// The VPN controller interrupted the configuration.
    Interrupted(VpnResult),
    /// The tunnel was established with a valid file descriptor.
    Success(i32, Vec<Arc<NativeDnsServer>>),
}

/// Whether some server is a DoH3 server, which decides for the DoH3 backend.
pub open spec fn wants_doh3(servers: Seq<ServerView>) -> bool {
    exists|i: int| 0 <= i < servers.len() && (#[trigger] servers[i]).kind is DoH3
}

/// The bytes of the DoH3 addresses of those servers that have one.
pub open spec fn doh3_addresses(servers: Seq<ServerView>) -> Seq<Seq<u8>>
    decreases servers.len(),
{
    if servers.len() == 0 {
        Seq::empty()
    } else {
        let front = doh3_addresses(servers.drop_last());
        match servers.last().kind.doh3_address() {
            Some(address) => front.push(vstd::utf8::encode_utf8(address)),
            None => front,
        }
    }
}

/// The octets of the IP addresses of the servers.
pub open spec fn ip_addresses(servers: Seq<ServerView>) -> Seq<Seq<u8>> {
    servers.map_values(|server: ServerView| server.address)
}

/// The addresses under which requests are handed to the backend: the DoH3 addresses for the DoH3
/// backend, the octets of the IP addresses otherwise.
pub open spec fn proxy_addresses(servers: Seq<ServerView>) -> Seq<Seq<u8>> {
    if wants_doh3(servers) {
        doh3_addresses(servers)
    } else {
        ip_addresses(servers)
    }
}

/// The bytes of a sequence of byte strings.
pub open spec fn byte_views(strings: Seq<Vec<u8>>) -> Seq<Seq<u8>> {
    strings.map_values(|string: Vec<u8>| string@)
}

/// Tells whether the DoH3 backend is needed.
pub fn uses_doh3(servers: &Vec<Arc<NativeDnsServer>>) -> (doh3: bool)
    ensures
        doh3 == wants_doh3(validation::server_views(servers@)),
        doh3 <==> exists|i: int| 0 <= i < servers@.len() && (#[trigger] servers@[i])@.kind is DoH3,
{
    let ghost views = validation::server_views(servers@);
    let mut index: usize = 0;
    while index < servers.len()
        invariant
            index <= servers@.len(),
            views == validation::server_views(servers@),
            forall|i: int| 0 <= i < index ==> !((#[trigger] views[i]).kind is DoH3),
        decreases servers@.len() - index,
    {
        assert(views[index as int] == servers@[index as int]@);
        assert(servers@[index as int]@.kind is DoH3 ==> views[index as int].kind is DoH3);
        match servers[index].get_type() {
            NativeDnsServerType::DoH3(_, _) => {
                return true;
            },
            NativeDnsServerType::Standard => {},
        }
        index = index + 1;
    }
    assert forall|i: int| 0 <= i < servers@.len() implies !((
    #[trigger] servers@[i])@.kind is DoH3) by {
        assert(views[i] == servers@[i]@);
    }
    false
}

/// Returns the addresses under which requests are handed to the backend.
pub fn backend_addresses(servers: &Vec<Arc<NativeDnsServer>>) -> (addresses: Vec<Vec<u8>>)
    ensures
        byte_views(addresses@) == proxy_addresses(validation::server_views(servers@)),
        (forall|i: int| 0 <= i < servers@.len() ==> !((#[trigger] servers@[i])@.kind is DoH3)) ==> {
            &&& addresses@.len() == servers@.len()
            &&& forall|i: int|
                0 <= i < servers@.len() ==> (#[trigger] addresses@[i])@ == servers@[i]@.address
        },
{
    let doh3 = uses_doh3(servers);
    let ghost views = validation::server_views(servers@);
    let mut addresses: Vec<Vec<u8>> = Vec::new();
    let mut index: usize = 0;
    assert(views.take(0) =~= Seq::empty());
    assert(byte_views(addresses@) =~= Seq::empty());
    assert(ip_addresses(views.take(0)) =~= Seq::empty());
    while index < servers.len()
        invariant
            index <= servers@.len(),
            views == validation::server_views(servers@),
            byte_views(addresses@) == if doh3 {
                doh3_addresses(views.take(index as int))
            } else {
                ip_addresses(views.take(index as int))
            },
        decreases servers@.len() - index,
    {
        let ghost before = addresses@;
        let ghost longer = views.take(index + 1);
        assert(longer.drop_last() =~= views.take(index as int));
        assert(longer.last() == servers@[index as int]@);
        if doh3 {
            if let Some(address) = servers[index].get_type().get_doh3_address() {
                addresses.push(address.as_str().as_bytes_vec());
                assert(byte_views(addresses@) =~= byte_views(before).push(addresses@.last()@));
            }
        } else {
            addresses.push(servers[index].get_address());
            assert(byte_views(addresses@) =~= byte_views(before).push(addresses@.last()@));
            assert(ip_addresses(longer) =~= ip_addresses(views.take(index as int)).push(
                longer.last().address,
            ));
        }
        index = index + 1;
    }
    assert(views.take(index as int) =~= views);
    proof {
        if forall|i: int| 0 <= i < servers@.len() ==> !((#[trigger] servers@[i])@.kind is DoH3) {
            assert(addresses@.len() == byte_views(addresses@).len());
            assert forall|i: int| 0 <= i < servers@.len() implies (#[trigger] addresses@[i])@
                == servers@[i]@.address by {
                assert(byte_views(addresses@)[i] == ip_addresses(views)[i]);
                assert(views[i] == servers@[i]@);
            }
        }
    }
    addresses
}

/// A piece of outside work that a run asks for.
pub enum RunWork {
    /// Open the file of the DNS cache and read the cache from it. Outcome: `CacheOpened`.
    OpenCache,
    /// Configure the VPN. Outcome: `Configured`.
    Configure,
    /// Create the DNS backend for these servers, the DoH3 one if told so. The tunnel has this file
    /// descriptor. Outcome: `BackendStarted`.
    StartBackend(bool, i32, Vec<Arc<NativeDnsServer>>),
    /// Create the proxy in front of these backend addresses, and a poller that watches the
    /// controller. The tunnel has this file descriptor. Outcome: `Done` or `Failed`.
    PreparePolling(i32, Vec<Vec<u8>>),
    /// Report the status with this number. Outcome: `Done`.
    ReportStatus(i32),
    /// Do one iteration of the main loop. Outcome: `Iterated`.
    Iterate,
    /// Write the DNS cache to its file, because of this result. Outcome: `Done`.
    SaveCache(VpnResult),
    /// The run is over.
    Return(Result<VpnResult, VpnError>),
}

/// The outcome of a piece of outside work.
pub enum RunOutcome {
    Done,
    Failed,
    /// Whether there is a file for the DNS cache.
    CacheOpened(bool),
    Configured(VpnConfigurationResult),
    BackendStarted(Result<(), DoH3BackendError>),
    Iterated(Result<VpnResult, VpnError>),
}

/// A piece of outside work over views.
pub enum RunView {
    OpenCache,
    Configure,
    StartBackend(bool, i32, Seq<ServerView>),
    PreparePolling(i32, Seq<Seq<u8>>),
    ReportStatus(i32),
    Iterate,
    SaveCache(VpnResult),
    Return(Result<VpnResult, VpnError>),
}

impl View for RunWork {
    type V = RunView;

    open spec fn view(&self) -> RunView {
        match self {
            RunWork::OpenCache => RunView::OpenCache,
            RunWork::Configure => RunView::Configure,
            RunWork::StartBackend(doh3, fd, servers) => RunView::StartBackend(
                *doh3,
                *fd,
                validation::server_views(servers@),
            ),
            RunWork::PreparePolling(fd, addresses) => RunView::PreparePolling(
                *fd,
                byte_views(addresses@),
            ),
            RunWork::ReportStatus(code) => RunView::ReportStatus(*code),
            RunWork::Iterate => RunView::Iterate,
            RunWork::SaveCache(result) => RunView::SaveCache(*result),
            RunWork::Return(result) => RunView::Return(*result),
        }
    }
}

/// Whether `outcome` is an outcome of `work`.
pub open spec fn accepts(work: RunView, outcome: RunOutcome) -> bool {
    match work {
        RunView::OpenCache => outcome is CacheOpened,
        RunView::Configure => outcome is Configured,
        RunView::StartBackend(doh3, _, _) => match outcome {
            RunOutcome::BackendStarted(started) => doh3 || started is Ok,
            _ => false,
        },
        RunView::PreparePolling(_, _) => outcome is Done || outcome is Failed,
        RunView::ReportStatus(_) => outcome is Done,
        RunView::Iterate => outcome is Iterated,
        RunView::SaveCache(_) => outcome is Done,
        RunView::Return(_) => false,
    }
}

/// What follows the configuration.
pub open spec fn after_configuration(configured: VpnConfigurationResult) -> RunView {
    match configured {
        VpnConfigurationResult::NoNetwork => RunView::Return(Err(VpnError::NoNetwork)),
        VpnConfigurationResult::BuilderFailure => RunView::Return(
            Err(VpnError::ConfigurationFailure),
        ),
        VpnConfigurationResult::InvalidDnsServers => RunView::Return(
            Err(VpnError::InvalidDnsServers),
        ),
        VpnConfigurationResult::Interrupted(result) => RunView::Return(Ok(result)),
        VpnConfigurationResult::Success(fd, servers) => RunView::StartBackend(
            wants_doh3(validation::server_views(servers@)),
            fd,
            validation::server_views(servers@),
        ),
    }
}

/// What follows an iteration of the main loop: the next one, or the end. A cache with a file is
/// saved where the loop was told to stop, and not where it failed.
pub open spec fn after_iteration(cache_file: bool, iterated: Result<VpnResult, VpnError>) -> RunView {
    match iterated {
        Ok(VpnResult::Continuing) => RunView::Iterate,
        Ok(result) => if cache_file {
            RunView::SaveCache(result)
        } else {
            RunView::Return(Ok(result))
        },
        Err(error) => RunView::Return(Err(error)),
    }
}

/// Whether there is a file for the DNS cache, and the next piece of work, after `work` had the
/// outcome `outcome`.
pub open spec fn next(cache_file: bool, work: RunView, outcome: RunOutcome) -> (bool, RunView) {
    match (work, outcome) {
        (RunView::OpenCache, RunOutcome::CacheOpened(opened)) => (opened, RunView::Configure),
        (RunView::Configure, RunOutcome::Configured(configured)) => (
            cache_file,
            after_configuration(configured),
        ),
        (RunView::StartBackend(_, fd, servers), RunOutcome::BackendStarted(Ok(_))) => (
            cache_file,
            RunView::PreparePolling(fd, proxy_addresses(servers)),
        ),
        (RunView::StartBackend(_, _, _), RunOutcome::BackendStarted(Err(_))) => (
            cache_file,
            RunView::Return(Err(VpnError::ConfigurationFailure)),
        ),
        (RunView::PreparePolling(_, _), RunOutcome::Done) => (
            cache_file,
            RunView::ReportStatus(VpnStatus::Running.code_view()),
        ),
        (RunView::PreparePolling(_, _), RunOutcome::Failed) => (
            cache_file,
            RunView::Return(Err(VpnError::TunnelPollRegistrationFailure)),
        ),
        (RunView::ReportStatus(_), RunOutcome::Done) => (cache_file, RunView::Iterate),
        (RunView::Iterate, RunOutcome::Iterated(iterated)) => (
            cache_file,
            after_iteration(cache_file, iterated),
        ),
        (RunView::SaveCache(result), RunOutcome::Done) => (
            cache_file,
            RunView::Return(Ok(result)),
        ),
        _ => (cache_file, work),
    }
}

/// A run of the VPN that is under way.
pub struct VpnRun {
    cache_file: bool,
}

impl View for VpnRun {
    type V = bool;

    /// Whether there is a file for the DNS cache.
    closed spec fn view(&self) -> bool {
        self.cache_file
    }
}

impl VpnRun {
    /// Starts a run; names the first piece of work.
    pub fn begin() -> (started: (Self, RunWork))
        ensures
            started.0@ == false,
            started.1@ == RunView::OpenCache,
    {
        (VpnRun { cache_file: false }, RunWork::OpenCache)
    }

    /// Takes the outcome of a piece of work and names the next one.
    pub fn advance(&mut self, work: RunWork, outcome: RunOutcome) -> (following: RunWork)
        requires
            accepts(work@, outcome),
        ensures
            (final(self)@, following@) == next(old(self)@, work@, outcome),
    {
        match work {
            RunWork::OpenCache => match outcome {
                RunOutcome::CacheOpened(opened) => {
                    self.cache_file = opened;
                    RunWork::Configure
                },
                _ => RunWork::OpenCache,
            },
            RunWork::Configure => match outcome {
                RunOutcome::Configured(configured) => Self::configured(configured),
                _ => RunWork::Configure,
            },
            RunWork::StartBackend(_, fd, servers) => match outcome {
                RunOutcome::BackendStarted(Err(DoH3BackendError::ConfigurationFailure)) => {
                    RunWork::Return(Err(VpnError::ConfigurationFailure))
                },
                _ => RunWork::PreparePolling(fd, backend_addresses(&servers)),
            },
            RunWork::PreparePolling(_, _) => match outcome {
                RunOutcome::Done => RunWork::ReportStatus(VpnStatus::Running.code()),
                _ => RunWork::Return(Err(VpnError::TunnelPollRegistrationFailure)),
            },
            RunWork::ReportStatus(_) => RunWork::Iterate,
            RunWork::Iterate => match outcome {
                RunOutcome::Iterated(Ok(VpnResult::Continuing)) => RunWork::Iterate,
                RunOutcome::Iterated(Ok(result)) => {
                    if self.cache_file {
                        RunWork::SaveCache(result)
                    } else {
                        RunWork::Return(Ok(result))
                    }
                },
                RunOutcome::Iterated(Err(error)) => RunWork::Return(Err(error)),
                _ => RunWork::Iterate,
            },
            RunWork::SaveCache(result) => RunWork::Return(Ok(result)),
            RunWork::Return(result) => RunWork::Return(result),
        }
    }

    fn configured(configured: VpnConfigurationResult) -> (following: RunWork)
        ensures
            following@ == after_configuration(configured),
    {
        match configured {
            VpnConfigurationResult::NoNetwork => RunWork::Return(Err(VpnError::NoNetwork)),
            VpnConfigurationResult::BuilderFailure => RunWork::Return(
                Err(VpnError::ConfigurationFailure),
            ),
            VpnConfigurationResult::InvalidDnsServers => RunWork::Return(
                Err(VpnError::InvalidDnsServers),
            ),
            VpnConfigurationResult::Interrupted(result) => RunWork::Return(Ok(result)),
            VpnConfigurationResult::Success(fd, servers) => {
                let doh3 = uses_doh3(&servers);
                RunWork::StartBackend(doh3, fd, servers)
            },
        }
    }
}

/// Every address under which requests are handed to the DoH3 backend is the DoH3 address of one of
/// the servers.
proof fn lemma_doh3_addresses(servers: Seq<ServerView>, index: int)
    requires
        0 <= index < doh3_addresses(servers).len(),
    ensures
        exists|i: int|
            0 <= i < servers.len() && (#[trigger] servers[i]).kind.doh3_address() is Some
                && doh3_addresses(servers)[index] == vstd::utf8::encode_utf8(
                servers[i].kind.doh3_address()->0,
            ),
    decreases servers.len(),
{
    if servers.len() > 0 {
        let front = servers.drop_last();
        let last = servers.len() - 1;
        if index < doh3_addresses(front).len() {
            lemma_doh3_addresses(front, index);
            let i = choose|i: int|
                0 <= i < front.len() && (#[trigger] front[i]).kind.doh3_address() is Some
                    && doh3_addresses(front)[index] == vstd::utf8::encode_utf8(
                    front[i].kind.doh3_address()->0,
                );
            assert(servers[i] == front[i]);
        } else {
            assert(servers[last] == servers.last());
        }
    }
}

/// Requests find their way: where all DoH3 servers have an IP address and could be configured, every
/// address that the proxy is given while the DoH3 backend runs leads to a connection.
pub proof fn law_proxy_addresses_are_reached(
    servers: Seq<ServerView>,
    configured: Seq<bool>,
    index: int,
)
    requires
        wants_doh3(servers),
        forall|i: int|
            0 <= i < servers.len() && (#[trigger] servers[i]).kind is DoH3 ==> doh3::usable(
                servers,
                configured,
                i,
            ),
        0 <= index < proxy_addresses(servers).len(),
    ensures
        doh3::is_reached(doh3::chosen(servers, configured), proxy_addresses(servers)[index]),
{
    lemma_doh3_addresses(servers, index);
    let i = choose|i: int|
        0 <= i < servers.len() && (#[trigger] servers[i]).kind.doh3_address() is Some
            && doh3_addresses(servers)[index] == vstd::utf8::encode_utf8(
            servers[i].kind.doh3_address()->0,
        );
    doh3::law_usable_server_is_reached(servers, configured, i);
}

/// A reason to stop ends the run with that reason, after the DNS cache was saved if it has a file.
pub proof fn law_stop_ends_run(cache_file: bool, result: VpnResult)
    requires
        result != VpnResult::Continuing,
    ensures
        ({
            let stopped = RunOutcome::Iterated(Ok(result));
            let (_, following) = next(cache_file, RunView::Iterate, stopped);
            if cache_file {
                &&& following == RunView::SaveCache(result)
                &&& next(cache_file, following, RunOutcome::Done).1 == RunView::Return(Ok(result))
            } else {
                following == RunView::Return(Ok(result))
            }
        }),
{
}

/// An error of the main loop ends the run with that error, and the DNS cache is not saved.
pub proof fn law_error_ends_run(cache_file: bool, error: VpnError)
    ensures
        next(cache_file, RunView::Iterate, RunOutcome::Iterated(Err(error))) == (
            cache_file,
            RunView::Return(Err(error)),
        ),
{
}

/// A run never ends without a reason: its result is that it goes on only if that is what the
/// configuration was interrupted with.
pub proof fn law_run_ends_with_reason(cache_file: bool, work: RunView, outcome: RunOutcome)
    requires
        accepts(work, outcome),
        outcome != RunOutcome::Configured(
            VpnConfigurationResult::Interrupted(VpnResult::Continuing),
        ),
        work != RunView::SaveCache(VpnResult::Continuing),
    ensures
        next(cache_file, work, outcome).1 != RunView::Return(Ok(VpnResult::Continuing)),
        next(cache_file, work, outcome).1 != RunView::SaveCache(VpnResult::Continuing),
{
}

/// The status is reported as running only once everything is set up, and the main loop follows.
pub proof fn law_running_is_reported(cache_file: bool, work: RunView, outcome: RunOutcome)
    requires
        accepts(work, outcome),
    ensures
        next(cache_file, work, outcome).1 matches RunView::ReportStatus(code) ==> {
            &&& work is PreparePolling
            &&& outcome is Done
            &&& code == 5
            &&& next(cache_file, RunView::ReportStatus(code), RunOutcome::Done).1
                == RunView::Iterate
        },
        next(cache_file, work, outcome).1 is Iterate ==> work is ReportStatus || work is Iterate,
{
}

/// Whether there is a file for the DNS cache, and the piece of work that a run asks for, after its
/// pieces of work had these outcomes.
pub open spec fn reached(outcomes: Seq<RunOutcome>) -> (bool, RunView)
    decreases outcomes.len(),
{
    if outcomes.len() == 0 {
        (false, RunView::OpenCache)
    } else {
        let (cache_file, work) = reached(outcomes.drop_last());
        next(cache_file, work, outcomes.last())
    }
}

/// Whether these are the outcomes of a run, or of the first part of one.
pub open spec fn is_run(outcomes: Seq<RunOutcome>) -> bool
    decreases outcomes.len(),
{
    outcomes.len() == 0 || {
        &&& is_run(outcomes.drop_last())
        &&& accepts(reached(outcomes.drop_last()).1, outcomes.last())
    }
}

/// The result of a run that is over. It is in the last outcome, except that a run whose DNS cache was
/// saved ends with what the main loop ended with before that.
pub open spec fn run_result(outcomes: Seq<RunOutcome>) -> Result<VpnResult, VpnError> {
    match outcomes.last() {
        RunOutcome::Configured(VpnConfigurationResult::NoNetwork) => Err(VpnError::NoNetwork),
        RunOutcome::Configured(VpnConfigurationResult::InvalidDnsServers) => Err(
            VpnError::InvalidDnsServers,
        ),
        RunOutcome::Configured(VpnConfigurationResult::Interrupted(result)) => Ok(result),
        RunOutcome::Failed => Err(VpnError::TunnelPollRegistrationFailure),
        RunOutcome::Iterated(result) => result,
        RunOutcome::Done => outcomes[outcomes.len() - 2]->Iterated_0,
        _ => Err(VpnError::ConfigurationFailure),
    }
}

/// The numbers of the statuses that were reported, in their order.
pub open spec fn statuses(outcomes: Seq<RunOutcome>) -> Seq<i32>
    decreases outcomes.len(),
{
    if outcomes.len() == 0 {
        Seq::empty()
    } else {
        let earlier = statuses(outcomes.drop_last());
        match reached(outcomes).1 {
            RunView::ReportStatus(code) => earlier.push(code),
            _ => earlier,
        }
    }
}

/// What holds wherever a run is.
spec fn on_course(outcomes: Seq<RunOutcome>) -> bool {
    let (cache_file, work) = reached(outcomes);
    &&& outcomes.len() > 0 ==> !(work is OpenCache) && outcomes[0] == RunOutcome::CacheOpened(
        cache_file,
    )
    &&& match work {
        RunView::OpenCache => outcomes.len() == 0 && statuses(outcomes) == Seq::<i32>::empty(),
        RunView::Configure
        | RunView::StartBackend(_, _, _)
        | RunView::PreparePolling(_, _) => statuses(outcomes) == Seq::<i32>::empty(),
        RunView::ReportStatus(_) | RunView::Iterate => statuses(outcomes) == seq![5i32],
        RunView::SaveCache(result) => {
            &&& statuses(outcomes) == seq![5i32]
            &&& cache_file
            &&& outcomes.last() == RunOutcome::Iterated(Ok(result))
        },
        RunView::Return(result) => {
            &&& statuses(outcomes).len() <= 1
            &&& result == run_result(outcomes)
            &&& outcomes.last() is Done ==> cache_file && outcomes.len() > 1 && outcomes[outcomes.len()
                - 2] is Iterated
            &&& outcomes.last() matches RunOutcome::Iterated(Ok(_)) ==> !cache_file
        },
    }
}

proof fn lemma_on_course(outcomes: Seq<RunOutcome>)
    requires
        is_run(outcomes),
    ensures
        on_course(outcomes),
    decreases outcomes.len(),
{
    if outcomes.len() > 0 {
        let before = outcomes.drop_last();
        lemma_on_course(before);
        assert(before.len() > 0 ==> outcomes[0] == before[0]);
        assert(before.len() > 0 ==> before.last() == outcomes[outcomes.len() - 2]);
        if reached(outcomes).1 is ReportStatus {
            assert(statuses(outcomes) =~= seq![5i32]);
        }
    }
}

/// What every run comes to. Its result is that of the configuration where there is no tunnel, the
/// failure to start the backend or to prepare polling, or what the main loop ended with. The DNS cache
/// is saved exactly if it has a file and the main loop was told to stop.
pub proof fn law_result_of_every_run(
    outcomes: Seq<RunOutcome>,
    result: Result<VpnResult, VpnError>,
)
    requires
        is_run(outcomes),
        reached(outcomes).1 == RunView::Return(result),
    ensures
        outcomes.len() > 0,
        result == run_result(outcomes),
        outcomes.last() is Done ==> {
            &&& outcomes[0] == RunOutcome::CacheOpened(true)
            &&& reached(outcomes.drop_last()).1 == RunView::SaveCache(result->Ok_0)
        },
        outcomes.last() matches RunOutcome::Iterated(Ok(_)) ==> outcomes[0]
            == RunOutcome::CacheOpened(false),
{
    lemma_on_course(outcomes);
    lemma_on_course(outcomes.drop_last());
    assert(outcomes.last() is Done ==> reached(outcomes.drop_last()).1 is SaveCache);
}

/// In every run the status is reported as running once before the main loop starts, and never again.
pub proof fn law_running_is_reported_once(outcomes: Seq<RunOutcome>)
    requires
        is_run(outcomes),
    ensures
        statuses(outcomes) == Seq::<i32>::empty() || statuses(outcomes) == seq![5i32],
        reached(outcomes).1 is Iterate ==> statuses(outcomes) == seq![5i32],
    decreases outcomes.len(),
{
    lemma_on_course(outcomes);
    if outcomes.len() > 0 {
        law_running_is_reported_once(outcomes.drop_last());
    }
}

/// The bytes of strings are those of each string, in their order.
pub proof fn law_byte_views(strings: Seq<Vec<u8>>, index: int)
    requires
        0 <= index < strings.len(),
    ensures
        byte_views(strings).len() == strings.len(),
        byte_views(strings)[index] == strings[index]@,
{
}

} // verus!
