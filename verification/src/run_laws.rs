//! What the pieces of work of a run of the VPN are for, and which servers the proxy is pointed at.

use crate::backend::doh3::DoH3BackendError;
use crate::run;
use crate::run::{RunOutcome, RunView, VpnConfigurationResult};
use crate::status::{VpnError, VpnResult};
use crate::validation::{NativeDnsServer, ServerKind, ServerView};
use std::sync::Arc;
use vstd::prelude::*;

verus! {

/// Every outcome that the outside can report is one that the run takes, whatever it carries.
pub proof fn law_run_takes_every_outcome(
    flag: bool,
    configured: VpnConfigurationResult,
    fd: i32,
    servers: Seq<ServerView>,
    addresses: Seq<Seq<u8>>,
    code: i32,
    iterated: Result<VpnResult, VpnError>,
    result: VpnResult,
    started: Result<(), DoH3BackendError>,
)
    ensures
        run::accepts(RunView::OpenCache, RunOutcome::CacheOpened(flag)),
        run::accepts(RunView::Configure, RunOutcome::Configured(configured)),
        run::accepts(RunView::StartBackend(true, fd, servers), RunOutcome::BackendStarted(started)),
        run::accepts(
            RunView::StartBackend(false, fd, servers),
            RunOutcome::BackendStarted(Ok(())),
        ),
        run::accepts(RunView::PreparePolling(fd, addresses), RunOutcome::Done),
        run::accepts(RunView::PreparePolling(fd, addresses), RunOutcome::Failed),
        run::accepts(RunView::ReportStatus(code), RunOutcome::Done),
        run::accepts(RunView::Iterate, RunOutcome::Iterated(iterated)),
        run::accepts(RunView::SaveCache(result), RunOutcome::Done),
{
}

/// The VPN is configured first of all, whether or not the DNS cache has a file, and whether it has one
/// is remembered to the end.
pub proof fn law_cache_file_is_remembered(
    cache_file: bool,
    opened: bool,
    work: RunView,
    outcome: RunOutcome,
)
    requires
        run::accepts(work, outcome),
    ensures
        run::next(cache_file, RunView::OpenCache, RunOutcome::CacheOpened(opened)) == (
            opened,
            RunView::Configure,
        ),
        !(work is OpenCache) ==> run::next(cache_file, work, outcome).0 == cache_file,
{
}

/// A configuration without a tunnel ends the run, each kind with its own result; one with a tunnel
/// leads to the backend for exactly the servers and the tunnel that it gave, and the DoH3 backend is
/// taken exactly if one of the servers is a DoH3 server.
pub proof fn law_configuration_decides(
    cache_file: bool,
    result: VpnResult,
    fd: i32,
    servers: Vec<Arc<NativeDnsServer>>,
)
    ensures
        run::next(
            cache_file,
            RunView::Configure,
            RunOutcome::Configured(VpnConfigurationResult::NoNetwork),
        ).1 == RunView::Return(Err(VpnError::NoNetwork)),
        run::next(
            cache_file,
            RunView::Configure,
            RunOutcome::Configured(VpnConfigurationResult::BuilderFailure),
        ).1 == RunView::Return(Err(VpnError::ConfigurationFailure)),
        run::next(
            cache_file,
            RunView::Configure,
            RunOutcome::Configured(VpnConfigurationResult::InvalidDnsServers),
        ).1 == RunView::Return(Err(VpnError::InvalidDnsServers)),
        run::next(
            cache_file,
            RunView::Configure,
            RunOutcome::Configured(VpnConfigurationResult::Interrupted(result)),
        ).1 == RunView::Return(Ok(result)),
        ({
            let following = run::next(
                cache_file,
                RunView::Configure,
                RunOutcome::Configured(VpnConfigurationResult::Success(fd, servers)),
            ).1;
            match following {
                RunView::StartBackend(doh3, tunnel, views) => {
                    &&& tunnel == fd
                    &&& views.len() == servers@.len()
                    &&& forall|i: int|
                        0 <= i < servers@.len() ==> #[trigger] views[i] == servers@[i]@
                    &&& doh3 <==> exists|i: int|
                        0 <= i < servers@.len() && (#[trigger] servers@[i])@.kind is DoH3
                },
                _ => false,
            }
        }),
{
    let views = crate::validation::server_views(servers@);
    assert forall|i: int| 0 <= i < servers@.len() implies #[trigger] views[i] == servers@[i]@ by {}
    if exists|i: int| 0 <= i < servers@.len() && (#[trigger] servers@[i])@.kind is DoH3 {
        let i = choose|i: int| 0 <= i < servers@.len() && (#[trigger] servers@[i])@.kind is DoH3;
        assert(views[i].kind is DoH3);
    }
}

/// A backend that cannot be started ends the run. One that was started leads to the poller and the
/// proxy, for the tunnel that the configuration gave; where these fail the run ends. Then the status
/// is reported, and the main loop starts.
pub proof fn law_setup_leads_to_the_main_loop(
    cache_file: bool,
    doh3: bool,
    fd: i32,
    servers: Seq<ServerView>,
    addresses: Seq<Seq<u8>>,
    error: DoH3BackendError,
    code: i32,
)
    ensures
        run::next(
            cache_file,
            RunView::StartBackend(doh3, fd, servers),
            RunOutcome::BackendStarted(Err(error)),
        ).1 == RunView::Return(Err(VpnError::ConfigurationFailure)),
        ({
            let following = run::next(
                cache_file,
                RunView::StartBackend(doh3, fd, servers),
                RunOutcome::BackendStarted(Ok(())),
            ).1;
            following is PreparePolling && following->PreparePolling_0 == fd
        }),
        run::next(
            cache_file,
            RunView::PreparePolling(fd, addresses),
            RunOutcome::Failed,
        ).1 == RunView::Return(Err(VpnError::TunnelPollRegistrationFailure)),
        run::next(
            cache_file,
            RunView::PreparePolling(fd, addresses),
            RunOutcome::Done,
        ).1 == RunView::ReportStatus(5),
        run::next(cache_file, RunView::ReportStatus(code), RunOutcome::Done).1 == RunView::Iterate,
{
}

/// The main loop goes on until it is told to stop or fails. Told to stop, the run ends with that
/// result, after the DNS cache was saved if it has a file; a failure ends it at once.
pub proof fn law_main_loop_goes_on_until_told(
    cache_file: bool,
    result: VpnResult,
    error: VpnError,
)
    ensures
        run::next(
            cache_file,
            RunView::Iterate,
            RunOutcome::Iterated(Ok(VpnResult::Continuing)),
        ).1 == RunView::Iterate,
        result != VpnResult::Continuing ==> run::next(
            true,
            RunView::Iterate,
            RunOutcome::Iterated(Ok(result)),
        ).1 == RunView::SaveCache(result),
        result != VpnResult::Continuing ==> run::next(
            false,
            RunView::Iterate,
            RunOutcome::Iterated(Ok(result)),
        ).1 == RunView::Return(Ok(result)),
        run::next(cache_file, RunView::Iterate, RunOutcome::Iterated(Err(error))).1
            == RunView::Return(Err(error)),
        run::next(cache_file, RunView::SaveCache(result), RunOutcome::Done).1 == RunView::Return(
            Ok(result),
        ),
{
}

/// Without a DoH3 server the proxy is pointed at the address of every server, octet by octet, in the
/// order of the servers.
pub proof fn law_proxy_gets_the_addresses(
    cache_file: bool,
    doh3: bool,
    fd: i32,
    servers: Seq<ServerView>,
)
    requires
        forall|i: int| 0 <= i < servers.len() ==> (#[trigger] servers[i]).kind is Standard,
    ensures
        ({
            let following = run::next(
                cache_file,
                RunView::StartBackend(doh3, fd, servers),
                RunOutcome::BackendStarted(Ok(())),
            ).1;
            let addresses = following->PreparePolling_1;
            &&& addresses.len() == servers.len()
            &&& forall|i: int|
                0 <= i < servers.len() ==> #[trigger] addresses[i] == servers[i].address
        }),
{
    assert(!run::wants_doh3(servers));
}

/// With a DoH3 server the proxy is pointed at the DoH3 servers alone, in their order: a standard
/// server, wherever it stands, adds nothing, and a DoH3 server adds the bytes of its name followed by
/// its path, if it has one.
pub proof fn law_proxy_gets_the_doh3_addresses(
    cache_file: bool,
    fd: i32,
    front: Seq<ServerView>,
    server: ServerView,
    name: Seq<char>,
    path: Seq<char>,
)
    ensures
        run::doh3_addresses(Seq::empty()) == Seq::<Seq<u8>>::empty(),
        server.kind is Standard ==> run::doh3_addresses(front.push(server)) == run::doh3_addresses(
            front,
        ),
        server.kind == ServerKind::DoH3(name, None) ==> run::doh3_addresses(front.push(server))
            == run::doh3_addresses(front) + seq![vstd::utf8::encode_utf8(name)],
        server.kind == ServerKind::DoH3(name, Some(path)) ==> run::doh3_addresses(
            front.push(server),
        ) == run::doh3_addresses(front) + seq![vstd::utf8::encode_utf8(name + path)],
        (exists|i: int| 0 <= i < front.len() && (#[trigger] front[i]).kind is DoH3) ==> run::next(
            cache_file,
            RunView::StartBackend(true, fd, front),
            RunOutcome::BackendStarted(Ok(())),
        ).1 == RunView::PreparePolling(fd, run::doh3_addresses(front)),
{
    assert(front.push(server).drop_last() =~= front);
    assert(front.push(server).last() == server);
    assert(name + Seq::<char>::empty() =~= name);
    if server.kind is DoH3 {
        let added = vstd::utf8::encode_utf8(server.kind.doh3_address()->0);
        assert(run::doh3_addresses(front).push(added) =~= run::doh3_addresses(front)
            + seq![added]);
    }
}

} // verus!
