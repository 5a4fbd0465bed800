//! What the pieces of work of a validation are for: what becomes of each server that the user entered,
//! and how long answers are waited for.

use crate::address::IpRecord;
use crate::resolver;
use crate::resolver::RequesterView;
use crate::status::VpnResult;
use crate::text;
use crate::validation::{ResultView, ServerKind, ServerView, ValidateDnsError};
use crate::validator;
use crate::validator::{PlanView, ValidationOutcome, ValidationView, WorkView};
use vstd::prelude::*;

verus! {

/// Every outcome that the outside can report is one that the validation takes, whatever it carries.
pub proof fn law_validation_takes_every_outcome(
    state: ValidationView,
    index: int,
    address: Option<IpRecord>,
    name: Seq<char>,
    path: Option<Seq<char>>,
    events: Vec<bool>,
    seen: Seq<bool>,
    bytes: Vec<u8>,
    stop: Option<VpnResult>,
    answers: Seq<(Seq<char>, Seq<u8>)>,
)
    ensures
        validator::accepts(state, WorkView::CreatePipe, ValidationOutcome::Done),
        validator::accepts(state, WorkView::CreatePipe, ValidationOutcome::Failed),
        0 <= index < state.user_servers.len() ==> {
            &&& validator::accepts(
                state,
                WorkView::ParseAddress(index),
                ValidationOutcome::Address(address),
            )
            &&& validator::accepts(
                state,
                WorkView::LookUpCache(index, name, path),
                ValidationOutcome::Cached(address),
            )
            &&& validator::accepts(state, WorkView::StartRequester(index), ValidationOutcome::Done)
        },
        validator::accepts(state, WorkView::PreparePolling, ValidationOutcome::Done),
        validator::accepts(state, WorkView::PreparePolling, ValidationOutcome::Failed),
        validator::accepts(state, WorkView::Poll, ValidationOutcome::Events(events)),
        validator::accepts(state, WorkView::Poll, ValidationOutcome::Failed),
        0 <= index < seen.len() ==> {
            &&& validator::accepts(
                state,
                WorkView::ReadPipe(seen, index),
                ValidationOutcome::NothingToRead,
            )
            &&& state.responses < usize::MAX ==> validator::accepts(
                state,
                WorkView::ReadPipe(seen, index),
                ValidationOutcome::Bytes(bytes),
            )
        },
        validator::accepts(state, WorkView::TakeStop, ValidationOutcome::Stop(stop)),
        validator::accepts(state, WorkView::StoreAnswers(answers), ValidationOutcome::Done),
{
}

/// Whether `after` and `following` are what comes once all servers in front of `index` are dealt with:
/// the server at `index` is looked at, or, behind the last one, resolvers are waited for if there are
/// any; without resolvers the valid servers are handed out, and having none is a failure.
pub open spec fn deals_with(
    state: ValidationView,
    index: int,
    after: ValidationView,
    following: WorkView,
) -> bool {
    if index < state.user_servers.len() {
        after == state && following == WorkView::ParseAddress(index)
    } else if state.requesters.len() > 0 {
        after == state && following == WorkView::PreparePolling
    } else if state.validated.len() > 0 {
        following == WorkView::Return(Ok(ResultView::Success(state.validated)))
    } else {
        following == WorkView::Return(Err(ValidateDnsError::ParseFailure))
    }
}

/// `state` with one more valid server behind the others.
pub open spec fn with_valid(state: ValidationView, address: Seq<u8>, kind: ServerKind) -> ValidationView {
    ValidationView {
        validated: state.validated + seq![ServerView { address, kind }],
        ..state
    }
}

/// The servers are looked at from the first one on, once the pipe stands; without a pipe nothing can be
/// resolved.
pub proof fn law_validation_begins(state: ValidationView)
    ensures
        ({
            let (after, following) = validator::next(
                state,
                WorkView::CreatePipe,
                ValidationOutcome::Done,
            );
            deals_with(state, 0, after, following)
        }),
        validator::next(state, WorkView::CreatePipe, ValidationOutcome::Failed).1
            == WorkView::Return(Err(ValidateDnsError::ResolveFailure)),
{
}

/// An IPv4 address is valid as a standard server with its octets, and so is an IPv6 address where IPv6
/// is supported; where it is not, an IPv6 address is left out. Either way the next server comes up.
pub proof fn law_addresses_are_valid(
    state: ValidationView,
    index: int,
    four: [u8; 4],
    sixteen: [u8; 16],
)
    requires
        0 <= index < state.user_servers.len(),
    ensures
        ({
            let (after, following) = validator::next(
                state,
                WorkView::ParseAddress(index),
                ValidationOutcome::Address(Some(IpRecord::V4(four))),
            );
            deals_with(
                with_valid(state, four@, ServerKind::Standard),
                index + 1,
                after,
                following,
            )
        }),
        ({
            let (after, following) = validator::next(
                state,
                WorkView::ParseAddress(index),
                ValidationOutcome::Address(Some(IpRecord::V6(sixteen))),
            );
            if state.ipv6_support {
                deals_with(
                    with_valid(state, sixteen@, ServerKind::Standard),
                    index + 1,
                    after,
                    following,
                )
            } else {
                deals_with(state, index + 1, after, following)
            }
        }),
{
    let v4 = ServerView { address: four@, kind: ServerKind::Standard };
    let v6 = ServerView { address: sixteen@, kind: ServerKind::Standard };
    assert(state.validated.push(v4) =~= state.validated + seq![v4]);
    assert(state.validated.push(v6) =~= state.validated + seq![v6]);
}

/// A server that is no address is a name, maybe with `https://` in front and maybe with a path behind
/// it: the DNS cache is asked for exactly the name, and the path is kept as it stands. A server without
/// a name is left out.
pub proof fn law_names_are_looked_up(
    state: ValidationView,
    index: int,
    name: Seq<char>,
    path: Option<Seq<char>>,
)
    requires
        0 <= index < state.user_servers.len(),
        !name.contains('/'),
        path matches Some(path) ==> path.len() > 0 && path[0] == '/',
        ({
            let address = match path {
                Some(path) => name + path,
                None => name,
            };
            let https = seq!['h', 't', 't', 'p', 's', ':', '/', '/'];
            ||| state.user_servers[index] == https + address
            ||| state.user_servers[index] == address && !https.is_prefix_of(address)
        }),
    ensures
        ({
            let (after, following) = validator::next(
                state,
                WorkView::ParseAddress(index),
                ValidationOutcome::Address(None),
            );
            if name.len() > 0 {
                after == state && following == WorkView::LookUpCache(index, name, path)
            } else {
                deals_with(state, index + 1, after, following)
            }
        }),
{
    let address = match path {
        Some(path) => name + path,
        None => name,
    };
    let https = seq!['h', 't', 't', 'p', 's', ':', '/', '/'];
    reveal_strlit("https://");
    assert("https://"@ =~= https);
    let server = state.user_servers[index];
    text::law_prefix_is_removed(https, address, server);
    if server == address && !https.is_prefix_of(address) && server != https + address {
        if server.len() >= https.len() && server.take(https.len() as int) == https {
            assert(https.is_prefix_of(server));
        }
    }
    assert(text::without_prefix(server, "https://"@) == address);
    match path {
        Some(path) => {
            text::law_cut_is_at_the_first(name, path.drop_first(), '/');
            assert(seq!['/'] + path.drop_first() =~= path);
            assert(name + seq!['/'] + path.drop_first() =~= address);
        },
        None => {
            text::law_cut_is_at_the_first(name, Seq::empty(), '/');
        },
    }
}

/// A name that the DNS cache holds is valid as a DoH3 server with the name, the path and the octets of
/// the cached address. Any other name gets a requester behind the others, unanswered, with the name,
/// the path and the position of the server as its number, and the requester is started before the next
/// server comes up.
pub proof fn law_cache_decides(
    state: ValidationView,
    index: int,
    name: Seq<char>,
    path: Option<Seq<char>>,
    ip: IpRecord,
)
    requires
        0 <= index < state.user_servers.len(),
    ensures
        ({
            let (after, following) = validator::next(
                state,
                WorkView::LookUpCache(index, name, path),
                ValidationOutcome::Cached(Some(ip)),
            );
            let octets = match ip {
                IpRecord::V4(octets) => octets@,
                IpRecord::V6(octets) => octets@,
            };
            deals_with(
                with_valid(state, octets, ServerKind::DoH3(name, path)),
                index + 1,
                after,
                following,
            )
        }),
        ({
            let (after, following) = validator::next(
                state,
                WorkView::LookUpCache(index, name, path),
                ValidationOutcome::Cached(None),
            );
            let requester = after.requesters.last();
            &&& after.requesters == state.requesters + seq![requester]
            &&& requester.server_name == name
            &&& requester.server_path == path
            &&& requester.resolved_address is None
            &&& requester.result_id as int == index % 256
            &&& after.user_servers == state.user_servers
            &&& after.ipv6_support == state.ipv6_support
            &&& after.validated == state.validated
            &&& after.responses == state.responses
            &&& following == WorkView::StartRequester(index)
        }),
        ({
            let (after, following) = validator::next(
                state,
                WorkView::StartRequester(index),
                ValidationOutcome::Done,
            );
            deals_with(state, index + 1, after, following)
        }),
{
    let server = ServerView { address: ip.octets_view(), kind: ServerKind::DoH3(name, path) };
    assert(state.validated.push(server) =~= state.validated + seq![server]);
    let after = validator::next(
        state,
        WorkView::LookUpCache(index, name, path),
        ValidationOutcome::Cached(None),
    ).0;
    assert(after.requesters =~= state.requesters + seq![after.requesters.last()]);
}

/// Whether answers are still waited for: a requester is unanswered, and there were fewer or more reads
/// than there are requesters.
pub open spec fn still_waits(state: ValidationView) -> bool {
    &&& exists|i: int|
        0 <= i < state.requesters.len() && (#[trigger] state.requesters[i]).resolved_address is None
    &&& state.responses != state.requesters.len()
}

/// Whether the wait is over: the DNS cache is told the name and the address of every answered
/// requester, and a DoH3 server for each of them stands behind the servers that were valid before, in
/// the order of the requesters.
pub open spec fn gathers(
    state: ValidationView,
    after: ValidationView,
    following: WorkView,
) -> bool {
    let done = state.requesters.filter(|r: RequesterView| r.resolved_address is Some);
    &&& following is StoreAnswers
    &&& following->StoreAnswers_0.len() == done.len()
    &&& after.validated.len() == state.validated.len() + done.len()
    &&& forall|k: int|
        0 <= k < state.validated.len() ==> #[trigger] after.validated[k] == state.validated[k]
    &&& forall|k: int|
        #![trigger done[k]]
        0 <= k < done.len() ==> {
            &&& following->StoreAnswers_0[k].0 == done[k].server_name
            &&& following->StoreAnswers_0[k].1 == done[k].resolved_address->0
            &&& after.validated[state.validated.len() + k].address == done[k].resolved_address->0
            &&& after.validated[state.validated.len() + k].kind == ServerKind::DoH3(
                done[k].server_name,
                done[k].server_path,
            )
        }
}

/// The answered requesters are picked in their order.
proof fn lemma_answered_is_filter(requesters: Seq<RequesterView>)
    ensures
        validator::answered(requesters) == requesters.filter(
            |r: RequesterView| r.resolved_address is Some,
        ),
    decreases requesters.len(),
{
    reveal(Seq::filter);
    if requesters.len() > 0 {
        lemma_answered_is_filter(requesters.drop_last());
    }
}

proof fn lemma_collect_gathers(state: ValidationView)
    ensures
        gathers(state, validator::collect(state).0, validator::collect(state).1),
{
    lemma_answered_is_filter(state.requesters);
    let (after, following) = validator::collect(state);
    let done = state.requesters.filter(|r: RequesterView| r.resolved_address is Some);
    let servers = validator::resolved_servers(state.requesters);
    assert forall|k: int| #![trigger done[k]] 0 <= k < done.len() implies {
        &&& following->StoreAnswers_0[k].0 == done[k].server_name
        &&& following->StoreAnswers_0[k].1 == done[k].resolved_address->0
        &&& after.validated[state.validated.len() + k].address == done[k].resolved_address->0
        &&& after.validated[state.validated.len() + k].kind == ServerKind::DoH3(
            done[k].server_name,
            done[k].server_path,
        )
    } by {
        assert(after.validated[state.validated.len() + k] == servers[k]);
    }
}

/// Answers are waited for as long as one is missing and there were not as many reads as requesters,
/// however many requesters there are: once polling is prepared, and after the last event of every poll,
/// there is another poll. Otherwise the answers are gathered.
pub proof fn law_missing_answers_are_waited_for(
    state: ValidationView,
    events: Seq<bool>,
)
    requires
        events.len() > 0,
    ensures
        ({
            let (after, following) = validator::next(
                state,
                WorkView::PreparePolling,
                ValidationOutcome::Done,
            );
            if still_waits(state) {
                after == state && following == WorkView::Poll
            } else {
                gathers(state, after, following)
            }
        }),
        ({
            let (after, following) = validator::next(
                state,
                WorkView::ReadPipe(events, events.len() - 1),
                ValidationOutcome::NothingToRead,
            );
            if still_waits(state) {
                after == state && following == WorkView::Poll
            } else {
                gathers(state, after, following)
            }
        }),
        validator::next(state, WorkView::PreparePolling, ValidationOutcome::Failed).1
            == WorkView::Return(Err(ValidateDnsError::ResolveFailure)),
        validator::next(state, WorkView::Poll, ValidationOutcome::Failed).1 == WorkView::Return(
            Err(ValidateDnsError::ResolveFailure),
        ),
{
    lemma_collect_gathers(state);
}

/// A poll without an event gathers what is there. Any other one has its events looked at one after the
/// other: one of the controller asks it for its stop result, and any other one has the pipe read.
pub proof fn law_events_of_a_poll(
    state: ValidationView,
    events: Vec<bool>,
    seen: Seq<bool>,
    index: int,
)
    ensures
        events@.len() == 0 ==> ({
            let (after, following) = validator::next(
                state,
                WorkView::Poll,
                ValidationOutcome::Events(events),
            );
            gathers(state, after, following)
        }),
        events@.len() > 0 && events@[0] ==> validator::next(
            state,
            WorkView::Poll,
            ValidationOutcome::Events(events),
        ) == (state, WorkView::TakeStop),
        events@.len() > 0 && !events@[0] ==> validator::next(
            state,
            WorkView::Poll,
            ValidationOutcome::Events(events),
        ) == (state, WorkView::ReadPipe(events@, 0)),
        0 <= index < seen.len() - 1 && seen[index + 1] ==> validator::next(
            state,
            WorkView::ReadPipe(seen, index),
            ValidationOutcome::NothingToRead,
        ) == (state, WorkView::TakeStop),
        0 <= index < seen.len() - 1 && !seen[index + 1] ==> validator::next(
            state,
            WorkView::ReadPipe(seen, index),
            ValidationOutcome::NothingToRead,
        ) == (state, WorkView::ReadPipe(seen, index + 1)),
{
    lemma_collect_gathers(state);
}

/// Every read of the pipe counts once, its answers are noted, and the pipe is read again. What was
/// valid before stays so.
pub proof fn law_reads_are_noted(
    state: ValidationView,
    events: Seq<bool>,
    index: int,
    bytes: Vec<u8>,
)
    ensures
        ({
            let (after, following) = validator::next(
                state,
                WorkView::ReadPipe(events, index),
                ValidationOutcome::Bytes(bytes),
            );
            &&& after.responses == state.responses + 1
            &&& after.requesters == resolver::with_answers(
                state.requesters,
                resolver::answers(bytes@),
            )
            &&& after.validated == state.validated
            &&& after.user_servers == state.user_servers
            &&& after.ipv6_support == state.ipv6_support
            &&& following == WorkView::ReadPipe(events, index)
        }),
{
}

/// An interrupted validation gives the controller's reason to stop, or that the VPN reconnects where
/// it has none. Once the DNS cache was told the answers, all valid servers are handed out.
pub proof fn law_validation_ends(
    state: ValidationView,
    result: VpnResult,
    answers: Seq<(Seq<char>, Seq<u8>)>,
)
    ensures
        validator::next(
            state,
            WorkView::TakeStop,
            ValidationOutcome::Stop(Some(result)),
        ).1 == WorkView::Return(Ok(ResultView::Interrupted(result))),
        validator::next(state, WorkView::TakeStop, ValidationOutcome::Stop(None)).1
            == WorkView::Return(Ok(ResultView::Interrupted(VpnResult::Reconnecting))),
        validator::next(state, WorkView::StoreAnswers(answers), ValidationOutcome::Done).1
            == WorkView::Return(Ok(ResultView::Success(state.validated))),
{
}

/// What is planned for a server: the same as the validation then does.
pub proof fn law_plans(
    server: Seq<char>,
    four: [u8; 4],
    sixteen: [u8; 16],
    ipv6_support: bool,
    name: Seq<char>,
    path: Option<Seq<char>>,
)
    requires
        validator::name_and_path(server) == (name, path),
    ensures
        validator::plan(server, Some(IpRecord::V4(four)), ipv6_support) == PlanView::Accept(
            ServerView { address: four@, kind: ServerKind::Standard },
        ),
        validator::plan(server, Some(IpRecord::V6(sixteen)), true) == PlanView::Accept(
            ServerView { address: sixteen@, kind: ServerKind::Standard },
        ),
        validator::plan(server, Some(IpRecord::V6(sixteen)), false) == PlanView::Skip,
        name.len() > 0 ==> validator::plan(server, None, ipv6_support) == PlanView::Lookup(
            name,
            path,
        ),
        name.len() == 0 ==> validator::plan(server, None, ipv6_support) == PlanView::Skip,
{
}

} // verus!
