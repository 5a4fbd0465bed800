//! What whole validations come to.
//!
//! A run of a validation is the sequence of the outcomes of its pieces of work. The outside decides
//! which of the user's servers are addresses, which names the DNS cache holds, what comes over the
//! pipe, and whether something fails or interrupts; the laws here state the result for every run.

use crate::address::IpRecord;
use crate::resolver;
use crate::resolver::RequesterView;
use crate::status::VpnResult;
use crate::validation::{ResultView, ServerKind, ServerView, ValidateDnsError};
use crate::validator;
use crate::validator::{PlanView, ValidationOutcome, ValidationView, WorkView};
use vstd::prelude::*;

verus! {

/// What the outside knows of the user's servers, by their position.
pub struct Facts {
    /// The address that the server's text is, if it is one.
    pub parsed: Seq<Option<IpRecord>>,
    /// The address that the DNS cache holds for the server's name.
    pub cached: Seq<Option<IpRecord>>,
}

/// What is decided of a server before any wait.
pub enum Decision {
    /// The server is valid.
    Accepted(ServerView),
    /// The server is left out.
    LeftOut,
    /// The server has a name and maybe a path, and a resolver looks for its address.
    Resolving(Seq<char>, Option<Seq<char>>),
}

/// What is decided of the server that the user entered as `server`.
pub open spec fn decision(
    server: Seq<char>,
    parsed: Option<IpRecord>,
    cached: Option<IpRecord>,
    ipv6_support: bool,
) -> Decision {
    match validator::plan(server, parsed, ipv6_support) {
        PlanView::Accept(server) => Decision::Accepted(server),
        PlanView::Skip => Decision::LeftOut,
        PlanView::Lookup(name, path) => match cached {
            Some(ip) => Decision::Accepted(
                ServerView { address: ip.octets_view(), kind: ServerKind::DoH3(name, path) },
            ),
            None => Decision::Resolving(name, path),
        },
    }
}

/// What is decided of each of the user's servers.
pub open spec fn decisions(
    user_servers: Seq<Seq<char>>,
    ipv6_support: bool,
    facts: Facts,
) -> Seq<Decision> {
    Seq::new(
        user_servers.len(),
        |i: int| decision(user_servers[i], facts.parsed[i], facts.cached[i], ipv6_support),
    )
}

/// The servers that are accepted, in their order.
pub open spec fn accepted(decided: Seq<Decision>) -> Seq<ServerView>
    decreases decided.len(),
{
    if decided.len() == 0 {
        Seq::empty()
    } else {
        let front = accepted(decided.drop_last());
        match decided.last() {
            Decision::Accepted(server) => front.push(server),
            _ => front,
        }
    }
}

/// The requesters for the names that are resolved, in their order. Each has the position of its
/// server as its number, as far as that fits into a byte.
pub open spec fn resolving(decided: Seq<Decision>) -> Seq<RequesterView>
    decreases decided.len(),
{
    if decided.len() == 0 {
        Seq::empty()
    } else {
        let front = resolving(decided.drop_last());
        match decided.last() {
            Decision::Resolving(name, path) => front.push(
                RequesterView {
                    server_name: name,
                    server_path: path,
                    resolved_address: None,
                    result_id: ((decided.len() - 1) % 256) as u8,
                },
            ),
            _ => front,
        }
    }
}

/// The requesters after everything that came over the pipe was read.
pub open spec fn after_reads(
    requesters: Seq<RequesterView>,
    outcomes: Seq<ValidationOutcome>,
) -> Seq<RequesterView>
    decreases outcomes.len(),
{
    if outcomes.len() == 0 {
        requesters
    } else {
        let earlier = after_reads(requesters, outcomes.drop_last());
        match outcomes.last() {
            ValidationOutcome::Bytes(bytes) => resolver::with_answers(
                earlier,
                resolver::answers(bytes@),
            ),
            _ => earlier,
        }
    }
}

/// Where a validation is after its pieces of work had these outcomes.
pub open spec fn reached(start: ValidationView, outcomes: Seq<ValidationOutcome>) -> (
    ValidationView,
    WorkView,
)
    decreases outcomes.len(),
{
    if outcomes.len() == 0 {
        (start, WorkView::CreatePipe)
    } else {
        let (state, work) = reached(start, outcomes.drop_last());
        validator::next(state, work, outcomes.last())
    }
}

/// Whether an outcome of `work` is in line with what the outside knows.
pub open spec fn agrees(work: WorkView, outcome: ValidationOutcome, facts: Facts) -> bool {
    match work {
        WorkView::ParseAddress(index) => outcome == ValidationOutcome::Address(facts.parsed[index]),
        WorkView::LookUpCache(index, _, _) => outcome == ValidationOutcome::Cached(
            facts.cached[index],
        ),
        _ => true,
    }
}

/// Whether these are the outcomes of a run, or of the first part of one.
pub open spec fn is_run(
    start: ValidationView,
    facts: Facts,
    outcomes: Seq<ValidationOutcome>,
) -> bool
    decreases outcomes.len(),
{
    outcomes.len() == 0 || {
        let (state, work) = reached(start, outcomes.drop_last());
        &&& is_run(start, facts, outcomes.drop_last())
        &&& validator::accepts(state, work, outcomes.last())
        &&& agrees(work, outcomes.last(), facts)
    }
}

/// Whether every server is left out.
pub open spec fn all_left_out(decided: Seq<Decision>) -> bool {
    forall|i: int| 0 <= i < decided.len() ==> (#[trigger] decided[i]) is LeftOut
}

/// The servers that are valid in the end: the accepted ones, followed by those whose names resolvers
/// found an address for.
pub open spec fn valid_servers(
    decided: Seq<Decision>,
    outcomes: Seq<ValidationOutcome>,
) -> Seq<ServerView> {
    accepted(decided) + validator::resolved_servers(after_reads(resolving(decided), outcomes))
}

/// The result of a run that is over.
pub open spec fn run_result(decided: Seq<Decision>, outcomes: Seq<ValidationOutcome>) -> Result<
    ResultView,
    ValidateDnsError,
> {
    match outcomes.last() {
        ValidationOutcome::Failed => Err(ValidateDnsError::ResolveFailure),
        ValidationOutcome::Stop(Some(result)) => Ok(ResultView::Interrupted(result)),
        ValidationOutcome::Stop(None) => Ok(ResultView::Interrupted(VpnResult::Reconnecting)),
        _ => if all_left_out(decided) {
            Err(ValidateDnsError::ParseFailure)
        } else {
            Ok(ResultView::Success(valid_servers(decided, outcomes)))
        },
    }
}

/// Whether the pipe stands and nothing was read from it.
spec fn before_reads(outcomes: Seq<ValidationOutcome>) -> bool {
    &&& outcomes.len() > 0
    &&& outcomes[0] is Done
    &&& forall|i: int| 0 <= i < outcomes.len() ==> !((#[trigger] outcomes[i]) is Bytes)
}

/// Whether the servers in front of `count` are dealt with as decided.
spec fn dealt_with(
    state: ValidationView,
    decided: Seq<Decision>,
    outcomes: Seq<ValidationOutcome>,
    count: int,
) -> bool {
    &&& 0 <= count <= decided.len()
    &&& before_reads(outcomes)
    &&& state.validated == accepted(decided.take(count))
    &&& state.requesters == resolving(decided.take(count))
}

/// What holds wherever a run is.
spec fn on_course(
    start: ValidationView,
    facts: Facts,
    outcomes: Seq<ValidationOutcome>,
) -> bool {
    let decided = decisions(start.user_servers, start.ipv6_support, facts);
    let (state, work) = reached(start, outcomes);
    &&& state.user_servers == start.user_servers
    &&& state.ipv6_support == start.ipv6_support
    &&& outcomes.len() > 0 ==> !(work is CreatePipe)
    &&& outcomes.len() > 1 ==> outcomes[0] is Done
    &&& match work {
        WorkView::CreatePipe => outcomes.len() == 0,
        WorkView::ParseAddress(index) => index < decided.len() && dealt_with(
            state,
            decided,
            outcomes,
            index,
        ),
        WorkView::LookUpCache(index, name, path) => {
            &&& index < decided.len()
            &&& dealt_with(state, decided, outcomes, index)
            &&& validator::plan(
                start.user_servers[index],
                facts.parsed[index],
                start.ipv6_support,
            ) == PlanView::Lookup(name, path)
        },
        WorkView::StartRequester(index) => dealt_with(state, decided, outcomes, index + 1),
        WorkView::PreparePolling
        | WorkView::Poll
        | WorkView::ReadPipe(_, _)
        | WorkView::TakeStop => {
            &&& outcomes[0] is Done
            &&& resolving(decided).len() > 0
            &&& state.validated == accepted(decided)
            &&& state.requesters == after_reads(resolving(decided), outcomes)
        },
        WorkView::StoreAnswers(answers) => {
            &&& outcomes[0] is Done
            &&& resolving(decided).len() > 0
            &&& state.validated == valid_servers(decided, outcomes)
            &&& answers == validator::cache_answers(after_reads(resolving(decided), outcomes))
        },
        WorkView::Return(result) => {
            &&& result == run_result(decided, outcomes)
            &&& outcomes[0] is Done && all_left_out(decided) ==> result == Err::<
                ResultView,
                ValidateDnsError,
            >(ValidateDnsError::ParseFailure)
            &&& result == Err::<ResultView, ValidateDnsError>(ValidateDnsError::ParseFailure)
                ==> outcomes[0] is Done
        },
    }
}

/// Nothing changes for requesters while nothing is read.
proof fn lemma_no_reads(requesters: Seq<RequesterView>, outcomes: Seq<ValidationOutcome>)
    requires
        forall|i: int| 0 <= i < outcomes.len() ==> !((#[trigger] outcomes[i]) is Bytes),
    ensures
        after_reads(requesters, outcomes) == requesters,
    decreases outcomes.len(),
{
    if outcomes.len() > 0 {
        lemma_no_reads(requesters, outcomes.drop_last());
        assert(outcomes[outcomes.len() - 1] == outcomes.last());
    }
}

/// Every server is left out exactly if none is accepted and none is resolved.
proof fn lemma_left_out(decided: Seq<Decision>)
    ensures
        all_left_out(decided) <==> accepted(decided).len() == 0 && resolving(decided).len() == 0,
    decreases decided.len(),
{
    if decided.len() > 0 {
        let front = decided.drop_last();
        lemma_left_out(front);
        assert(decided.last() == decided[decided.len() - 1]);
        if all_left_out(decided) {
            assert forall|i: int| 0 <= i < front.len() implies (#[trigger] front[i]) is LeftOut by {
                assert(decided[i] is LeftOut);
            }
        }
        if all_left_out(front) && decided.last() is LeftOut {
            assert forall|i: int| 0 <= i < decided.len() implies (
            #[trigger] decided[i]) is LeftOut by {
                if i < front.len() {
                    assert(front[i] is LeftOut);
                }
            }
        }
    }
}

/// The step from one server to the next, or to what follows the last one.
proof fn lemma_server_dealt_with(
    start: ValidationView,
    facts: Facts,
    outcomes: Seq<ValidationOutcome>,
    state: ValidationView,
    count: int,
)
    requires
        outcomes.len() > 0,
        outcomes.last() is Done || outcomes.last() is Address || outcomes.last() is Cached,
        state.user_servers == start.user_servers,
        state.ipv6_support == start.ipv6_support,
        dealt_with(
            state,
            decisions(start.user_servers, start.ipv6_support, facts),
            outcomes,
            count,
        ),
        reached(start, outcomes) == validator::next_server(state, count),
    ensures
        on_course(start, facts, outcomes),
{
    let decided = decisions(start.user_servers, start.ipv6_support, facts);
    if count == decided.len() {
        assert(decided.take(count) =~= decided);
        lemma_left_out(decided);
        lemma_no_reads(resolving(decided), outcomes);
        if resolving(decided).len() == 0 {
            let none = after_reads(resolving(decided), outcomes);
            assert(validator::resolved_servers(none) =~= Seq::empty());
            assert(valid_servers(decided, outcomes) =~= accepted(decided));
        }
    }
}

/// A run stays on course while the servers are dealt with.
proof fn lemma_on_course_with_servers(
    start: ValidationView,
    facts: Facts,
    outcomes: Seq<ValidationOutcome>,
)
    requires
        start == validator::started_with(start.ipv6_support, start.user_servers),
        outcomes.len() > 0,
        is_run(start, facts, outcomes),
        on_course(start, facts, outcomes.drop_last()),
        ({
            let work = reached(start, outcomes.drop_last()).1;
            work is ParseAddress || work is LookUpCache || work is StartRequester
        }),
    ensures
        on_course(start, facts, outcomes),
{
    let decided = decisions(start.user_servers, start.ipv6_support, facts);
    let before = outcomes.drop_last();
    let outcome = outcomes.last();
    let (state, work) = reached(start, before);
    assert(forall|i: int| 0 <= i < before.len() ==> #[trigger] outcomes[i] == before[i]);
    assert(outcomes[0] == before[0]);
    assert(outcomes[before.len() as int] == outcome);
    match work {
        WorkView::ParseAddress(index) => {
            lemma_one_more(decided, index);
            match validator::plan(
                start.user_servers[index],
                facts.parsed[index],
                start.ipv6_support,
            ) {
                PlanView::Accept(server) => {
                    let after = state.with_server(server);
                    lemma_server_dealt_with(start, facts, outcomes, after, index + 1);
                },
                PlanView::Skip => {
                    lemma_server_dealt_with(start, facts, outcomes, state, index + 1);
                },
                PlanView::Lookup(_, _) => {},
            }
        },
        WorkView::LookUpCache(index, name, path) => {
            lemma_one_more(decided, index);
            if let ValidationOutcome::Cached(Some(ip)) = outcome {
                let server = ServerView {
                    address: ip.octets_view(),
                    kind: ServerKind::DoH3(name, path),
                };
                let after = state.with_server(server);
                lemma_server_dealt_with(start, facts, outcomes, after, index + 1);
            }
        },
        WorkView::StartRequester(index) => {
            lemma_server_dealt_with(start, facts, outcomes, state, index + 1);
        },
        _ => {},
    }
}

/// A run stays on course while it waits for resolvers.
proof fn lemma_on_course_with_resolvers(
    start: ValidationView,
    facts: Facts,
    outcomes: Seq<ValidationOutcome>,
)
    requires
        outcomes.len() > 0,
        is_run(start, facts, outcomes),
        on_course(start, facts, outcomes.drop_last()),
        ({
            let work = reached(start, outcomes.drop_last()).1;
            ||| work is PreparePolling
            ||| work is Poll
            ||| work is ReadPipe
            ||| work is TakeStop
            ||| work is StoreAnswers
        }),
    ensures
        on_course(start, facts, outcomes),
{
    let decided = decisions(start.user_servers, start.ipv6_support, facts);
    let before = outcomes.drop_last();
    lemma_left_out(decided);
    assert(before.len() > 0 ==> outcomes[0] == before[0]);
    let requesters = after_reads(resolving(decided), before);
    assert(!(outcomes.last() is Bytes) ==> after_reads(resolving(decided), outcomes) == requesters);
}

/// A run stays on course.
proof fn lemma_on_course(start: ValidationView, facts: Facts, outcomes: Seq<ValidationOutcome>)
    requires
        start == validator::started_with(start.ipv6_support, start.user_servers),
        is_run(start, facts, outcomes),
    ensures
        on_course(start, facts, outcomes),
    decreases outcomes.len(),
{
    if outcomes.len() > 0 {
        let before = outcomes.drop_last();
        lemma_on_course(start, facts, before);
        let (state, work) = reached(start, before);
        if work is CreatePipe {
            let decided = decisions(start.user_servers, start.ipv6_support, facts);
            assert(outcomes[0] == outcomes.last());
            assert(decided.take(0) =~= Seq::empty());
            if outcomes.last() is Done {
                lemma_server_dealt_with(start, facts, outcomes, state, 0);
            }
        } else if work is ParseAddress || work is LookUpCache || work is StartRequester {
            lemma_on_course_with_servers(start, facts, outcomes);
        } else {
            lemma_on_course_with_resolvers(start, facts, outcomes);
        }
    }
}

/// How one more server changes what is accepted and what is resolved.
proof fn lemma_one_more(decided: Seq<Decision>, index: int)
    requires
        0 <= index < decided.len(),
    ensures
        accepted(decided.take(index + 1)) == match decided[index] {
            Decision::Accepted(server) => accepted(decided.take(index)).push(server),
            _ => accepted(decided.take(index)),
        },
        resolving(decided.take(index + 1)) == match decided[index] {
            Decision::Resolving(name, path) => resolving(decided.take(index)).push(
                RequesterView {
                    server_name: name,
                    server_path: path,
                    resolved_address: None,
                    result_id: (index % 256) as u8,
                },
            ),
            _ => resolving(decided.take(index)),
        },
{
    assert(decided.take(index + 1).drop_last() =~= decided.take(index));
    assert(decided.take(index + 1).last() == decided[index]);
}

/// What a validation returns, of every run. A failure of the pipe or of the poller fails it, and the
/// VPN controller interrupts it. Otherwise the result is the accepted addresses and cached names, in
/// the order in which the user entered them, followed by the names that resolvers found an address
/// for, in their order. It fails as nothing could be parsed exactly if the pipe stands and every
/// server is left out.
pub proof fn law_result_of_every_run(
    user_servers: Seq<Seq<char>>,
    ipv6_support: bool,
    facts: Facts,
    outcomes: Seq<ValidationOutcome>,
    result: Result<ResultView, ValidateDnsError>,
)
    requires
        is_run(validator::started_with(ipv6_support, user_servers), facts, outcomes),
        reached(validator::started_with(ipv6_support, user_servers), outcomes).1
            == WorkView::Return(result),
    ensures
        result == run_result(decisions(user_servers, ipv6_support, facts), outcomes),
        result == Err::<ResultView, ValidateDnsError>(ValidateDnsError::ParseFailure) <==>
            outcomes[0] is Done && all_left_out(decisions(user_servers, ipv6_support, facts)),
{
    let start = validator::started_with(ipv6_support, user_servers);
    lemma_on_course(start, facts, outcomes);
}

/// What the DNS cache is told, in every run: the names that resolvers found an address for, with
/// these addresses, in the order in which the user entered them.
pub proof fn law_cache_learns_answers(
    user_servers: Seq<Seq<char>>,
    ipv6_support: bool,
    facts: Facts,
    outcomes: Seq<ValidationOutcome>,
    answers: Seq<(Seq<char>, Seq<u8>)>,
)
    requires
        is_run(validator::started_with(ipv6_support, user_servers), facts, outcomes),
        reached(validator::started_with(ipv6_support, user_servers), outcomes).1
            == WorkView::StoreAnswers(answers),
    ensures
        answers == validator::cache_answers(
            after_reads(resolving(decisions(user_servers, ipv6_support, facts)), outcomes),
        ),
{
    let start = validator::started_with(ipv6_support, user_servers);
    lemma_on_course(start, facts, outcomes);
}

/// Every run is sound wherever it is.
proof fn lemma_run_is_sound(start: ValidationView, facts: Facts, outcomes: Seq<ValidationOutcome>)
    requires
        start == validator::started_with(start.ipv6_support, start.user_servers),
        is_run(start, facts, outcomes),
    ensures
        validator::sound(
            reached(start, outcomes).0,
            reached(start, outcomes).1,
            facts.parsed,
        ),
        reached(start, outcomes).0.user_servers == start.user_servers,
    decreases outcomes.len(),
{
    lemma_on_course(start, facts, outcomes);
    if outcomes.len() > 0 {
        let before = outcomes.drop_last();
        lemma_run_is_sound(start, facts, before);
        let (state, work) = reached(start, before);
        validator::law_validation_stays_sound(state, work, outcomes.last(), facts.parsed);
    }
}

/// Every server that any run hands out comes from the user: a DoH3 server has a name without a slash
/// and maybe a path that starts with one, and one of the texts that are no addresses says both; any
/// other server is one of the addresses.
pub proof fn law_servers_come_from_the_user(
    user_servers: Seq<Seq<char>>,
    ipv6_support: bool,
    facts: Facts,
    outcomes: Seq<ValidationOutcome>,
    servers: Seq<ServerView>,
    index: int,
)
    requires
        is_run(validator::started_with(ipv6_support, user_servers), facts, outcomes),
        reached(validator::started_with(ipv6_support, user_servers), outcomes).1
            == WorkView::Return(Ok(ResultView::Success(servers))),
        0 <= index < servers.len(),
    ensures
        validator::sound_server(user_servers, facts.parsed, servers[index]),
{
    lemma_run_is_sound(validator::started_with(ipv6_support, user_servers), facts, outcomes);
}

/// No two requesters of any run wait under the same number, with no more servers than there are
/// numbers.
pub proof fn law_numbers_differ_in_every_run(
    user_servers: Seq<Seq<char>>,
    ipv6_support: bool,
    facts: Facts,
    outcomes: Seq<ValidationOutcome>,
    first: int,
    second: int,
)
    requires
        is_run(validator::started_with(ipv6_support, user_servers), facts, outcomes),
        user_servers.len() <= 256,
        0 <= first < second < reached(
            validator::started_with(ipv6_support, user_servers),
            outcomes,
        ).0.requesters.len(),
    ensures
        ({
            let start = validator::started_with(ipv6_support, user_servers);
            let requesters = reached(start, outcomes).0.requesters;
            requesters[first].result_id < requesters[second].result_id
        }),
{
    lemma_run_is_numbered(validator::started_with(ipv6_support, user_servers), facts, outcomes);
}

proof fn lemma_run_is_numbered(
    start: ValidationView,
    facts: Facts,
    outcomes: Seq<ValidationOutcome>,
)
    requires
        start == validator::started_with(start.ipv6_support, start.user_servers),
        start.user_servers.len() <= 256,
        is_run(start, facts, outcomes),
    ensures
        validator::numbered(reached(start, outcomes).0, reached(start, outcomes).1),
        reached(start, outcomes).0.user_servers == start.user_servers,
    decreases outcomes.len(),
{
    if outcomes.len() > 0 {
        let before = outcomes.drop_last();
        lemma_run_is_numbered(start, facts, before);
        let (state, work) = reached(start, before);
        validator::law_requesters_have_their_own_numbers(state, work, outcomes.last());
    }
}

/// The number of reads of the pipe.
pub open spec fn reads(outcomes: Seq<ValidationOutcome>) -> nat
    decreases outcomes.len(),
{
    if outcomes.len() == 0 {
        0
    } else {
        reads(outcomes.drop_last()) + if outcomes.last() is Bytes {
            1nat
        } else {
            0nat
        }
    }
}

proof fn lemma_reads_are_counted(
    start: ValidationView,
    facts: Facts,
    outcomes: Seq<ValidationOutcome>,
)
    requires
        start.responses == 0,
        is_run(start, facts, outcomes),
    ensures
        reached(start, outcomes).0.responses == reads(outcomes),
    decreases outcomes.len(),
{
    if outcomes.len() > 0 {
        lemma_reads_are_counted(start, facts, outcomes.drop_last());
    }
}

/// No run gives up on a resolver before its time: answers are gathered only if every requester is
/// answered, if there were as many reads of the pipe as there are requesters, or if a poll came back
/// without an event.
pub proof fn law_answers_are_gathered_in_time(
    user_servers: Seq<Seq<char>>,
    ipv6_support: bool,
    facts: Facts,
    outcomes: Seq<ValidationOutcome>,
)
    requires
        is_run(validator::started_with(ipv6_support, user_servers), facts, outcomes),
        reached(validator::started_with(ipv6_support, user_servers), outcomes).1 is StoreAnswers,
    ensures
        ({
            let requesters = after_reads(
                resolving(decisions(user_servers, ipv6_support, facts)),
                outcomes,
            );
            ||| forall|i: int|
                0 <= i < requesters.len() ==> (#[trigger] requesters[i]).resolved_address is Some
            ||| reads(outcomes) == requesters.len()
            ||| outcomes.last() matches ValidationOutcome::Events(events) && events@.len() == 0
        }),
{
    let start = validator::started_with(ipv6_support, user_servers);
    let before = outcomes.drop_last();
    lemma_on_course(start, facts, outcomes);
    lemma_on_course(start, facts, before);
    lemma_reads_are_counted(start, facts, outcomes);
    let (state, work) = reached(start, before);
    let requesters = after_reads(
        resolving(decisions(user_servers, ipv6_support, facts)),
        outcomes,
    );
    assert(work is PreparePolling || work is Poll || work is ReadPipe);
    assert(requesters == state.requesters);
    if validator::some_unanswered(requesters) {
    } else {
        assert forall|i: int| 0 <= i < requesters.len() implies (
        #[trigger] requesters[i]).resolved_address is Some by {}
    }
}

} // verus!
