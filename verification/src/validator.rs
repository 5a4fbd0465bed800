//! The validation of the user's DNS servers as a sequence of pieces of outside work.
//!
//! [`DnsValidation::begin`] names the first piece of work; [`DnsValidation::advance`] takes the
//! outcome of a piece of work and names the next one, until it names the result. The work itself
//! (parsing addresses, asking the DNS cache, running resolver threads, polling) is the caller's.

use crate::address::IpRecord;
use crate::resolver;
use crate::resolver::{DnsRequester, RequesterView};
use crate::status::VpnResult;
use crate::text;
use crate::validation;
use crate::validation::{
    NativeDnsServer, NativeDnsServerType, ResultView, ServerKind, ServerView, ValidateDnsError,
    ValidateDnsResult,
};
use std::sync::Arc;
use vstd::prelude::*;

verus! {

/// The poll token of the pipe over which resolvers report.
pub const PIPE_TOKEN: usize = 0;

/// The poll token of the VPN controller during a validation.
pub const CONTROLLER_TOKEN: usize = usize::MAX;

/// A wait for the pipe or the VPN controller lasts this many seconds at most.
pub const POLL_TIMEOUT_SECONDS: u64 = 5;

/// The most bytes that one read of the pipe gives.
pub const READ_SIZE: usize = 512;

/// What becomes of a server that the user entered.
pub enum ServerPlan {
    /// The server is valid as it stands.
    Accept(NativeDnsServer),
    /// The server is left out.
    Skip,
    /// The server has a name, whose address must be found.
    Lookup(String, Option<String>),
}

/// What becomes of a server, over views.
pub enum PlanView {
    Accept(ServerView),
    Skip,
    Lookup(Seq<char>, Option<Seq<char>>),
}

impl View for ServerPlan {
    type V = PlanView;

    open spec fn view(&self) -> PlanView {
        match self {
            ServerPlan::Accept(server) => PlanView::Accept(server@),
            ServerPlan::Skip => PlanView::Skip,
            ServerPlan::Lookup(name, path) => PlanView::Lookup(name@, text::optional_text(*path)),
        }
    }
}

/// The name and the path in what the user entered: `https://` in front is ignored, and the first
/// slash starts the path.
pub open spec fn name_and_path(server: Seq<char>) -> (Seq<char>, Option<Seq<char>>) {
    text::cut_before(text::without_prefix(server, "https://"@), '/')
}

/// What becomes of `server`, where `parsed` is the IP address that the text is, if it is one.
///
/// An IPv6 address is left out where IPv6 is not supported, and a text without a name is left out.
pub open spec fn plan(
    server: Seq<char>,
    parsed: Option<IpRecord>,
    ipv6_support: bool,
) -> PlanView {
    match parsed {
        Some(ip) => if ip is V4 || ipv6_support {
            PlanView::Accept(ServerView { address: ip.octets_view(), kind: ServerKind::Standard })
        } else {
            PlanView::Skip
        },
        None => {
            let (name, path) = name_and_path(server);
            if name.len() == 0 {
                PlanView::Skip
            } else {
                PlanView::Lookup(name, path)
            }
        },
    }
}

/// Decides what becomes of a server that the user entered.
pub fn plan_server(server: &str, parsed: Option<IpRecord>, ipv6_support: bool) -> (planned:
    ServerPlan)
    ensures
        planned@ == plan(server@, parsed, ipv6_support),
{
    match parsed {
        Some(ip) => {
            let usable = match ip {
                IpRecord::V4(_) => true,
                IpRecord::V6(_) => ipv6_support,
            };
            if usable {
                ServerPlan::Accept(NativeDnsServer::new(ip.octets(), NativeDnsServerType::Standard))
            } else {
                ServerPlan::Skip
            }
        },
        None => {
            let (name, path) = text::cut(text::strip_prefix(server, "https://"), '/');
            if name.is_empty() {
                ServerPlan::Skip
            } else {
                let path = match path {
                    Some(path) => Some(path.to_owned()),
                    None => None,
                };
                ServerPlan::Lookup(name.to_owned(), path)
            }
        },
    }
}

/// An address that the DNS cache should keep for a name.
pub struct CacheAnswer {
    pub server_name: String,
    pub address: Vec<u8>,
}

/// A piece of outside work that the validation asks for.
pub enum ValidationWork {
    /// Create the pipe over which resolvers report. Outcome: `Done` or `Failed`.
    CreatePipe,
    /// Read the user's server at this index as an IP address. Outcome: `Address`.
    ParseAddress(usize),
    /// Ask the DNS cache for the name, on behalf of the server at the index. Outcome: `Cached`.
    LookUpCache(usize, String, Option<String>),
    /// Start a resolver for the newest requester, which stands for the server at the index.
    /// Outcome: `Done`.
    StartRequester(usize),
    /// Set up a poller for the pipe and for the VPN controller. Outcome: `Done` or `Failed`.
    PreparePolling,
    /// Wait for the pipe or the VPN controller. Outcome: `Events` or `Failed`.
    Poll,
    /// Read from the pipe, for the event at the index. Outcome: `Bytes` or `NothingToRead`.
    ReadPipe(Vec<bool>, usize),
    /// Take the stop result from the VPN controller. Outcome: `Stop`.
    TakeStop,
    /// Hand the answers to the DNS cache. Outcome: `Done`.
    StoreAnswers(Vec<CacheAnswer>),
    /// The validation is over.
    Return(Result<ValidateDnsResult, ValidateDnsError>),
}

/// The outcome of a piece of outside work.
pub enum ValidationOutcome {
    Done,
    Failed,
    /// The IP address that the text is, if it is one.
    Address(Option<IpRecord>),
    /// The address that the DNS cache holds for the name.
    Cached(Option<IpRecord>),
    /// The events that came, true for those of the VPN controller; none after a time-out.
    Events(Vec<bool>),
    /// What one read of the pipe gave.
    Bytes(Vec<u8>),
    /// The pipe is drained or broken.
    NothingToRead,
    /// The stop result that the VPN controller held.
    Stop(Option<VpnResult>),
}

/// A piece of outside work over views.
pub enum WorkView {
    CreatePipe,
    ParseAddress(int),
    LookUpCache(int, Seq<char>, Option<Seq<char>>),
    StartRequester(int),
    PreparePolling,
    Poll,
    ReadPipe(Seq<bool>, int),
    TakeStop,
    StoreAnswers(Seq<(Seq<char>, Seq<u8>)>),
    Return(Result<ResultView, ValidateDnsError>),
}

/// The names and addresses of answers for the DNS cache.
pub open spec fn answer_views(answers: Seq<CacheAnswer>) -> Seq<(Seq<char>, Seq<u8>)> {
    answers.map_values(|answer: CacheAnswer| (answer.server_name@, answer.address@))
}

impl View for ValidationWork {
    type V = WorkView;

    open spec fn view(&self) -> WorkView {
        match self {
            ValidationWork::CreatePipe => WorkView::CreatePipe,
            ValidationWork::ParseAddress(index) => WorkView::ParseAddress(*index as int),
            ValidationWork::LookUpCache(index, name, path) => WorkView::LookUpCache(
                *index as int,
                name@,
                text::optional_text(*path),
            ),
            ValidationWork::StartRequester(index) => WorkView::StartRequester(*index as int),
            ValidationWork::PreparePolling => WorkView::PreparePolling,
            ValidationWork::Poll => WorkView::Poll,
            ValidationWork::ReadPipe(events, index) => WorkView::ReadPipe(events@, *index as int),
            ValidationWork::TakeStop => WorkView::TakeStop,
            ValidationWork::StoreAnswers(answers) => WorkView::StoreAnswers(answer_views(answers@)),
            ValidationWork::Return(result) => WorkView::Return(
                match result {
                    Ok(value) => Ok(value@),
                    Err(error) => Err(*error),
                },
            ),
        }
    }
}

/// How far a validation has come.
#[verifier::ext_equal]
pub struct ValidationView {
    pub ipv6_support: bool,
    pub user_servers: Seq<Seq<char>>,
    pub validated: Seq<ServerView>,
    pub requesters: Seq<RequesterView>,
    pub responses: nat,
}

/// A validation at its start.
pub open spec fn started_with(ipv6_support: bool, user_servers: Seq<Seq<char>>) -> ValidationView {
    ValidationView {
        ipv6_support,
        user_servers,
        validated: Seq::empty(),
        requesters: Seq::empty(),
        responses: 0,
    }
}

/// A validation of the user's DNS servers that is under way.
pub struct DnsValidation {
    ipv6_support: bool,
    user_servers: Vec<String>,
    validated: Vec<Arc<NativeDnsServer>>,
    requesters: Vec<DnsRequester>,
    responses: usize,
}

/// The characters of a sequence of strings.
pub open spec fn string_views(strings: Seq<String>) -> Seq<Seq<char>> {
    strings.map_values(|string: String| string@)
}

impl View for DnsValidation {
    type V = ValidationView;

    closed spec fn view(&self) -> ValidationView {
        ValidationView {
            ipv6_support: self.ipv6_support,
            user_servers: string_views(self.user_servers@),
            validated: validation::server_views(self.validated@),
            requesters: resolver::requester_views(self.requesters@),
            responses: self.responses as nat,
        }
    }
}

/// Whether `outcome` is an outcome of `work` in the state `state`.
pub open spec fn accepts(
    state: ValidationView,
    work: WorkView,
    outcome: ValidationOutcome,
) -> bool {
    match work {
        WorkView::CreatePipe => outcome is Done || outcome is Failed,
        WorkView::ParseAddress(index) => outcome is Address && 0 <= index
            < state.user_servers.len(),
        WorkView::LookUpCache(index, _, _) => outcome is Cached && 0 <= index
            < state.user_servers.len(),
        WorkView::StartRequester(index) => outcome is Done && 0 <= index < state.user_servers.len(),
        WorkView::PreparePolling => outcome is Done || outcome is Failed,
        WorkView::Poll => outcome is Events || outcome is Failed,
        WorkView::ReadPipe(events, index) => 0 <= index < events.len() && (outcome is NothingToRead
            || outcome is Bytes && state.responses < usize::MAX),
        WorkView::TakeStop => outcome is Stop,
        WorkView::StoreAnswers(_) => outcome is Done,
        WorkView::Return(_) => false,
    }
}

impl ValidationView {
    /// This state with one more validated server.
    pub open spec fn with_server(self, server: ServerView) -> ValidationView {
        ValidationView { validated: self.validated.push(server), ..self }
    }
}

/// The requesters that were answered, in their order.
pub open spec fn answered(requesters: Seq<RequesterView>) -> Seq<RequesterView>
    decreases requesters.len(),
{
    if requesters.len() == 0 {
        Seq::empty()
    } else {
        let front = answered(requesters.drop_last());
        if requesters.last().resolved_address is Some {
            front.push(requesters.last())
        } else {
            front
        }
    }
}

/// What the DNS cache is told of answered requesters.
pub open spec fn cache_answers(requesters: Seq<RequesterView>) -> Seq<(Seq<char>, Seq<u8>)> {
    answered(requesters).map_values(
        |requester: RequesterView| (requester.server_name, requester.resolved_address->0),
    )
}

/// The DoH3 servers that answered requesters stand for.
pub open spec fn resolved_servers(requesters: Seq<RequesterView>) -> Seq<ServerView> {
    answered(requesters).map_values(
        |requester: RequesterView|
            ServerView {
                address: requester.resolved_address->0,
                kind: ServerKind::DoH3(requester.server_name, requester.server_path),
            },
    )
}

/// These requesters with their answers taken out.
pub open spec fn without_answers(requesters: Seq<RequesterView>) -> Seq<RequesterView> {
    requesters.map_values(
        |requester: RequesterView| RequesterView { resolved_address: None, ..requester },
    )
}

/// Whether some requester is not answered.
pub open spec fn some_unanswered(requesters: Seq<RequesterView>) -> bool {
    exists|i: int| 0 <= i < requesters.len() && (#[trigger] requesters[i]).resolved_address is None
}

/// The end of a successful validation: its servers are handed out.
pub open spec fn succeed(state: ValidationView) -> (ValidationView, WorkView) {
    (
        ValidationView { validated: Seq::empty(), ..state },
        WorkView::Return(Ok(ResultView::Success(state.validated))),
    )
}

/// What follows once the server in front of `index` is dealt with: the next server, or, after the
/// last one, the wait for resolvers if there are any. Without resolvers the validation is over, and
/// has failed if no server was valid.
pub open spec fn next_server(state: ValidationView, index: int) -> (ValidationView, WorkView) {
    if index < state.user_servers.len() {
        (state, WorkView::ParseAddress(index))
    } else if state.requesters.len() > 0 {
        (state, WorkView::PreparePolling)
    } else if state.validated.len() > 0 {
        succeed(state)
    } else {
        (state, WorkView::Return(Err(ValidateDnsError::ParseFailure)))
    }
}

/// What follows the wait for resolvers: the answers go to the DNS cache, and the servers they
/// belong to are validated.
pub open spec fn collect(state: ValidationView) -> (ValidationView, WorkView) {
    (
        ValidationView {
            validated: state.validated + resolved_servers(state.requesters),
            requesters: without_answers(state.requesters),
            ..state
        },
        WorkView::StoreAnswers(cache_answers(state.requesters)),
    )
}

/// Waits on while a requester is unanswered and there were fewer reads than requesters.
pub open spec fn wait(state: ValidationView) -> (ValidationView, WorkView) {
    if some_unanswered(state.requesters) && state.responses != state.requesters.len() {
        (state, WorkView::Poll)
    } else {
        collect(state)
    }
}

/// Deals with the event at `index`.
pub open spec fn next_event(state: ValidationView, events: Seq<bool>, index: int) -> (
    ValidationView,
    WorkView,
) {
    if index >= events.len() {
        wait(state)
    } else if events[index] {
        (state, WorkView::TakeStop)
    } else {
        (state, WorkView::ReadPipe(events, index))
    }
}

/// The state and the next piece of work after `work` had the outcome `outcome`.
pub open spec fn next(state: ValidationView, work: WorkView, outcome: ValidationOutcome) -> (
    ValidationView,
    WorkView,
) {
    let give_up = (state, WorkView::Return(Err(ValidateDnsError::ResolveFailure)));
    match (work, outcome) {
        (WorkView::CreatePipe, ValidationOutcome::Done) => next_server(state, 0),
        (WorkView::CreatePipe, ValidationOutcome::Failed) => give_up,
        (WorkView::ParseAddress(index), ValidationOutcome::Address(parsed)) => {
            match plan(state.user_servers[index], parsed, state.ipv6_support) {
                PlanView::Accept(server) => next_server(state.with_server(server), index + 1),
                PlanView::Skip => next_server(state, index + 1),
                PlanView::Lookup(name, path) => (state, WorkView::LookUpCache(index, name, path)),
            }
        },
        (WorkView::LookUpCache(index, name, path), ValidationOutcome::Cached(Some(ip))) => {
            let server = ServerView {
                address: ip.octets_view(),
                kind: ServerKind::DoH3(name, path),
            };
            next_server(state.with_server(server), index + 1)
        },
        (WorkView::LookUpCache(index, name, path), ValidationOutcome::Cached(None)) => {
            let requester = RequesterView {
                server_name: name,
                server_path: path,
                resolved_address: None,
                result_id: (index % 256) as u8,
            };
            (
                ValidationView { requesters: state.requesters.push(requester), ..state },
                WorkView::StartRequester(index),
            )
        },
        (WorkView::StartRequester(index), ValidationOutcome::Done) => next_server(state, index + 1),
        (WorkView::PreparePolling, ValidationOutcome::Done) => wait(state),
        (WorkView::PreparePolling, ValidationOutcome::Failed) => give_up,
        (WorkView::Poll, ValidationOutcome::Events(events)) => if events@.len() == 0 {
            collect(state)
        } else {
            next_event(state, events@, 0)
        },
        (WorkView::Poll, ValidationOutcome::Failed) => give_up,
        (WorkView::ReadPipe(events, index), ValidationOutcome::Bytes(bytes)) => (
            ValidationView {
                requesters: resolver::with_answers(
                    state.requesters,
                    resolver::answers(bytes@),
                ),
                responses: state.responses + 1,
                ..state
            },
            work,
        ),
        (WorkView::ReadPipe(events, index), ValidationOutcome::NothingToRead) => next_event(
            state,
            events,
            index + 1,
        ),
        (WorkView::TakeStop, ValidationOutcome::Stop(Some(result))) => (
            state,
            WorkView::Return(Ok(ResultView::Interrupted(result))),
        ),
        (WorkView::TakeStop, ValidationOutcome::Stop(None)) => (
            state,
            WorkView::Return(Ok(ResultView::Interrupted(VpnResult::Reconnecting))),
        ),
        (WorkView::StoreAnswers(_), ValidationOutcome::Done) => succeed(state),
        _ => (state, work),
    }
}

impl DnsValidation {
    /// Starts a validation of `user_servers`; names the first piece of work.
    pub fn begin(ipv6_support: bool, user_servers: Vec<String>) -> (started: (
        Self,
        ValidationWork,
    ))
        ensures
            started.0@ == started_with(ipv6_support, string_views(user_servers@)),
            started.1@ == WorkView::CreatePipe,
    {
        let validation = DnsValidation {
            ipv6_support,
            user_servers,
            validated: Vec::new(),
            requesters: Vec::new(),
            responses: 0,
        };
        assert(validation@.validated =~= Seq::empty());
        assert(validation@.requesters =~= Seq::empty());
        (validation, ValidationWork::CreatePipe)
    }

    /// Returns what the user entered as the server at `index`, if there are that many.
    pub fn user_server(&self, index: usize) -> (server: Option<&String>)
        ensures
            match server {
                Some(server) => index < self@.user_servers.len() && server@
                    == self@.user_servers[index as int],
                None => index >= self@.user_servers.len(),
            },
    {
        if index < self.user_servers.len() {
            Some(&self.user_servers[index])
        } else {
            None
        }
    }

    /// Returns the number of names that are being resolved.
    pub fn requester_count(&self) -> (count: usize)
        ensures
            count == self@.requesters.len(),
    {
        self.requesters.len()
    }

    /// Returns the requester that was added last, if there is one.
    pub fn newest_requester(&self) -> (newest: Option<&DnsRequester>)
        ensures
            match newest {
                Some(requester) => self@.requesters.len() > 0 && requester@
                    == self@.requesters.last(),
                None => self@.requesters.len() == 0,
            },
    {
        if self.requesters.len() > 0 {
            Some(&self.requesters[self.requesters.len() - 1])
        } else {
            None
        }
    }

    /// Returns how many reads of the pipe were noted.
    pub fn response_count(&self) -> (count: usize)
        ensures
            count == self@.responses,
    {
        self.responses
    }

    /// Takes the outcome of a piece of work and names the next one.
    pub fn advance(&mut self, work: ValidationWork, outcome: ValidationOutcome) -> (following:
        ValidationWork)
        requires
            accepts(old(self)@, work@, outcome),
        ensures
            (final(self)@, following@) == next(old(self)@, work@, outcome),
    {
        assert(self@.user_servers.len() == self.user_servers.len());
        match work {
            ValidationWork::CreatePipe => match outcome {
                ValidationOutcome::Done => self.go_to_server(0),
                _ => ValidationWork::Return(Err(ValidateDnsError::ResolveFailure)),
            },
            ValidationWork::ParseAddress(index) => match outcome {
                ValidationOutcome::Address(parsed) => {
                    match plan_server(self.user_servers[index].as_str(), parsed, self.ipv6_support) {
                        ServerPlan::Accept(server) => {
                            self.add_server(server);
                            self.go_to_server(index + 1)
                        },
                        ServerPlan::Skip => self.go_to_server(index + 1),
                        ServerPlan::Lookup(name, path) => ValidationWork::LookUpCache(
                            index,
                            name,
                            path,
                        ),
                    }
                },
                _ => ValidationWork::ParseAddress(index),
            },
            ValidationWork::LookUpCache(index, name, path) => match outcome {
                ValidationOutcome::Cached(Some(ip)) => {
                    self.add_server(
                        NativeDnsServer::new(ip.octets(), NativeDnsServerType::DoH3(name, path)),
                    );
                    self.go_to_server(index + 1)
                },
                _ => {
                    let ghost before = self.requesters@;
                    let result_id = (index % 256) as u8;
                    self.requesters.push(DnsRequester::new(name, path, result_id));
                    assert(resolver::requester_views(self.requesters@)
                        =~= resolver::requester_views(before).push(self.requesters@.last()@));
                    ValidationWork::StartRequester(index)
                },
            },
            ValidationWork::StartRequester(index) => self.go_to_server(index + 1),
            ValidationWork::PreparePolling => match outcome {
                ValidationOutcome::Done => self.keep_waiting(),
                _ => ValidationWork::Return(Err(ValidateDnsError::ResolveFailure)),
            },
            ValidationWork::Poll => match outcome {
                ValidationOutcome::Events(events) => if events.len() == 0 {
                    self.collect_answers()
                } else {
                    self.go_to_event(events, 0)
                },
                _ => ValidationWork::Return(Err(ValidateDnsError::ResolveFailure)),
            },
            ValidationWork::ReadPipe(events, index) => match outcome {
                ValidationOutcome::Bytes(bytes) => {
                    resolver::note_answers(&mut self.requesters, bytes.as_slice());
                    self.responses = self.responses + 1;
                    ValidationWork::ReadPipe(events, index)
                },
                _ => {
                    assert(index < events.len());
                    self.go_to_event(events, index + 1)
                },
            },
            ValidationWork::TakeStop => match outcome {
                ValidationOutcome::Stop(Some(result)) => ValidationWork::Return(
                    Ok(ValidateDnsResult::Interrupted(result)),
                ),
                _ => ValidationWork::Return(
                    Ok(ValidateDnsResult::Interrupted(VpnResult::Reconnecting)),
                ),
            },
            ValidationWork::StoreAnswers(_) => self.hand_out_servers(),
            ValidationWork::Return(result) => ValidationWork::Return(result),
        }
    }

    /// Adds a validated server.
    fn add_server(&mut self, server: NativeDnsServer)
        ensures
            final(self)@ == old(self)@.with_server(server@),
    {
        let ghost before = self.validated@;
        self.validated.push(Arc::new(server));
        assert(validation::server_views(self.validated@) =~= validation::server_views(before).push(
            server@,
        ));
    }

    fn hand_out_servers(&mut self) -> (following: ValidationWork)
        ensures
            (final(self)@, following@) == succeed(old(self)@),
    {
        let mut servers: Vec<Arc<NativeDnsServer>> = Vec::new();
        std::mem::swap(&mut servers, &mut self.validated);
        assert(validation::server_views(self.validated@) =~= Seq::empty());
        ValidationWork::Return(Ok(ValidateDnsResult::Success(servers)))
    }

    fn go_to_server(&mut self, index: usize) -> (following: ValidationWork)
        ensures
            (final(self)@, following@) == next_server(old(self)@, index as int),
    {
        if index < self.user_servers.len() {
            ValidationWork::ParseAddress(index)
        } else if self.requesters.len() > 0 {
            ValidationWork::PreparePolling
        } else if self.validated.len() > 0 {
            self.hand_out_servers()
        } else {
            ValidationWork::Return(Err(ValidateDnsError::ParseFailure))
        }
    }

    fn go_to_event(&mut self, events: Vec<bool>, index: usize) -> (following: ValidationWork)
        ensures
            (final(self)@, following@) == next_event(old(self)@, events@, index as int),
    {
        if index >= events.len() {
            self.keep_waiting()
        } else if events[index] {
            ValidationWork::TakeStop
        } else {
            ValidationWork::ReadPipe(events, index)
        }
    }

    fn keep_waiting(&mut self) -> (following: ValidationWork)
        ensures
            (final(self)@, following@) == wait(old(self)@),
    {
        if self.any_unanswered() && self.responses != self.requesters.len() {
            ValidationWork::Poll
        } else {
            self.collect_answers()
        }
    }

    fn any_unanswered(&self) -> (unanswered: bool)
        ensures
            unanswered == some_unanswered(self@.requesters),
    {
        let mut index: usize = 0;
        while index < self.requesters.len()
            invariant
                index <= self.requesters@.len(),
                forall|i: int|
                    0 <= i < index ==> (#[trigger] self@.requesters[i]).resolved_address is Some,
            decreases self.requesters@.len() - index,
        {
            if self.requesters[index].resolved_address.is_none() {
                assert(self@.requesters[index as int].resolved_address is None);
                return true;
            }
            index = index + 1;
        }
        false
    }

    fn collect_answers(&mut self) -> (following: ValidationWork)
        ensures
            (final(self)@, following@) == collect(old(self)@),
    {
        let ghost before = self@;
        let mut answers: Vec<CacheAnswer> = Vec::new();
        let mut index: usize = 0;
        assert(before.requesters.take(0) =~= Seq::empty());
        assert(answer_views(answers@) =~= cache_answers(before.requesters.take(0)));
        assert(resolved_servers(before.requesters.take(0)) =~= Seq::empty());
        assert(before.validated + resolved_servers(before.requesters.take(0)) =~= before.validated);
        while index < self.requesters.len()
            invariant
                index <= self.requesters@.len(),
                self.requesters@.len() == before.requesters.len(),
                before == old(self)@,
                self@.ipv6_support == before.ipv6_support,
                self@.user_servers == before.user_servers,
                self@.responses == before.responses,
                self@.validated == before.validated + resolved_servers(
                    before.requesters.take(index as int),
                ),
                answer_views(answers@) == cache_answers(before.requesters.take(index as int)),
                forall|i: int|
                    0 <= i < index ==> #[trigger] self@.requesters[i] == (RequesterView {
                        resolved_address: None,
                        ..before.requesters[i]
                    }),
                forall|i: int|
                    index <= i < before.requesters.len() ==> #[trigger] self@.requesters[i]
                        == before.requesters[i],
            decreases self.requesters@.len() - index,
        {
            let ghost now = self@;
            let ghost front = before.requesters.take(index as int);
            let ghost longer = before.requesters.take(index + 1);
            let ghost requester = before.requesters[index as int];
            assert(longer.drop_last() =~= front);
            assert(longer.last() == requester);
            assert(self@.requesters[index as int] == requester);
            let resolved = self.requesters[index].resolved_address.take();
            match resolved {
                Some(address) => {
                    let name = self.requesters[index].server_name.clone();
                    let path = validation::copy_path(&self.requesters[index].server_path);
                    let ghost known = answers@;
                    answers.push(
                        CacheAnswer {
                            server_name: name.clone(),
                            address: vstd::slice::slice_to_vec(address.as_slice()),
                        },
                    );
                    assert(answer_views(answers@) =~= answer_views(known).push(
                        (requester.server_name, requester.resolved_address->0),
                    ));
                    assert(cache_answers(longer) =~= cache_answers(front).push(
                        (requester.server_name, requester.resolved_address->0),
                    ));
                    self.add_server(
                        NativeDnsServer::new(address, NativeDnsServerType::DoH3(name, path)),
                    );
                    assert(self@.validated =~= before.validated + resolved_servers(longer));
                },
                None => {
                    assert(answered(longer) == answered(front));
                },
            }
            assert forall|i: int| 0 <= i < index + 1 implies #[trigger] self@.requesters[i] == (
            RequesterView { resolved_address: None, ..before.requesters[i] }) by {
                assert(now.requesters[i] == now.requesters[i]);
            }
            assert forall|i: int| index + 1 <= i < before.requesters.len() implies
                #[trigger] self@.requesters[i] == before.requesters[i] by {
                assert(now.requesters[i] == before.requesters[i]);
            }
            assert(self@.requesters.len() == self.requesters@.len());
            index = index + 1;
        }
        assert(before.requesters.take(index as int) =~= before.requesters);
        assert(self@.requesters =~= without_answers(before.requesters));
        ValidationWork::StoreAnswers(answers)
    }
}

/// The name and the path of a server make up what the user entered, without `https://` in front. The
/// name holds no slash, and the path starts with one.
pub proof fn law_name_and_path_rejoin(server: Seq<char>)
    ensures
        ({
            let (name, path) = name_and_path(server);
            &&& ServerKind::DoH3(name, path).doh3_address() == Some(
                text::without_prefix(server, "https://"@),
            )
            &&& !name.contains('/')
            &&& path matches Some(path) ==> path.len() > 0 && path[0] == '/'
        }),
{
    text::law_cut_rejoins(text::without_prefix(server, "https://"@), '/');
}

/// Whether the user's server at `index` is no address, and has this name and this path.
pub open spec fn names(
    user_servers: Seq<Seq<char>>,
    parsed: Seq<Option<IpRecord>>,
    name: Seq<char>,
    path: Option<Seq<char>>,
    index: int,
) -> bool {
    0 <= index < user_servers.len() && parsed[index] is None && name_and_path(user_servers[index])
        == (name, path)
}

/// Whether the user's server at `index` is the address with these octets.
pub open spec fn is_address(
    user_servers: Seq<Seq<char>>,
    parsed: Seq<Option<IpRecord>>,
    octets: Seq<u8>,
    index: int,
) -> bool {
    0 <= index < user_servers.len() && parsed[index] is Some && parsed[index]->0.octets_view()
        == octets
}

/// Whether a name and a path are ones that a validation may work with: the name is not empty and
/// holds no slash, a path starts with a slash, and the two are what one of the user's servers, which
/// is no address, says.
pub open spec fn sound_name(
    user_servers: Seq<Seq<char>>,
    parsed: Seq<Option<IpRecord>>,
    name: Seq<char>,
    path: Option<Seq<char>>,
) -> bool {
    &&& name.len() > 0
    &&& !name.contains('/')
    &&& path matches Some(path) ==> path.len() > 0 && path[0] == '/'
    &&& exists|index: int| #[trigger] names(user_servers, parsed, name, path, index)
}

/// Whether a server is one that a validation may hand out: the name and the path of a DoH3 server are
/// sound; any other server has an IPv4 or an IPv6 address that is one of the user's servers.
pub open spec fn sound_server(
    user_servers: Seq<Seq<char>>,
    parsed: Seq<Option<IpRecord>>,
    server: ServerView,
) -> bool {
    match server.kind {
        ServerKind::DoH3(name, path) => sound_name(user_servers, parsed, name, path),
        ServerKind::Standard => {
            &&& server.address.len() == 4 || server.address.len() == 16
            &&& exists|index: int| #[trigger]
                is_address(user_servers, parsed, server.address, index)
        },
    }
}

/// Whether all that a validation has gathered, and what its next piece of work carries, is sound,
/// where `parsed` holds the addresses that the user's servers are.
pub open spec fn sound(
    state: ValidationView,
    work: WorkView,
    parsed: Seq<Option<IpRecord>>,
) -> bool {
    &&& sound_servers(state, parsed, state.validated)
    &&& sound_requesters(state, parsed, state.requesters)
    &&& match work {
        WorkView::LookUpCache(_, name, path) => sound_name(state.user_servers, parsed, name, path),
        WorkView::Return(Ok(ResultView::Success(servers))) => sound_servers(state, parsed, servers),
        _ => true,
    }
}

/// Whether all of these servers are sound.
pub open spec fn sound_servers(
    state: ValidationView,
    parsed: Seq<Option<IpRecord>>,
    servers: Seq<ServerView>,
) -> bool {
    forall|i: int|
        0 <= i < servers.len() ==> sound_server(state.user_servers, parsed, #[trigger] servers[i])
}

/// Whether the names and paths of all of these requesters are sound.
pub open spec fn sound_requesters(
    state: ValidationView,
    parsed: Seq<Option<IpRecord>>,
    requesters: Seq<RequesterView>,
) -> bool {
    forall|i: int|
        0 <= i < requesters.len() ==> sound_name(
            state.user_servers,
            parsed,
            (#[trigger] requesters[i]).server_name,
            requesters[i].server_path,
        )
}

/// Answered requesters are among the requesters.
proof fn lemma_answered(requesters: Seq<RequesterView>)
    ensures
        answered(requesters).len() <= requesters.len(),
        forall|i: int|
            0 <= i < answered(requesters).len() ==> requesters.contains(
                #[trigger] answered(requesters)[i],
            ),
        forall|i: int|
            0 <= i < answered(requesters).len() ==> (#[trigger] answered(
                requesters,
            )[i]).resolved_address is Some,
    decreases requesters.len(),
{
    if requesters.len() > 0 {
        let front = requesters.drop_last();
        lemma_answered(front);
        assert forall|i: int| 0 <= i < answered(requesters).len() implies requesters.contains(
            #[trigger] answered(requesters)[i],
        ) by {
            if i < answered(front).len() {
                let k = choose|k: int| 0 <= k < front.len() && front[k] == answered(front)[i];
                assert(requesters[k] == answered(requesters)[i]);
            } else {
                assert(requesters[requesters.len() - 1] == answered(requesters)[i]);
            }
        }
    }
}

/// A validation that has gathered nothing is sound.
pub proof fn law_validation_starts_sound(state: ValidationView, parsed: Seq<Option<IpRecord>>)
    requires
        state.validated.len() == 0,
        state.requesters.len() == 0,
    ensures
        sound(state, WorkView::CreatePipe, parsed),
{
}

/// What a validation gathers stays sound with every piece of work, and so are the servers that it
/// hands out at its end.
pub proof fn law_validation_stays_sound(
    state: ValidationView,
    work: WorkView,
    outcome: ValidationOutcome,
    parsed: Seq<Option<IpRecord>>,
)
    requires
        accepts(state, work, outcome),
        sound(state, work, parsed),
        work matches WorkView::ParseAddress(index) ==> outcome == ValidationOutcome::Address(
            parsed[index],
        ),
    ensures
        sound(next(state, work, outcome).0, next(state, work, outcome).1, parsed),
{
    match (work, outcome) {
        (WorkView::ParseAddress(index), ValidationOutcome::Address(address)) => {
            let server = state.user_servers[index];
            law_name_and_path_rejoin(server);
            let (name, path) = name_and_path(server);
            if address is None {
                assert(names(state.user_servers, parsed, name, path, index));
            } else {
                let octets = address->0.octets_view();
                assert(is_address(state.user_servers, parsed, octets, index));
            }
        },
        (WorkView::ReadPipe(_, _), ValidationOutcome::Bytes(bytes)) => {
            let received = resolver::answers(bytes@);
            resolver::law_answers_keep_requesters(state.requesters, received);
            lemma_same_names_are_sound(
                state,
                parsed,
                state.requesters,
                resolver::with_answers(state.requesters, received),
            );
        },
        _ => {},
    }
    lemma_collect_is_sound(state, parsed);
}

/// Soundness of requesters is a matter of their names and paths.
proof fn lemma_same_names_are_sound(
    state: ValidationView,
    parsed: Seq<Option<IpRecord>>,
    before: Seq<RequesterView>,
    after: Seq<RequesterView>,
)
    requires
        sound_requesters(state, parsed, before),
        after.len() == before.len(),
        forall|i: int|
            0 <= i < before.len() ==> (#[trigger] after[i]).server_name == before[i].server_name
                && after[i].server_path == before[i].server_path,
    ensures
        sound_requesters(state, parsed, after),
{
    assert forall|i: int| 0 <= i < after.len() implies sound_name(
        state.user_servers,
        parsed,
        (#[trigger] after[i]).server_name,
        after[i].server_path,
    ) by {
        assert(after[i].server_name == before[i].server_name);
    }
}

proof fn lemma_collect_is_sound(state: ValidationView, parsed: Seq<Option<IpRecord>>)
    requires
        sound_servers(state, parsed, state.validated),
        sound_requesters(state, parsed, state.requesters),
    ensures
        sound(collect(state).0, collect(state).1, parsed),
{
    lemma_answered(state.requesters);
    let servers = resolved_servers(state.requesters);
    assert forall|i: int| 0 <= i < servers.len() implies sound_server(
        state.user_servers,
        parsed,
        #[trigger] servers[i],
    ) by {
        let requester = answered(state.requesters)[i];
        let k = choose|k: int| 0 <= k < state.requesters.len() && state.requesters[k] == requester;
        assert(state.requesters[k].server_name == requester.server_name);
    }
    lemma_same_names_are_sound(
        state,
        parsed,
        state.requesters,
        without_answers(state.requesters),
    );
}

/// Validated servers are kept in their order until they are handed out: every piece of work leaves
/// them as they are, adds servers behind them, or hands them out.
pub proof fn law_validated_servers_are_kept(
    state: ValidationView,
    work: WorkView,
    outcome: ValidationOutcome,
)
    requires
        accepts(state, work, outcome),
    ensures
        ({
            let (after, following) = next(state, work, outcome);
            match following {
                WorkView::Return(Ok(ResultView::Success(servers))) => state.validated.is_prefix_of(
                    servers,
                ),
                _ => state.validated.is_prefix_of(after.validated),
            }
        }),
{
}

/// The requests for names are kept, too: every piece of work keeps the requesters, and a name that
/// the DNS cache does not hold adds one behind them.
pub proof fn law_requesters_are_kept(
    state: ValidationView,
    work: WorkView,
    outcome: ValidationOutcome,
)
    requires
        accepts(state, work, outcome),
    ensures
        ({
            let after = next(state, work, outcome).0;
            &&& after.requesters.len() == state.requesters.len() + if work is LookUpCache && outcome
                == ValidationOutcome::Cached(None) {
                1int
            } else {
                0int
            }
            &&& forall|i: int|
                0 <= i < state.requesters.len() ==> {
                    &&& (#[trigger] after.requesters[i]).server_name
                        == state.requesters[i].server_name
                    &&& after.requesters[i].server_path == state.requesters[i].server_path
                    &&& after.requesters[i].result_id == state.requesters[i].result_id
                }
        }),
{
    match (work, outcome) {
        (WorkView::ReadPipe(_, _), ValidationOutcome::Bytes(bytes)) => {
            resolver::law_answers_keep_requesters(state.requesters, resolver::answers(bytes@));
        },
        _ => {},
    }
}

/// The position of the first server that has no requester yet for sure.
pub open spec fn undecided_from(state: ValidationView, work: WorkView) -> int {
    match work {
        WorkView::CreatePipe => 0,
        WorkView::ParseAddress(index) => index,
        WorkView::LookUpCache(index, _, _) => index,
        WorkView::StartRequester(index) => index + 1,
        _ => state.user_servers.len() as int,
    }
}

/// Whether the numbers of the requesters ascend, below that of the first undecided server.
pub open spec fn numbered(state: ValidationView, work: WorkView) -> bool {
    &&& 0 <= undecided_from(state, work) <= state.user_servers.len()
    &&& forall|i: int|
        0 <= i < state.requesters.len() ==> (#[trigger] state.requesters[i]).result_id
            < undecided_from(state, work)
    &&& forall|i: int, j: int|
        0 <= i < j < state.requesters.len() ==> (#[trigger] state.requesters[i]).result_id < (
        #[trigger] state.requesters[j]).result_id
}

/// With no more servers than there are numbers, no two requesters ever wait under the same number.
pub proof fn law_requesters_have_their_own_numbers(
    state: ValidationView,
    work: WorkView,
    outcome: ValidationOutcome,
)
    requires
        accepts(state, work, outcome),
        numbered(state, work),
        state.user_servers.len() <= 256,
    ensures
        numbered(next(state, work, outcome).0, next(state, work, outcome).1),
        next(state, work, outcome).0.user_servers == state.user_servers,
{
    law_requesters_are_kept(state, work, outcome);
    let (after, following) = next(state, work, outcome);
    match (work, outcome) {
        (WorkView::LookUpCache(index, _, _), ValidationOutcome::Cached(None)) => {
            assert(after.requesters.last().result_id == index);
        },
        _ => {},
    }
    assert forall|i: int| 0 <= i < after.requesters.len() implies (
    #[trigger] after.requesters[i]).result_id < undecided_from(after, following) by {
        if i < state.requesters.len() {
            assert(state.requesters[i].result_id < undecided_from(state, work));
        }
    }
    assert forall|i: int, j: int| 0 <= i < j < after.requesters.len() implies (
    #[trigger] after.requesters[i]).result_id < (#[trigger] after.requesters[j]).result_id by {
        assert(state.requesters[i].result_id < undecided_from(state, work));
        if j < state.requesters.len() {
            assert(state.requesters[i].result_id < state.requesters[j].result_id);
        }
    }
}

/// The DoH3 servers that requesters stand for once they are resolved to `addresses`.
pub open spec fn servers_at(
    requesters: Seq<RequesterView>,
    addresses: Seq<Seq<u8>>,
) -> Seq<ServerView> {
    Seq::new(
        requesters.len(),
        |i: int|
            ServerView {
                address: addresses[i],
                kind: ServerKind::DoH3(requesters[i].server_name, requesters[i].server_path),
            },
    )
}

/// What the DNS cache is told once requesters are resolved to `addresses`.
pub open spec fn answers_at(
    requesters: Seq<RequesterView>,
    addresses: Seq<Seq<u8>>,
) -> Seq<(Seq<char>, Seq<u8>)> {
    Seq::new(requesters.len(), |i: int| (requesters[i].server_name, addresses[i]))
}

/// Where all requesters are answered, none is left out.
proof fn lemma_all_answered(requesters: Seq<RequesterView>)
    requires
        !some_unanswered(requesters),
    ensures
        answered(requesters) == requesters,
    decreases requesters.len(),
{
    if requesters.len() > 0 {
        let front = requesters.drop_last();
        assert(requesters[requesters.len() - 1].resolved_address is Some);
        assert forall|i: int| 0 <= i < front.len() implies (
        #[trigger] front[i]).resolved_address is Some by {
            assert(requesters[i].resolved_address is Some);
        }
        lemma_all_answered(front);
        assert(front.push(requesters.last()) =~= requesters);
    }
}

/// The names that resolvers found addresses for are validated: if the reports of all requesters come
/// in one read, the wait is over after it, the DNS cache is told of every name, and a DoH3 server with
/// every name, path and address stands behind the servers that were valid before.
pub proof fn law_resolved_names_are_validated(
    state: ValidationView,
    addresses: Seq<Seq<u8>>,
    events: Seq<bool>,
    bytes: Vec<u8>,
)
    requires
        addresses.len() == state.requesters.len(),
        forall|i: int|
            0 <= i < addresses.len() ==> (#[trigger] addresses[i]).len() <= u8::MAX - 2,
        forall|i: int, j: int|
            0 <= i < j < state.requesters.len() ==> (#[trigger] state.requesters[i]).result_id != (
            #[trigger] state.requesters[j]).result_id,
        bytes@ == resolver::reports(state.requesters, addresses, 0),
        events.len() == 1,
    ensures
        ({
            let read = WorkView::ReadPipe(events, 0);
            let (noted, reading) = next(state, read, ValidationOutcome::Bytes(bytes));
            let (after, following) = next(noted, reading, ValidationOutcome::NothingToRead);
            &&& reading == read
            &&& following == WorkView::StoreAnswers(answers_at(state.requesters, addresses))
            &&& after.validated == state.validated + servers_at(state.requesters, addresses)
        }),
{
    resolver::law_reports_of_one_read(state.requesters, addresses, 0);
    let noted = resolver::resolved_from(state.requesters, addresses, 0);
    assert(!some_unanswered(noted));
    lemma_all_answered(noted);
    assert(cache_answers(noted) =~= answers_at(state.requesters, addresses));
    assert(resolved_servers(noted) =~= servers_at(state.requesters, addresses));
}

/// The servers of those addresses that are valid: all of them, or the IPv4 addresses alone where
/// IPv6 is not supported.
pub open spec fn usable_addresses(addresses: Seq<IpRecord>, ipv6_support: bool) -> Seq<ServerView>
    decreases addresses.len(),
{
    if addresses.len() == 0 {
        Seq::empty()
    } else {
        let front = usable_addresses(addresses.drop_last(), ipv6_support);
        let address = addresses.last();
        if address is V4 || ipv6_support {
            front.push(
                ServerView { address: address.octets_view(), kind: ServerKind::Standard },
            )
        } else {
            front
        }
    }
}

/// Where a validation gets to, from `work` on, if the servers from `index` on are the addresses at
/// their positions in `addresses`.
pub open spec fn after_addresses(
    state: ValidationView,
    work: WorkView,
    addresses: Seq<IpRecord>,
    index: int,
) -> (ValidationView, WorkView)
    decreases addresses.len() - index,
{
    if index < addresses.len() {
        let outcome = ValidationOutcome::Address(Some(addresses[index]));
        let (after, following) = next(state, work, outcome);
        after_addresses(after, following, addresses, index + 1)
    } else {
        (state, work)
    }
}

/// The result for a user who enters these addresses only.
pub open spec fn addresses_result(addresses: Seq<IpRecord>, ipv6_support: bool) -> WorkView {
    let servers = usable_addresses(addresses, ipv6_support);
    if servers.len() > 0 {
        WorkView::Return(Ok(ResultView::Success(servers)))
    } else {
        WorkView::Return(Err(ValidateDnsError::ParseFailure))
    }
}

/// A user who enters addresses only gets those that are valid, in their order; where none is, the
/// validation fails. Nothing is looked up and nothing is waited for.
pub proof fn law_addresses_validate_in_order(state: ValidationView, addresses: Seq<IpRecord>)
    requires
        state.user_servers.len() == addresses.len(),
        state.requesters.len() == 0,
        state.validated.len() == 0,
    ensures
        ({
            let (after, following) = next(state, WorkView::CreatePipe, ValidationOutcome::Done);
            after_addresses(after, following, addresses, 0).1 == addresses_result(
                addresses,
                state.ipv6_support,
            )
        }),
{
    assert(addresses.take(0) =~= Seq::empty());
    assert(state.validated =~= Seq::empty());
    lemma_addresses_from(state, addresses, 0);
}

proof fn lemma_addresses_from(state: ValidationView, addresses: Seq<IpRecord>, index: int)
    requires
        0 <= index <= addresses.len(),
        state.user_servers.len() == addresses.len(),
        state.requesters.len() == 0,
        state.validated == usable_addresses(addresses.take(index), state.ipv6_support),
    ensures
        ({
            let (reached, work) = next_server(state, index);
            after_addresses(reached, work, addresses, index).1 == addresses_result(
                addresses,
                state.ipv6_support,
            )
        }),
    decreases addresses.len() - index,
{
    if index < addresses.len() {
        let longer = addresses.take(index + 1);
        assert(longer.drop_last() =~= addresses.take(index));
        assert(longer.last() == addresses[index]);
        let later = ValidationView {
            validated: usable_addresses(longer, state.ipv6_support),
            ..state
        };
        lemma_addresses_from(later, addresses, index + 1);
    } else {
        assert(addresses.take(index) =~= addresses);
    }
}

} // verus!
