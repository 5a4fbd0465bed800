//! The state of the VPN and one iteration of its main loop.
//!
//! An iteration is a sequence of pieces of outside work: [`Vpn::begin_iteration`] names the first
//! one and [`Vpn::advance_iteration`] takes the outcome of one and names the next. The caller polls,
//! reads and writes.

use crate::controller::VpnController;
use crate::status::{VpnError, VpnResult};
use std::collections::VecDeque;
use vstd::prelude::*;

verus! {

/// The poll token of the tunnel.
pub const VPN_TOKEN: usize = usize::MAX;

/// The poll token of the controller's event file descriptor.
pub const VPN_CONTROLLER_TOKEN: usize = usize::MAX - 1;

/// The size of the buffer into which packets are read from the tunnel.
pub const PACKET_BUFFER_SIZE: usize = 32767;

/// The events of a poll that are not the DNS backend's: one of the tunnel and one of the controller.
pub const OWN_EVENTS: usize = 2;

/// An event that the poller reported.
#[derive(Clone, Copy, Debug, PartialEq, Eq, Structural)]
pub struct PollEvent {
    pub token: usize,
    pub readable: bool,
    pub writable: bool,
}

/// What the events of one poll ask for.
pub struct EventSelection {
    /// The tunnel can be read.
    pub read_from_device: bool,
    /// The tunnel can be written.
    pub write_to_device: bool,
    /// The indices of the events that belong to the DNS backend.
    pub backend_events: Vec<usize>,
}

/// What the events of one poll ask for, over views.
#[verifier::ext_equal]
pub struct SelectionView {
    pub read_from_device: bool,
    pub write_to_device: bool,
    pub backend_events: Seq<usize>,
}

impl View for EventSelection {
    type V = SelectionView;

    open spec fn view(&self) -> SelectionView {
        SelectionView {
            read_from_device: self.read_from_device,
            write_to_device: self.write_to_device,
            backend_events: self.backend_events@,
        }
    }
}

/// The events in front of the first one of the controller, which ends the look at the events.
pub open spec fn before_controller(events: Seq<PollEvent>) -> Seq<PollEvent>
    decreases events.len(),
{
    if events.len() == 0 || events[0].token == VPN_CONTROLLER_TOKEN {
        Seq::empty()
    } else {
        seq![events[0]] + before_controller(events.drop_first())
    }
}

/// The indices of the events that are not the tunnel's.
pub open spec fn not_of_tunnel(events: Seq<PollEvent>) -> Seq<usize>
    decreases events.len(),
{
    if events.len() == 0 {
        Seq::empty()
    } else {
        let front = not_of_tunnel(events.drop_last());
        if events.last().token == VPN_TOKEN {
            front
        } else {
            front.push((events.len() - 1) as usize)
        }
    }
}

/// What `events` ask for.
pub open spec fn selection(events: Seq<PollEvent>) -> SelectionView {
    let seen = before_controller(events);
    SelectionView {
        read_from_device: exists|i: int|
            0 <= i < seen.len() && (#[trigger] seen[i]).token == VPN_TOKEN && seen[i].readable,
        write_to_device: exists|i: int|
            0 <= i < seen.len() && (#[trigger] seen[i]).token == VPN_TOKEN && seen[i].writable,
        backend_events: not_of_tunnel(seen),
    }
}

/// `before_controller` keeps a front part: all events that precede the first one of the controller.
proof fn lemma_before_controller(events: Seq<PollEvent>, count: int)
    requires
        0 <= count <= events.len(),
        forall|i: int| 0 <= i < count ==> (#[trigger] events[i]).token != VPN_CONTROLLER_TOKEN,
        count == events.len() || events[count].token == VPN_CONTROLLER_TOKEN,
    ensures
        before_controller(events) == events.take(count),
    decreases events.len(),
{
    if events.len() == 0 || count == 0 {
        assert(events.take(count) =~= Seq::empty());
    } else {
        let rest = events.drop_first();
        assert forall|i: int| 0 <= i < count - 1 implies (#[trigger] rest[i]).token
            != VPN_CONTROLLER_TOKEN by {
            assert(rest[i] == events[i + 1]);
        }
        lemma_before_controller(rest, count - 1);
        assert(events.take(count) =~= seq![events[0]] + rest.take(count - 1));
    }
}

/// Sorts the events of one poll.
pub fn select_events(events: &Vec<PollEvent>) -> (selected: EventSelection)
    ensures
        selected@ == selection(events@),
{
    let mut read_from_device = false;
    let mut write_to_device = false;
    let mut backend_events: Vec<usize> = Vec::new();
    let mut index: usize = 0;
    assert(events@.take(0) =~= Seq::empty());
    while index < events.len() && events[index].token != VPN_CONTROLLER_TOKEN
        invariant
            index <= events@.len(),
            forall|i: int|
                0 <= i < index ==> (#[trigger] events@[i]).token != VPN_CONTROLLER_TOKEN,
            read_from_device == exists|i: int|
                0 <= i < index && (#[trigger] events@[i]).token == VPN_TOKEN && events@[i].readable,
            write_to_device == exists|i: int|
                0 <= i < index && (#[trigger] events@[i]).token == VPN_TOKEN && events@[i].writable,
            backend_events@ == not_of_tunnel(events@.take(index as int)),
        decreases events@.len() - index,
    {
        let event = events[index];
        assert(events@.take(index + 1).drop_last() =~= events@.take(index as int));
        assert(events@.take(index + 1).last() == events@[index as int]);
        if event.token == VPN_TOKEN {
            read_from_device = read_from_device || event.readable;
            write_to_device = write_to_device || event.writable;
        } else {
            backend_events.push(index);
        }
        index = index + 1;
    }
    proof {
        lemma_before_controller(events@, index as int);
        let seen = before_controller(events@);
        assert(forall|i: int| 0 <= i < index ==> #[trigger] seen[i] == events@[i]);
        assert(forall|i: int| 0 <= i < index ==> #[trigger] events@[i] == seen[i]);
    }
    EventSelection { read_from_device, write_to_device, backend_events }
}

/// How a poll went.
#[derive(Clone, Copy, Debug, PartialEq, Eq, Structural)]
pub enum PollStatus {
    Ready,
    Interrupted,
    Failed,
}

/// A piece of outside work that an iteration of the main loop asks for.
pub enum IterationWork {
    /// Register the tunnel for reading, and for writing too if told so. Outcome: `Done` or
    /// `Failed`.
    RegisterTunnel(bool),
    /// Register the sources of the DNS backend and poll with its time-out. Outcome: `Polled`.
    Poll,
    /// Take the stop result from the VPN controller. Outcome: `Stop`.
    TakeStop(Vec<PollEvent>),
    /// Let the DNS backend process its events and deregister the sources that it gives up. Outcome:
    /// `Done` or `Failed`.
    ProcessBackend(EventSelection),
    /// Write the packet to the tunnel; the flag tells whether the tunnel is read next. Outcome:
    /// `Done` or `Failed`.
    WriteTunnel(Vec<u8>, bool),
    /// Read a packet from the tunnel. Outcome: `Read` or `Failed`.
    ReadTunnel,
    /// Handle the DNS request in the packet of this length. Outcome: `Done` or `RequestFailed`.
    HandleRequest(usize),
    /// Deregister the tunnel. Outcome: `Done` or `Failed`.
    DeregisterTunnel,
    /// The iteration is over.
    Return(Result<VpnResult, VpnError>),
}

/// The outcome of a piece of outside work.
pub enum IterationOutcome {
    Done,
    Failed,
    /// How the poll went and the events it left.
    Polled(PollStatus, Vec<PollEvent>),
    /// The stop result that the VPN controller held.
    Stop(Option<VpnResult>),
    /// The length of the packet that was read.
    Read(usize),
    /// The error with which the DNS request failed.
    RequestFailed(VpnError),
}

/// A piece of outside work over views.
pub enum IterationView {
    RegisterTunnel(bool),
    Poll,
    TakeStop(Seq<PollEvent>),
    ProcessBackend(SelectionView),
    WriteTunnel(Seq<u8>, bool),
    ReadTunnel,
    HandleRequest(usize),
    DeregisterTunnel,
    Return(Result<VpnResult, VpnError>),
}

impl View for IterationWork {
    type V = IterationView;

    open spec fn view(&self) -> IterationView {
        match self {
            IterationWork::RegisterTunnel(writable) => IterationView::RegisterTunnel(*writable),
            IterationWork::Poll => IterationView::Poll,
            IterationWork::TakeStop(events) => IterationView::TakeStop(events@),
            IterationWork::ProcessBackend(selected) => IterationView::ProcessBackend(selected@),
            IterationWork::WriteTunnel(packet, read) => IterationView::WriteTunnel(packet@, *read),
            IterationWork::ReadTunnel => IterationView::ReadTunnel,
            IterationWork::HandleRequest(length) => IterationView::HandleRequest(*length),
            IterationWork::DeregisterTunnel => IterationView::DeregisterTunnel,
            IterationWork::Return(result) => IterationView::Return(*result),
        }
    }
}

/// Whether `outcome` is an outcome of `work`.
pub open spec fn accepts(work: IterationView, outcome: IterationOutcome) -> bool {
    match work {
        IterationView::RegisterTunnel(_) => outcome is Done || outcome is Failed,
        IterationView::Poll => outcome is Polled,
        IterationView::TakeStop(_) => outcome is Stop,
        IterationView::ProcessBackend(_) => outcome is Done || outcome is Failed,
        IterationView::WriteTunnel(_, _) => outcome is Done || outcome is Failed,
        IterationView::ReadTunnel => outcome is Read || outcome is Failed,
        IterationView::HandleRequest(_) => outcome is Done || outcome is RequestFailed,
        IterationView::DeregisterTunnel => outcome is Done || outcome is Failed,
        IterationView::Return(_) => false,
    }
}

/// What follows once the tunnel was written or needed no write.
pub open spec fn after_write(read_from_device: bool) -> IterationView {
    if read_from_device {
        IterationView::ReadTunnel
    } else {
        IterationView::DeregisterTunnel
    }
}

/// What follows once the backend is done: a packet goes to the tunnel if the tunnel can take one.
/// There is no packet only if the poller reported what it was not asked for.
pub open spec fn after_backend(writes: Seq<Seq<u8>>, selected: SelectionView) -> (
    Seq<Seq<u8>>,
    IterationView,
) {
    if !selected.write_to_device {
        (writes, after_write(selected.read_from_device))
    } else if writes.len() == 0 {
        (writes, IterationView::Return(Err(VpnError::TunnelWriteFailure)))
    } else {
        (
            writes.drop_first(),
            IterationView::WriteTunnel(writes[0], selected.read_from_device),
        )
    }
}

/// The packets that wait for the tunnel and the next piece of work, after `work` had the outcome
/// `outcome`.
pub open spec fn next(
    writes: Seq<Seq<u8>>,
    work: IterationView,
    outcome: IterationOutcome,
) -> (Seq<Seq<u8>>, IterationView) {
    match (work, outcome) {
        (IterationView::RegisterTunnel(_), IterationOutcome::Done) => (writes, IterationView::Poll),
        (IterationView::RegisterTunnel(_), IterationOutcome::Failed) => (
            writes,
            IterationView::Return(Err(VpnError::TunnelPollRegistrationFailure)),
        ),
        (IterationView::Poll, IterationOutcome::Polled(status, events)) => (
            writes,
            if status == PollStatus::Failed {
                IterationView::Return(Err(VpnError::PollFailure))
            } else {
                IterationView::TakeStop(events@)
            },
        ),
        (IterationView::TakeStop(_), IterationOutcome::Stop(Some(result))) => (
            writes,
            IterationView::Return(Ok(result)),
        ),
        (IterationView::TakeStop(events), IterationOutcome::Stop(None)) => (
            writes,
            IterationView::ProcessBackend(selection(events)),
        ),
        (IterationView::ProcessBackend(selected), IterationOutcome::Done) => after_backend(
            writes,
            selected,
        ),
        (IterationView::ProcessBackend(_), IterationOutcome::Failed) => (
            writes,
            IterationView::Return(Err(VpnError::SourcePollRegistrationFailure)),
        ),
        (IterationView::WriteTunnel(_, read), IterationOutcome::Done) => (
            writes,
            after_write(read),
        ),
        (IterationView::WriteTunnel(_, _), IterationOutcome::Failed) => (
            writes,
            IterationView::Return(Err(VpnError::TunnelWriteFailure)),
        ),
        (IterationView::ReadTunnel, IterationOutcome::Read(length)) => (
            writes,
            if length == 0 {
                IterationView::DeregisterTunnel
            } else {
                IterationView::HandleRequest(length)
            },
        ),
        (IterationView::ReadTunnel, IterationOutcome::Failed) => (
            writes,
            IterationView::Return(Err(VpnError::TunnelReadFailure)),
        ),
        (IterationView::HandleRequest(_), IterationOutcome::Done) => (
            writes,
            IterationView::DeregisterTunnel,
        ),
        (IterationView::HandleRequest(_), IterationOutcome::RequestFailed(error)) => (
            writes,
            IterationView::Return(Err(error)),
        ),
        (IterationView::DeregisterTunnel, IterationOutcome::Done) => (
            writes,
            IterationView::Return(Ok(VpnResult::Continuing)),
        ),
        (IterationView::DeregisterTunnel, IterationOutcome::Failed) => (
            writes,
            IterationView::Return(Err(VpnError::TunnelPollRegistrationFailure)),
        ),
        _ => (writes, work),
    }
}

/// Main struct that holds the state of the VPN.
pub struct Vpn {
    controller_fd: i32,
    device_writes: VecDeque<Vec<u8>>,
}

/// The bytes of a sequence of packets.
pub open spec fn packet_views(packets: Seq<Vec<u8>>) -> Seq<Seq<u8>> {
    packets.map_values(|packet: Vec<u8>| packet@)
}

/// The packets that wait for the tunnel after a DNS response came in, where `response` carries it to
/// the tunnel, if it could be built.
pub open spec fn after_response(
    writes: Seq<Seq<u8>>,
    response: Option<Seq<u8>>,
) -> Seq<Seq<u8>> {
    match response {
        Some(packet) => writes.push(packet),
        None => writes,
    }
}

/// The first piece of work of an iteration while `writes` wait for the tunnel.
pub open spec fn first_work(writes: Seq<Seq<u8>>) -> IterationView {
    IterationView::RegisterTunnel(writes.len() > 0)
}

impl View for Vpn {
    type V = Seq<Seq<u8>>;

    /// The packets that wait to be written to the tunnel, in the order in which they are written.
    closed spec fn view(&self) -> Seq<Seq<u8>> {
        packet_views(self.device_writes@)
    }
}

impl Vpn {
    /// The event file descriptor of the controller that interrupts this VPN.
    pub closed spec fn controller_descriptor(self) -> i32 {
        self.controller_fd
    }

    /// Creates the state of a VPN that is interrupted by `vpn_controller`.
    pub fn new(vpn_controller: &VpnController) -> (vpn: Self)
        ensures
            vpn@ == Seq::<Seq<u8>>::empty(),
            vpn.controller_descriptor() == vpn_controller.descriptor(),
    {
        let vpn = Vpn {
            controller_fd: vpn_controller.get_event_fd(),
            device_writes: VecDeque::new(),
        };
        assert(vpn@ =~= Seq::empty());
        vpn
    }

    /// Returns the event file descriptor of the controller, to be polled for interruptions.
    pub fn get_controller_fd(&self) -> (event_fd: i32)
        ensures
            event_fd == self.controller_descriptor(),
    {
        self.controller_fd
    }

    /// Handles a DNS response: `response_packet` is the packet that carries it to the tunnel, with
    /// the translated destination, if one could be built. Returns whether the response belongs into
    /// the DNS cache, which is the case for every response that is forwarded while there is a cache.
    pub fn handle_dns_response(
        &mut self,
        cache_available: bool,
        response_packet: Option<Vec<u8>>,
    ) -> (cache_response: bool)
        ensures
            final(self)@ == match response_packet {
                Some(packet) => old(self)@.push(packet@),
                None => old(self)@,
            },
            response_packet is None ==> final(self)@ == after_response(old(self)@, None),
            response_packet matches Some(packet) ==> final(self)@ == after_response(
                old(self)@,
                Some(packet@),
            ),
            cache_response == (response_packet is Some && cache_available),
            final(self).controller_descriptor() == old(self).controller_descriptor(),
    {
        match response_packet {
            Some(packet) => {
                let ghost before = self.device_writes@;
                self.device_writes.push_back(packet);
                assert(packet_views(self.device_writes@) =~= packet_views(before).push(packet@));
                cache_available
            },
            None => false,
        }
    }

    /// Starts an iteration of the main loop; names the first piece of work. The tunnel is watched
    /// for writing only while a packet waits for it.
    pub fn begin_iteration(&self) -> (work: IterationWork)
        ensures
            work@ == IterationView::RegisterTunnel(self@.len() > 0),
            work@ == first_work(self@),
    {
        IterationWork::RegisterTunnel(self.device_writes.len() > 0)
    }

    /// Takes the outcome of a piece of work and names the next one.
    pub fn advance_iteration(&mut self, work: IterationWork, outcome: IterationOutcome) -> (
    following: IterationWork)
        requires
            accepts(work@, outcome),
        ensures
            (final(self)@, following@) == next(old(self)@, work@, outcome),
            final(self).controller_descriptor() == old(self).controller_descriptor(),
    {
        match work {
            IterationWork::RegisterTunnel(_) => match outcome {
                IterationOutcome::Done => IterationWork::Poll,
                _ => IterationWork::Return(Err(VpnError::TunnelPollRegistrationFailure)),
            },
            IterationWork::Poll => match outcome {
                IterationOutcome::Polled(PollStatus::Failed, _) => IterationWork::Return(
                    Err(VpnError::PollFailure),
                ),
                IterationOutcome::Polled(_, events) => IterationWork::TakeStop(events),
                _ => IterationWork::Poll,
            },
            IterationWork::TakeStop(events) => match outcome {
                IterationOutcome::Stop(Some(result)) => IterationWork::Return(Ok(result)),
                _ => IterationWork::ProcessBackend(select_events(&events)),
            },
            IterationWork::ProcessBackend(selected) => match outcome {
                IterationOutcome::Done => {
                    if selected.write_to_device {
                        self.write_to_device(selected.read_from_device)
                    } else {
                        Self::read_or_finish(selected.read_from_device)
                    }
                },
                _ => IterationWork::Return(Err(VpnError::SourcePollRegistrationFailure)),
            },
            IterationWork::WriteTunnel(_, read_from_device) => match outcome {
                IterationOutcome::Done => Self::read_or_finish(read_from_device),
                _ => IterationWork::Return(Err(VpnError::TunnelWriteFailure)),
            },
            IterationWork::ReadTunnel => match outcome {
                IterationOutcome::Read(length) => {
                    if length == 0 {
                        IterationWork::DeregisterTunnel
                    } else {
                        IterationWork::HandleRequest(length)
                    }
                },
                _ => IterationWork::Return(Err(VpnError::TunnelReadFailure)),
            },
            IterationWork::HandleRequest(_) => match outcome {
                IterationOutcome::RequestFailed(error) => IterationWork::Return(Err(error)),
                _ => IterationWork::DeregisterTunnel,
            },
            IterationWork::DeregisterTunnel => match outcome {
                IterationOutcome::Done => IterationWork::Return(Ok(VpnResult::Continuing)),
                _ => IterationWork::Return(Err(VpnError::TunnelPollRegistrationFailure)),
            },
            IterationWork::Return(result) => IterationWork::Return(result),
        }
    }

    /// Takes the next packet for the tunnel.
    fn write_to_device(&mut self, read_from_device: bool) -> (following: IterationWork)
        ensures
            final(self)@ == (if old(self)@.len() == 0 {
                old(self)@
            } else {
                old(self)@.drop_first()
            }),
            following@ == (if old(self)@.len() == 0 {
                IterationView::Return(Err(VpnError::TunnelWriteFailure))
            } else {
                IterationView::WriteTunnel(old(self)@[0], read_from_device)
            }),
            final(self).controller_descriptor() == old(self).controller_descriptor(),
    {
        let ghost before = self.device_writes@;
        match self.device_writes.pop_front() {
            Some(packet) => {
                assert(packet_views(self.device_writes@) =~= packet_views(before).drop_first());
                IterationWork::WriteTunnel(packet, read_from_device)
            },
            None => IterationWork::Return(Err(VpnError::TunnelWriteFailure)),
        }
    }

    fn read_or_finish(read_from_device: bool) -> (following: IterationWork)
        ensures
            following@ == after_write(read_from_device),
    {
        if read_from_device {
            IterationWork::ReadTunnel
        } else {
            IterationWork::DeregisterTunnel
        }
    }
}

/// Packets reach the tunnel in the order in which they were queued, and none gets lost on the way: a
/// piece of work leaves the queue as it is, or takes its first packet to be written next.
pub proof fn law_packets_leave_in_order(
    writes: Seq<Seq<u8>>,
    work: IterationView,
    outcome: IterationOutcome,
)
    requires
        accepts(work, outcome),
    ensures
        ({
            let (after, following) = next(writes, work, outcome);
            match following {
                IterationView::WriteTunnel(packet, _) => writes == seq![packet] + after,
                _ => writes == after,
            }
        }),
{
    let (after, following) = next(writes, work, outcome);
    if let IterationView::WriteTunnel(packet, _) = following {
        assert(writes =~= seq![packet] + after);
    }
}

/// A write finds its packet: where the tunnel is reported as writable only if that was asked for,
/// which is while `writes` wait, and `received` are the packets that came in since, the iteration
/// does not fail for want of a packet.
pub proof fn law_write_finds_packet(
    writes: Seq<Seq<u8>>,
    received: Seq<Seq<u8>>,
    selected: SelectionView,
)
    requires
        selected.write_to_device ==> writes.len() > 0,
    ensures
        ({
            let (after, following) = after_backend(writes + received, selected);
            if selected.write_to_device {
                &&& following == IterationView::WriteTunnel(writes[0], selected.read_from_device)
                &&& after == writes.drop_first() + received
            } else {
                &&& following == after_write(selected.read_from_device)
                &&& after == writes + received
            }
        }),
{
    if selected.write_to_device {
        assert((writes + received).drop_first() =~= writes.drop_first() + received);
    }
}

/// What the poller reports behind an event of the controller is not looked at.
pub proof fn law_controller_hides_later_events(
    front: Seq<PollEvent>,
    controller: PollEvent,
    rest: Seq<PollEvent>,
)
    requires
        controller.token == VPN_CONTROLLER_TOKEN,
    ensures
        selection(front.push(controller) + rest) == selection(front),
{
    lemma_hidden_events(front, controller, rest);
}

proof fn lemma_hidden_events(front: Seq<PollEvent>, controller: PollEvent, rest: Seq<PollEvent>)
    requires
        controller.token == VPN_CONTROLLER_TOKEN,
    ensures
        before_controller(front.push(controller) + rest) == before_controller(front),
    decreases front.len(),
{
    let events = front.push(controller) + rest;
    if front.len() == 0 {
        assert(events[0] == controller);
    } else if front[0].token != VPN_CONTROLLER_TOKEN {
        lemma_hidden_events(front.drop_first(), controller, rest);
        assert(events.drop_first() =~= front.drop_first().push(controller) + rest);
    }
}

/// The events that go to the DNS backend are neither the tunnel's nor the controller's, and all such
/// events in front of the controller's first one go there, in their order.
pub proof fn law_backend_gets_its_events(events: Seq<PollEvent>)
    requires
        events.len() <= usize::MAX,
    ensures
        ({
            let indices = selection(events).backend_events;
            &&& forall|k: int|
                0 <= k < indices.len() ==> {
                    &&& (#[trigger] indices[k]) < events.len()
                    &&& events[indices[k] as int].token != VPN_TOKEN
                    &&& events[indices[k] as int].token != VPN_CONTROLLER_TOKEN
                }
            &&& forall|k: int, l: int|
                0 <= k < l < indices.len() ==> (#[trigger] indices[k]) < (#[trigger] indices[l])
            &&& forall|i: int|
                #![trigger events[i]]
                0 <= i < before_controller(events).len() && events[i].token != VPN_TOKEN
                    ==> indices.contains(i as usize)
        }),
{
    let seen = before_controller(events);
    lemma_seen_events(events);
    lemma_not_of_tunnel(seen);
    let indices = not_of_tunnel(seen);
    assert forall|k: int| 0 <= k < indices.len() implies {
        &&& (#[trigger] indices[k]) < events.len()
        &&& events[indices[k] as int].token != VPN_TOKEN
        &&& events[indices[k] as int].token != VPN_CONTROLLER_TOKEN
    } by {
        assert(seen[indices[k] as int] == events[indices[k] as int]);
    }
    assert forall|i: int|
        #![trigger events[i]]
        0 <= i < seen.len() && events[i].token != VPN_TOKEN implies indices.contains(i as usize) by {
        assert(seen[i] == events[i]);
    }
}

/// The events that are looked at stand in front, and none of them is the controller's.
pub proof fn lemma_seen_events(events: Seq<PollEvent>)
    ensures
        before_controller(events).len() <= events.len(),
        forall|i: int|
            0 <= i < before_controller(events).len() ==> {
                &&& #[trigger] before_controller(events)[i] == events[i]
                &&& events[i].token != VPN_CONTROLLER_TOKEN
            },
    decreases events.len(),
{
    if events.len() > 0 && events[0].token != VPN_CONTROLLER_TOKEN {
        let rest = events.drop_first();
        lemma_seen_events(rest);
        assert forall|i: int| 0 <= i < before_controller(events).len() implies {
            &&& #[trigger] before_controller(events)[i] == events[i]
            &&& events[i].token != VPN_CONTROLLER_TOKEN
        } by {
            if i > 0 {
                assert(before_controller(events)[i] == before_controller(rest)[i - 1]);
                assert(rest[i - 1] == events[i]);
            }
        }
    }
}

pub proof fn lemma_not_of_tunnel(events: Seq<PollEvent>)
    requires
        events.len() <= usize::MAX,
    ensures
        forall|k: int|
            0 <= k < not_of_tunnel(events).len() ==> {
                &&& (#[trigger] not_of_tunnel(events)[k]) < events.len()
                &&& events[not_of_tunnel(events)[k] as int].token != VPN_TOKEN
            },
        forall|k: int, l: int|
            0 <= k < l < not_of_tunnel(events).len() ==> (#[trigger] not_of_tunnel(events)[k]) < (
            #[trigger] not_of_tunnel(events)[l]),
        forall|i: int|
            #![trigger events[i]]
            0 <= i < events.len() && events[i].token != VPN_TOKEN ==> not_of_tunnel(
                events,
            ).contains(i as usize),
    decreases events.len(),
{
    if events.len() > 0 {
        let front = events.drop_last();
        lemma_not_of_tunnel(front);
        let indices = not_of_tunnel(events);
        let earlier = not_of_tunnel(front);
        assert forall|k: int| 0 <= k < indices.len() implies {
            &&& (#[trigger] indices[k]) < events.len()
            &&& events[indices[k] as int].token != VPN_TOKEN
        } by {
            if k < earlier.len() {
                assert(indices[k] == earlier[k]);
                assert(front[earlier[k] as int] == events[earlier[k] as int]);
            }
        }
        assert forall|k: int, l: int| 0 <= k < l < indices.len() implies (#[trigger] indices[k]) < (
        #[trigger] indices[l]) by {
            assert(indices[k] == earlier[k]);
            if l < earlier.len() {
                assert(indices[l] == earlier[l]);
            }
        }
        assert forall|i: int|
            #![trigger events[i]]
            0 <= i < events.len() && events[i].token != VPN_TOKEN implies indices.contains(
            i as usize,
        ) by {
            if i < front.len() {
                assert(front[i] == events[i]);
                let k = choose|k: int| 0 <= k < earlier.len() && earlier[k] == i as usize;
                assert(indices[k] == i as usize);
            } else {
                assert(indices[indices.len() - 1] == i as usize);
            }
        }
    }
}

/// How far an iteration is.
pub open spec fn stage(work: IterationView) -> int {
    match work {
        IterationView::RegisterTunnel(_) => 0,
        IterationView::Poll => 1,
        IterationView::TakeStop(_) => 2,
        IterationView::ProcessBackend(_) => 3,
        IterationView::WriteTunnel(_, _) => 4,
        IterationView::ReadTunnel => 5,
        IterationView::HandleRequest(_) => 6,
        IterationView::DeregisterTunnel => 7,
        IterationView::Return(_) => 8,
    }
}

/// An iteration comes to an end: every piece of work brings it further.
pub proof fn law_iteration_ends(
    writes: Seq<Seq<u8>>,
    work: IterationView,
    outcome: IterationOutcome,
)
    requires
        accepts(work, outcome),
    ensures
        stage(work) < stage(next(writes, work, outcome).1) <= 8,
{
}

/// An iteration ends with a reason to stop only if the controller gave it. Otherwise it ends with an
/// error, or the main loop goes on.
pub proof fn law_only_controller_stops(
    writes: Seq<Seq<u8>>,
    work: IterationView,
    outcome: IterationOutcome,
)
    requires
        accepts(work, outcome),
    ensures
        next(writes, work, outcome).1 matches IterationView::Return(Ok(result)) ==> {
            ||| work is TakeStop && outcome == IterationOutcome::Stop(Some(result))
            ||| work is DeregisterTunnel && result == VpnResult::Continuing
        },
{
}

/// Something that happens to the state of the VPN.
pub enum VpnStep {
    /// An iteration of the main loop begins.
    Begin,
    /// The current iteration's piece of work had this outcome.
    Advance(IterationOutcome),
    /// A DNS response comes in, and this packet carries it to the tunnel, if one could be built.
    Respond(Option<Seq<u8>>),
}

/// The packets that wait for the tunnel, and the piece of work that is asked for, after these steps
/// of a new VPN.
pub open spec fn reached(steps: Seq<VpnStep>) -> (Seq<Seq<u8>>, IterationView)
    decreases steps.len(),
{
    if steps.len() == 0 {
        (Seq::empty(), IterationView::Return(Ok(VpnResult::Continuing)))
    } else {
        let (writes, work) = reached(steps.drop_last());
        match steps.last() {
            VpnStep::Begin => (writes, first_work(writes)),
            VpnStep::Advance(outcome) => next(writes, work, outcome),
            VpnStep::Respond(response) => (after_response(writes, response), work),
        }
    }
}

/// Whether these steps can be taken one after the other: an iteration begins once the one before it
/// is over, and pieces of work have outcomes that they can have.
pub open spec fn is_life(steps: Seq<VpnStep>) -> bool
    decreases steps.len(),
{
    steps.len() == 0 || {
        let work = reached(steps.drop_last()).1;
        &&& is_life(steps.drop_last())
        &&& match steps.last() {
            VpnStep::Begin => work is Return,
            VpnStep::Advance(outcome) => accepts(work, outcome),
            VpnStep::Respond(_) => true,
        }
    }
}

/// The packets of all responses, in the order in which they came in.
pub open spec fn responses(steps: Seq<VpnStep>) -> Seq<Seq<u8>>
    decreases steps.len(),
{
    if steps.len() == 0 {
        Seq::empty()
    } else {
        match steps.last() {
            VpnStep::Respond(Some(packet)) => responses(steps.drop_last()).push(packet),
            _ => responses(steps.drop_last()),
        }
    }
}

/// The packets that were given out to be written to the tunnel, in their order.
pub open spec fn given_out(steps: Seq<VpnStep>) -> Seq<Seq<u8>>
    decreases steps.len(),
{
    if steps.len() == 0 {
        Seq::empty()
    } else {
        let earlier = given_out(steps.drop_last());
        match (steps.last(), reached(steps).1) {
            (VpnStep::Advance(_), IterationView::WriteTunnel(packet, _)) => earlier.push(packet),
            _ => earlier,
        }
    }
}

/// The responses reach the tunnel in the order in which they came in, none gets lost and none comes
/// twice: at any time those given out, followed by those that wait, are all of them.
pub proof fn law_responses_reach_the_tunnel_in_order(steps: Seq<VpnStep>)
    requires
        is_life(steps),
    ensures
        given_out(steps) + reached(steps).0 == responses(steps),
    decreases steps.len(),
{
    if steps.len() == 0 {
        assert(given_out(steps) + reached(steps).0 =~= responses(steps));
    } else {
        let before = steps.drop_last();
        law_responses_reach_the_tunnel_in_order(before);
        let (writes, work) = reached(before);
        match steps.last() {
            VpnStep::Advance(outcome) => {
                law_packets_leave_in_order(writes, work, outcome);
                let (after, following) = next(writes, work, outcome);
                if let IterationView::WriteTunnel(packet, _) = following {
                    assert(given_out(before).push(packet) + after =~= given_out(before) + writes);
                }
            },
            VpnStep::Respond(Some(packet)) => {
                assert(given_out(before) + writes.push(packet) =~= (given_out(before)
                    + writes).push(packet));
            },
            _ => {},
        }
    }
}

/// Whether the current iteration asked to hear when the tunnel is writable.
pub open spec fn asked_to_write(steps: Seq<VpnStep>) -> bool
    decreases steps.len(),
{
    steps.len() > 0 && match steps.last() {
        VpnStep::Begin => reached(steps.drop_last()).0.len() > 0,
        _ => asked_to_write(steps.drop_last()),
    }
}

/// Whether the poller reports the tunnel as writable only where it was asked to.
pub open spec fn honest_poller(steps: Seq<VpnStep>) -> bool
    decreases steps.len(),
{
    steps.len() == 0 || {
        &&& honest_poller(steps.drop_last())
        &&& steps.last() matches VpnStep::Advance(IterationOutcome::Polled(_, events)) ==> (
        selection(events@).write_to_device ==> asked_to_write(steps.drop_last()))
    }
}

/// No iteration fails for want of a packet to write, as long as the poller reports the tunnel as
/// writable only where it was asked to: an iteration fails to write only if the write itself fails,
/// or if the handling of a DNS request says so.
pub proof fn law_queue_is_not_empty_when_written(steps: Seq<VpnStep>, outcome: IterationOutcome)
    requires
        is_life(steps.push(VpnStep::Advance(outcome))),
        honest_poller(steps.push(VpnStep::Advance(outcome))),
        reached(steps.push(VpnStep::Advance(outcome))).1 == IterationView::Return(
            Err(VpnError::TunnelWriteFailure),
        ),
    ensures
        ({
            let work = reached(steps).1;
            ||| work is WriteTunnel && outcome is Failed
            ||| work is HandleRequest
        }),
{
    let longer = steps.push(VpnStep::Advance(outcome));
    assert(longer.drop_last() =~= steps);
    lemma_packet_waits(steps);
}

proof fn lemma_packet_waits(steps: Seq<VpnStep>)
    requires
        is_life(steps),
        honest_poller(steps),
    ensures
        ({
            let (writes, work) = reached(steps);
            match work {
                IterationView::RegisterTunnel(_)
                | IterationView::Poll => asked_to_write(steps) ==> writes.len() > 0,
                IterationView::TakeStop(events) => selection(events).write_to_device
                    ==> writes.len() > 0,
                IterationView::ProcessBackend(selected) => selected.write_to_device
                    ==> writes.len() > 0,
                _ => true,
            }
        }),
    decreases steps.len(),
{
    if steps.len() > 0 {
        lemma_packet_waits(steps.drop_last());
    }
}

} // verus!
