//! What the pieces of work of an iteration of the main loop are for: what becomes of events, packets
//! and errors.

use crate::status::{VpnError, VpnResult};
use crate::vpn;
use crate::vpn::{
    IterationOutcome, IterationView, PollEvent, PollStatus, SelectionView,
};
use vstd::prelude::*;

verus! {

/// An iteration that fails with `error` and leaves the packets alone.
pub open spec fn fails_with(
    writes: Seq<Seq<u8>>,
    reached: (Seq<Seq<u8>>, IterationView),
    error: VpnError,
) -> bool {
    reached.0 == writes && reached.1 == IterationView::Return(Err(error))
}

/// Every outcome that the outside can report is one that the iteration takes, whatever it carries.
pub proof fn law_iteration_takes_every_outcome(
    flag: bool,
    seen: Seq<PollEvent>,
    status: PollStatus,
    events: Vec<PollEvent>,
    stop: Option<VpnResult>,
    selected: SelectionView,
    packet: Seq<u8>,
    length: usize,
    error: VpnError,
)
    ensures
        vpn::accepts(IterationView::RegisterTunnel(flag), IterationOutcome::Done),
        vpn::accepts(IterationView::RegisterTunnel(flag), IterationOutcome::Failed),
        vpn::accepts(IterationView::Poll, IterationOutcome::Polled(status, events)),
        vpn::accepts(IterationView::TakeStop(seen), IterationOutcome::Stop(stop)),
        vpn::accepts(IterationView::ProcessBackend(selected), IterationOutcome::Done),
        vpn::accepts(IterationView::ProcessBackend(selected), IterationOutcome::Failed),
        vpn::accepts(IterationView::WriteTunnel(packet, flag), IterationOutcome::Done),
        vpn::accepts(IterationView::WriteTunnel(packet, flag), IterationOutcome::Failed),
        vpn::accepts(IterationView::ReadTunnel, IterationOutcome::Read(length)),
        vpn::accepts(IterationView::ReadTunnel, IterationOutcome::Failed),
        vpn::accepts(IterationView::HandleRequest(length), IterationOutcome::Done),
        vpn::accepts(IterationView::HandleRequest(length), IterationOutcome::RequestFailed(error)),
        vpn::accepts(IterationView::DeregisterTunnel, IterationOutcome::Done),
        vpn::accepts(IterationView::DeregisterTunnel, IterationOutcome::Failed),
{
}

/// Every packet that is read from the tunnel is handled, with the length that was read; only an empty
/// read is ignored. Whether the packet was handled or ignored, the iteration then ends; a request that
/// fails ends it with that error, and a read that fails ends it, too.
pub proof fn law_packets_from_the_tunnel_are_handled(
    writes: Seq<Seq<u8>>,
    length: usize,
    error: VpnError,
)
    ensures
        length > 0 ==> vpn::next(
            writes,
            IterationView::ReadTunnel,
            IterationOutcome::Read(length),
        ) == (writes, IterationView::HandleRequest(length)),
        vpn::next(writes, IterationView::ReadTunnel, IterationOutcome::Read(0)) == (
            writes,
            IterationView::DeregisterTunnel,
        ),
        fails_with(
            writes,
            vpn::next(writes, IterationView::ReadTunnel, IterationOutcome::Failed),
            VpnError::TunnelReadFailure,
        ),
        vpn::next(writes, IterationView::HandleRequest(length), IterationOutcome::Done) == (
            writes,
            IterationView::DeregisterTunnel,
        ),
        fails_with(
            writes,
            vpn::next(
                writes,
                IterationView::HandleRequest(length),
                IterationOutcome::RequestFailed(error),
            ),
            error,
        ),
{
}

/// Once the tunnel is registered it is polled with everything else, and once it is deregistered the
/// iteration is over and the main loop goes on; where either fails the iteration fails.
pub proof fn law_tunnel_is_registered_and_deregistered(writes: Seq<Seq<u8>>, writable: bool)
    ensures
        vpn::next(writes, IterationView::RegisterTunnel(writable), IterationOutcome::Done) == (
            writes,
            IterationView::Poll,
        ),
        fails_with(
            writes,
            vpn::next(
                writes,
                IterationView::RegisterTunnel(writable),
                IterationOutcome::Failed,
            ),
            VpnError::TunnelPollRegistrationFailure,
        ),
        vpn::next(writes, IterationView::DeregisterTunnel, IterationOutcome::Done) == (
            writes,
            IterationView::Return(Ok(VpnResult::Continuing)),
        ),
        fails_with(
            writes,
            vpn::next(writes, IterationView::DeregisterTunnel, IterationOutcome::Failed),
            VpnError::TunnelPollRegistrationFailure,
        ),
{
}

/// A poll that fails ends the iteration; one that is ready or was interrupted does not, and its events
/// are kept while the controller is asked. Whatever the controller gives as a reason to stop ends the
/// iteration; without one the backend gets to work.
pub proof fn law_controller_is_asked_after_each_poll(
    writes: Seq<Seq<u8>>,
    events: Vec<PollEvent>,
    seen: Seq<PollEvent>,
    result: VpnResult,
)
    ensures
        vpn::next(
            writes,
            IterationView::Poll,
            IterationOutcome::Polled(PollStatus::Ready, events),
        ) == (writes, IterationView::TakeStop(events@)),
        vpn::next(
            writes,
            IterationView::Poll,
            IterationOutcome::Polled(PollStatus::Interrupted, events),
        ) == (writes, IterationView::TakeStop(events@)),
        fails_with(
            writes,
            vpn::next(
                writes,
                IterationView::Poll,
                IterationOutcome::Polled(PollStatus::Failed, events),
            ),
            VpnError::PollFailure,
        ),
        vpn::next(
            writes,
            IterationView::TakeStop(seen),
            IterationOutcome::Stop(Some(result)),
        ) == (writes, IterationView::Return(Ok(result))),
        ({
            let (after, following) = vpn::next(
                writes,
                IterationView::TakeStop(seen),
                IterationOutcome::Stop(None),
            );
            &&& after == writes
            &&& following is ProcessBackend
        }),
{
}

/// Whether the event at `index` is seen: no event up to it is the controller's.
pub open spec fn is_seen(events: Seq<PollEvent>, index: int) -> bool {
    &&& 0 <= index < events.len()
    &&& forall|i: int| 0 <= i <= index ==> (#[trigger] events[i]).token != usize::MAX - 1
}

/// What the backend gets to work with, and what is then done with the tunnel: the tunnel is read
/// exactly if an event that is seen says that it can be read, and written exactly if one says that it
/// can be written; the backend gets exactly the events that are seen and are not the tunnel's, each of
/// them once and in their order.
pub proof fn law_events_decide(events: Seq<PollEvent>, writes: Seq<Seq<u8>>)
    requires
        events.len() <= usize::MAX,
    ensures
        ({
            let following = vpn::next(
                writes,
                IterationView::TakeStop(events),
                IterationOutcome::Stop(None),
            ).1;
            let selected = following->ProcessBackend_0;
            let indices = selected.backend_events;
            &&& following is ProcessBackend
            &&& selected == vpn::selection(events)
            &&& selected.read_from_device <==> exists|i: int|
                #![trigger events[i]]
                is_seen(events, i) && events[i].token == usize::MAX && events[i].readable
            &&& selected.write_to_device <==> exists|i: int|
                #![trigger events[i]]
                is_seen(events, i) && events[i].token == usize::MAX && events[i].writable
            &&& forall|i: int|
                #![trigger events[i]]
                0 <= i < events.len() ==> (indices.contains(i as usize) <==> is_seen(events, i)
                    && events[i].token != usize::MAX)
            &&& forall|k: int|
                0 <= k < indices.len() ==> (#[trigger] indices[k]) < events.len()
            &&& forall|k: int, l: int|
                0 <= k < l < indices.len() ==> (#[trigger] indices[k]) < (#[trigger] indices[l])
        }),
{
    let seen = vpn::before_controller(events);
    let selected = vpn::selection(events);
    let indices = selected.backend_events;
    vpn::law_backend_gets_its_events(events);
    vpn::lemma_seen_events(events);
    lemma_first_hidden(events);
    assert forall|i: int| #![trigger events[i]] 0 <= i < events.len() implies (is_seen(events, i)
        <==> i < seen.len()) by {
        if i < seen.len() {
            assert forall|j: int| 0 <= j <= i implies (#[trigger] events[j]).token != usize::MAX
                - 1 by {
                assert(seen[j] == events[j]);
            }
        } else {
            assert(events[seen.len() as int].token == usize::MAX - 1);
        }
    }
    assert forall|i: int|
        #![trigger events[i]]
        0 <= i < events.len() implies (indices.contains(i as usize) <==> is_seen(events, i)
        && events[i].token != usize::MAX) by {
        if indices.contains(i as usize) {
            let k = choose|k: int| 0 <= k < indices.len() && indices[k] == i as usize;
            vpn::lemma_not_of_tunnel(seen);
            assert(indices[k] < seen.len());
        }
    }
    assert(forall|i: int| 0 <= i < seen.len() ==> #[trigger] seen[i] == events[i]);
    assert(forall|i: int| 0 <= i < seen.len() ==> #[trigger] events[i] == seen[i]);
}

/// The first event that is not seen is the controller's.
proof fn lemma_first_hidden(events: Seq<PollEvent>)
    ensures
        ({
            let count = vpn::before_controller(events).len() as int;
            count < events.len() ==> events[count].token == usize::MAX - 1
        }),
    decreases events.len(),
{
    if events.len() > 0 && events[0].token != vpn::VPN_CONTROLLER_TOKEN {
        lemma_first_hidden(events.drop_first());
    }
}

/// Once the backend is done, the oldest packet is written where the tunnel can be written, and the
/// others wait; the tunnel is then read where it can be read, and else deregistered. A write is asked
/// for in vain only where no packet waits. A backend that fails ends the iteration.
pub proof fn law_oldest_packet_is_written(
    writes: Seq<Seq<u8>>,
    selected: SelectionView,
    packet: Seq<u8>,
    read: bool,
)
    ensures
        ({
            let (after, following) = vpn::next(
                writes,
                IterationView::ProcessBackend(selected),
                IterationOutcome::Done,
            );
            if selected.write_to_device && writes.len() > 0 {
                &&& following == IterationView::WriteTunnel(writes[0], selected.read_from_device)
                &&& seq![writes[0]] + after == writes
            } else if selected.write_to_device {
                &&& following == IterationView::Return(Err(VpnError::TunnelWriteFailure))
                &&& after == writes
            } else if selected.read_from_device {
                &&& following == IterationView::ReadTunnel
                &&& after == writes
            } else {
                &&& following == IterationView::DeregisterTunnel
                &&& after == writes
            }
        }),
        fails_with(
            writes,
            vpn::next(
                writes,
                IterationView::ProcessBackend(selected),
                IterationOutcome::Failed,
            ),
            VpnError::SourcePollRegistrationFailure,
        ),
        vpn::next(
            writes,
            IterationView::WriteTunnel(packet, true),
            IterationOutcome::Done,
        ) == (writes, IterationView::ReadTunnel),
        vpn::next(
            writes,
            IterationView::WriteTunnel(packet, false),
            IterationOutcome::Done,
        ) == (writes, IterationView::DeregisterTunnel),
        fails_with(
            writes,
            vpn::next(
                writes,
                IterationView::WriteTunnel(packet, read),
                IterationOutcome::Failed,
            ),
            VpnError::TunnelWriteFailure,
        ),
{
    if selected.write_to_device && writes.len() > 0 {
        let after = vpn::next(
            writes,
            IterationView::ProcessBackend(selected),
            IterationOutcome::Done,
        ).0;
        assert(seq![writes[0]] + after =~= writes);
    }
}

/// Every response that could be built waits behind those that came in before it, whole, however long it
/// is and however many wait; any other one changes nothing. The tunnel is watched for writing exactly
/// while a response waits.
pub proof fn law_responses_wait_in_line(writes: Seq<Seq<u8>>, packet: Seq<u8>)
    ensures
        vpn::after_response(writes, Some(packet)) == writes + seq![packet],
        vpn::after_response(writes, None) == writes,
        vpn::first_work(Seq::empty()) == IterationView::RegisterTunnel(false),
        writes.len() > 0 ==> vpn::first_work(writes) == IterationView::RegisterTunnel(true),
{
    assert(writes.push(packet) =~= writes + seq![packet]);
}

} // verus!
