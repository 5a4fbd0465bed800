//! The controller with which the application interrupts the VPN.

use crate::status::VpnResult;
use vstd::prelude::*;

verus! {

/// The pending stop result after the application asked to stop with `result`: the first request
/// that was not taken yet stays, and `Continuing` is no reason to stop.
pub open spec fn pending_after_stop(pending: Option<VpnResult>, result: VpnResult) -> Option<
    VpnResult,
> {
    if pending is None && result != VpnResult::Continuing {
        Some(result)
    } else {
        pending
    }
}

/// Whether the event file descriptor is signalled when the application asks to stop with `result`:
/// exactly if that sets the stop result.
pub open spec fn signals(pending: Option<VpnResult>, result: VpnResult) -> bool {
    pending is None && result != VpnResult::Continuing
}

/// A call of the controller that concerns the stop result.
pub enum ControllerCall {
    Stop(VpnResult),
    GetStopResult,
}

/// The pending stop result and the counter of the event file descriptor after `calls` of a new
/// controller: a signal adds one to the counter, and taking a stop result sets it to zero.
pub open spec fn after_calls(calls: Seq<ControllerCall>) -> (Option<VpnResult>, nat)
    decreases calls.len(),
{
    if calls.len() == 0 {
        (None, 0)
    } else {
        let (pending, counter) = after_calls(calls.drop_last());
        match calls.last() {
            ControllerCall::Stop(result) => (
                pending_after_stop(pending, result),
                if signals(pending, result) {
                    counter + 1
                } else {
                    counter
                },
            ),
            ControllerCall::GetStopResult => (
                None,
                if pending is Some {
                    0
                } else {
                    counter
                },
            ),
        }
    }
}

/// Holds an event file descriptor and the stop result that is meant to interrupt the VPN loop.
///
/// While a stop result is pending, the event file descriptor is readable: whoever sets the result
/// signals the descriptor, and whoever takes it clears the descriptor (see
/// [`law_descriptor_follows_result`]).
pub struct VpnController {
    event_fd: i32,
    stop_result: Option<VpnResult>,
}

impl VpnController {
    #[verifier::type_invariant]
    spec fn never_stops_to_continue(self) -> bool {
        self.stop_result != Some(VpnResult::Continuing)
    }

    /// The stop result that has not been taken yet.
    pub closed spec fn pending(self) -> Option<VpnResult> {
        self.stop_result
    }

    /// The event file descriptor.
    pub closed spec fn descriptor(self) -> i32 {
        self.event_fd
    }

    /// Creates a controller around an event file descriptor, with no reason to stop.
    pub fn new(event_fd: i32) -> (controller: Self)
        ensures
            controller.pending() is None,
            controller.descriptor() == event_fd,
    {
        VpnController { event_fd, stop_result: None }
    }

    /// Returns whether the VPN has been given a reason to stop. The main loop should stop if the
    /// result is [Some]. If [None], it should be ignored.
    ///
    /// Once this function is called and the result is [Some], the result is cleared and the next
    /// call returns [None]; the caller then clears the event file descriptor.
    pub fn get_stop_result(&mut self) -> (stop_result: Option<VpnResult>)
        ensures
            stop_result == old(self).pending(),
            stop_result != Some(VpnResult::Continuing),
            final(self).pending() is None,
            final(self).descriptor() == old(self).descriptor(),
    {
        proof {
            use_type_invariant(&*self);
        }
        let stop_result = self.stop_result;
        self.stop_result = None;
        stop_result
    }

    /// Sets the reason to stop, unless one is pending already or `result` is no reason to stop.
    /// Returns whether it was set; the caller then signals the event file descriptor.
    pub fn stop(&mut self, result: VpnResult) -> (signal: bool)
        ensures
            final(self).pending() == pending_after_stop(old(self).pending(), result),
            signal == signals(old(self).pending(), result),
            final(self).descriptor() == old(self).descriptor(),
    {
        if result == VpnResult::Continuing {
            return false;
        }
        if self.stop_result.is_none() {
            self.stop_result = Some(result);
            true
        } else {
            false
        }
    }

    /// Returns the event file descriptor.
    pub fn get_event_fd(&self) -> (event_fd: i32)
        ensures
            event_fd == self.descriptor(),
    {
        self.event_fd
    }
}

/// Of several requests to stop, the first one that is a reason to stop is the one that the main
/// loop sees, whatever is asked afterwards.
pub proof fn law_first_stop_wins(first: VpnResult, second: VpnResult)
    requires
        first != VpnResult::Continuing,
    ensures
        pending_after_stop(None, first) == Some(first),
        pending_after_stop(pending_after_stop(None, first), second) == Some(first),
{
}

/// The event file descriptor tells of the stop result: whatever was called before, its counter is one
/// while a stop result is pending, and zero otherwise.
pub proof fn law_descriptor_follows_result(calls: Seq<ControllerCall>)
    ensures
        after_calls(calls).1 == if after_calls(calls).0 is Some {
            1nat
        } else {
            0nat
        },
    decreases calls.len(),
{
    if calls.len() > 0 {
        law_descriptor_follows_result(calls.drop_last());
    }
}

/// A request to go on never becomes a stop result.
pub proof fn law_continuing_never_stops(pending: Option<VpnResult>)
    ensures
        pending_after_stop(pending, VpnResult::Continuing) == pending,
{
}

} // verus!
