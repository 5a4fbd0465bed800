//! What the VPN reports to the application that started it.

use vstd::prelude::*;

verus! {

/// Represents the current status of the VPN.
pub enum VpnStatus {
    Stopped,
    Starting,
    Stopping,
    WaitingForNetwork,
    Reconnecting,
    Running,
}

impl VpnStatus {
    /// The number under which the application knows the status.
    pub open spec fn code_view(self) -> i32 {
        match self {
            VpnStatus::Stopped => 0,
            VpnStatus::Starting => 1,
            VpnStatus::Stopping => 2,
            VpnStatus::WaitingForNetwork => 3,
            VpnStatus::Reconnecting => 4,
            VpnStatus::Running => 5,
        }
    }

    /// Returns the number under which the application knows the status.
    pub fn code(&self) -> (code: i32)
        ensures
            code == self.code_view(),
    {
        match self {
            VpnStatus::Stopped => 0,
            VpnStatus::Starting => 1,
            VpnStatus::Stopping => 2,
            VpnStatus::WaitingForNetwork => 3,
            VpnStatus::Reconnecting => 4,
            VpnStatus::Running => 5,
        }
    }
}

/// Represents the possible results that can occur in the VPN.
#[derive(PartialEq, Eq, Structural, PartialOrd, Debug, Clone, Copy)]
pub enum VpnResult {
    /// The loop should continue.
    Continuing,
    /// The loop should stop.
    Stopping,
    /// The loop should stop, the VPN should be reconfigured, and then the loop should start again.
    Reconnecting,
}

/// Represents the possible errors that can occur in the VPN.
#[derive(PartialEq, Eq, Structural, Debug, Clone, Copy)]
pub enum VpnError {
    /// Failed to set up polling for the tunnel file descriptor.
    TunnelPollRegistrationFailure,
    /// Failed to set up polling for a source.
    SourcePollRegistrationFailure,
    /// Failed to write to the tunnel file descriptor.
    TunnelWriteFailure,
    /// Failed to read from the tunnel file descriptor.
    TunnelReadFailure,
    /// Poll returned an error.
    PollFailure,
    /// Not connected to a network.
    NoNetwork,
    /// Failed to create the tunnel file descriptor.
    ConfigurationFailure,
    /// All DNS servers provided were invalid.
    InvalidDnsServers,
    /// Failed to send or receive data on a socket.
    SocketFailure,
}

/// The statuses are numbered from zero, in the order in which they are declared.
pub proof fn law_status_numbers(status: VpnStatus)
    ensures
        status is Stopped <==> status.code_view() == 0,
        status is Starting <==> status.code_view() == 1,
        status is Stopping <==> status.code_view() == 2,
        status is WaitingForNetwork <==> status.code_view() == 3,
        status is Reconnecting <==> status.code_view() == 4,
        status is Running <==> status.code_view() == 5,
{
}

} // verus!
