use vstd::prelude::*;

verus! {

/// Why bring-up stopped. Every one of these is fatal for the run.
#[derive(Clone, Copy, PartialEq, Eq, Structural, Debug)]
pub enum BringUpError {
    /// The core or device peripherals were already claimed in this process.
    ResourceAlreadyClaimed,
    /// The sensor did not answer, or answered wrongly, during its handshake.
    SensorHandshakeFailure,
    /// The sensor rejected the sample-rate write.
    SensorConfigurationFailure,
    /// The sensor did not accept the continuous-mode command.
    ModeTransitionFailure,
}

} // verus!
