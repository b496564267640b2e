//! Consumer-owned ports for hardware and protocol adapters.
use vstd::prelude::*;
use crate::audio::{CaptureBatch, InputFault, InputHealth};
use crate::domain::ids::TransmissionId;
use crate::protocol::{Ft8Decode, Ft8WaveformError, Ft8WaveformRequest, PcmBuffer};

verus! {

/// Receive-only audio boundary consumed by operations outside the callback.
pub trait ReceiveAudioPort {
    /// Returns current owned input health or the next deterministic fault.
    fn health(&mut self) -> Result<InputHealth, InputFault>;

    /// Drains one already-bounded batch without blocking.
    fn next_batch(&mut self) -> Result<Option<CaptureBatch>, InputFault>;
}

/// Protocol boundary consumed by operations.
pub trait ProtocolPort {
    /// Drains deterministically ordered owned FT8 decodes.
    fn drain_decodes(&mut self) -> Vec<Ft8Decode>;

    /// Returns deterministic offline samples for an owned FT8 request.
    fn prepare_waveform(&mut self, request: &Ft8WaveformRequest) -> Result<PcmBuffer, Ft8WaveformError>;
}

/// Typed reason the logical transmit-supervisor port refuses admission.
#[derive(Debug, Clone, PartialEq, Eq)]
pub enum TxInhibition {
    /// No explicit unexpired authority exists.
    MissingAuthority,
    /// Clock health is unsuitable for synchronized work.
    ClockUnhealthy,
    /// Rig state is unsuitable or unverified.
    RigUnavailable,
    /// Audio state is unsuitable or unverified.
    AudioUnavailable,
    /// Another logical transmission conflicts with this identity.
    Conflict(TransmissionId),
    /// Emergency-stop inhibition is latched.
    EmergencyStopLatched,
}

/// The fixed description of an inhibition, before any conflicting identity.
pub open spec fn inhibition_text(i: TxInhibition) -> Seq<char> {
    match i {
        TxInhibition::MissingAuthority => "transmit authority is missing or expired"@,
        TxInhibition::ClockUnhealthy => "clock is unhealthy"@,
        TxInhibition::RigUnavailable => "rig is unavailable or unverified"@,
        TxInhibition::AudioUnavailable => "audio is unavailable or unverified"@,
        TxInhibition::Conflict(id) => "transmission conflicts with "@ + id@,
        TxInhibition::EmergencyStopLatched => "emergency stop is latched"@,
    }
}

impl TxInhibition {
    /// Stable human-readable description.
    pub fn message(&self) -> (res: String)
        ensures
            res@ == inhibition_text(*self),
    {
        match self {
            TxInhibition::MissingAuthority => "transmit authority is missing or expired".to_owned(),
            TxInhibition::ClockUnhealthy => "clock is unhealthy".to_owned(),
            TxInhibition::RigUnavailable => "rig is unavailable or unverified".to_owned(),
            TxInhibition::AudioUnavailable => "audio is unavailable or unverified".to_owned(),
            TxInhibition::Conflict(id) => {
                let mut text = "transmission conflicts with ".to_owned();
                text.append(id.as_str());
                text
            },
            TxInhibition::EmergencyStopLatched => "emergency stop is latched".to_owned(),
        }
    }
}

/// Failure of the logical emergency-unkey request.
#[derive(Debug, Clone, Copy, PartialEq, Eq, Structural)]
pub enum EmergencyUnkeyError {
    /// The adapter reports PTT stuck asserted.
    PttStuck,
}

impl EmergencyUnkeyError {
    /// Stable human-readable description.
    pub fn message(self) -> (res: &'static str)
        ensures
            res@ == "logical PTT state remains asserted"@,
    {
        "logical PTT state remains asserted"
    }
}

/// Sole logical admission and emergency-unkey boundary for transmission.
pub trait TransmitSupervisorPort {
    /// Checks whether a logical transmission identity may be admitted.
    fn admit_transmission(&mut self, transmission_id: &TransmissionId) -> Result<(), TxInhibition>;

    /// Bypasses ordinary admission to request immediate unkey.
    fn emergency_unkey(&mut self) -> Result<(), EmergencyUnkeyError>;
}

} // verus!
