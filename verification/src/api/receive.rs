//! Version-2 receive-only wire vocabulary.
use vstd::prelude::*;
use crate::api::CanonicalizationError;
use crate::domain::ids::ReceiveWindowId;
use crate::text::utf8;

verus! {

/// A public receive payload exceeded its fixed collection/text bound.
#[derive(Debug, Clone, Copy, PartialEq, Eq, Structural)]
pub enum WireBoundError {
    /// One or more fields exceeded a documented bound.
    Exceeded,
}

/// Maximum input devices returned by one discovery response.
pub const MAX_INPUT_DEVICES: usize = 64;
/// Maximum exact configurations returned for one device.
pub const MAX_INPUT_CONFIGURATIONS: usize = 64;
/// Maximum receive records in one history response.
pub const MAX_RECEIVE_HISTORY_PAGE: u16 = 100;
/// Maximum decode outcomes in one public receive record.
pub const MAX_RECEIVE_DECODES: usize = 128;
/// Maximum bins in one public waterfall frame.
pub const MAX_WATERFALL_BINS: usize = 2_048;
/// Maximum bytes of an identity or display text on the wire.
pub const MAX_WIRE_TEXT_BYTES: usize = 256;

/// Portable platform family owning a stable input identity.
#[derive(Debug, Clone, Copy, PartialEq, Eq, Structural)]
pub enum InputPlatform {
    /// macOS Core Audio.
    MacOsCoreAudio,
    /// Windows WASAPI.
    WindowsWasapi,
    /// Linux ALSA.
    LinuxAlsa,
    /// Linux JACK.
    LinuxJack,
}

/// Stable device identity. Display metadata is structurally excluded.
#[derive(Debug, Clone, PartialEq, Eq)]
pub struct InputDeviceIdentity {
    /// Platform family defining the opaque value.
    pub platform: InputPlatform,
    /// Stable platform-owned identity.
    pub opaque_id: String,
}

/// Supported input sample representation.
#[derive(Debug, Clone, Copy, PartialEq, Eq, Structural)]
pub enum InputSampleFormat {
    /// Signed 8-bit integer.
    Signed8,
    /// Signed 16-bit integer.
    Signed16,
    /// Signed 24-bit integer.
    Signed24,
    /// Signed 32-bit integer.
    Signed32,
    /// Signed 64-bit integer.
    Signed64,
    /// Unsigned 8-bit integer.
    Unsigned8,
    /// Unsigned 16-bit integer.
    Unsigned16,
    /// Unsigned 24-bit integer.
    Unsigned24,
    /// Unsigned 32-bit integer.
    Unsigned32,
    /// Unsigned 64-bit integer.
    Unsigned64,
    /// IEEE 754 32-bit float.
    Float32,
    /// IEEE 754 64-bit float.
    Float64,
}

/// Exact selected input format and channel.
#[derive(Debug, Clone, Copy, PartialEq, Eq, Structural)]
pub struct InputConfiguration {
    /// Source frames per second.
    pub sample_rate_hz: u32,
    /// Interleaved source channels.
    pub channels: u16,
    /// Source sample representation.
    pub sample_format: InputSampleFormat,
    /// Zero-based selected receive channel.
    pub selected_channel: u16,
}

/// Explicit receive selection.
#[derive(Debug, Clone, PartialEq, Eq)]
pub struct ReceiveSelection {
    /// Stable device identity.
    pub device_identity: InputDeviceIdentity,
    /// Exact input configuration.
    pub configuration: InputConfiguration,
}

/// An ASCII control byte.
pub open spec fn is_ascii_control(b: u8) -> bool {
    b < 0x20 || b == 0x7f
}

/// Whether a receive selection names a well-formed identity and configuration.
pub open spec fn selection_ok(s: ReceiveSelection) -> bool {
    let id = utf8(s.device_identity.opaque_id@);
    &&& 0 < id.len() <= MAX_WIRE_TEXT_BYTES
    &&& forall|i: int| 0 <= i < id.len() ==> !is_ascii_control(#[trigger] id[i])
    &&& 8_000 <= s.configuration.sample_rate_hz <= 384_000
    &&& 1 <= s.configuration.channels <= 32
    &&& s.configuration.selected_channel < s.configuration.channels
}

impl ReceiveSelection {
    /// Checks the identity text and the configuration shape.
    pub fn validate(&self) -> (res: Result<(), CanonicalizationError>)
        ensures
            match res {
                Ok(()) => selection_ok(*self),
                Err(e) => !selection_ok(*self) && e == CanonicalizationError::InvalidReceiveCommand,
            },
    {
        let id = self.device_identity.opaque_id.as_str().as_bytes();
        if id.len() == 0 || id.len() > MAX_WIRE_TEXT_BYTES {
            return Err(CanonicalizationError::InvalidReceiveCommand);
        }
        let mut i: usize = 0;
        while i < id.len()
            invariant
                i <= id@.len(),
                id@ == utf8(self.device_identity.opaque_id@),
                forall|j: int| 0 <= j < i ==> !is_ascii_control(#[trigger] id@[j]),
            decreases id@.len() - i,
        {
            if id[i] < 0x20 || id[i] == 0x7f {
                assert(is_ascii_control(id@[i as int]));
                return Err(CanonicalizationError::InvalidReceiveCommand);
            }
            i = i + 1;
        }
        let c = self.configuration;
        if c.sample_rate_hz < 8_000 || c.sample_rate_hz > 384_000 || c.channels == 0 || c.channels > 32
            || c.selected_channel >= c.channels {
            return Err(CanonicalizationError::InvalidReceiveCommand);
        }
        Ok(())
    }
}

/// One discovered device with bounded display metadata and configurations.
#[derive(Debug, Clone, PartialEq, Eq)]
pub struct InputDevice {
    /// Stable identity used for selection.
    pub identity: InputDeviceIdentity,
    /// Non-identifying display label.
    pub display_name: String,
    /// Optional display manufacturer.
    pub manufacturer: Option<String>,
    /// Bounded selectable configuration ranges.
    pub configuration_ranges: Vec<InputConfigurationRange>,
}

/// One bounded selectable input configuration range.
#[derive(Debug, Clone, Copy, PartialEq, Eq, Structural)]
pub struct InputConfigurationRange {
    /// Inclusive minimum sample rate.
    pub min_sample_rate_hz: u32,
    /// Inclusive maximum sample rate.
    pub max_sample_rate_hz: u32,
    /// Interleaved channel count.
    pub channels: u16,
    /// Source sample representation.
    pub sample_format: InputSampleFormat,
}

/// Bounded discovery result.
#[derive(Debug, Clone, PartialEq, Eq)]
pub struct InputDevicePage {
    /// Devices in deterministic adapter order.
    pub devices: Vec<InputDevice>,
}

/// Whether one discovered device respects the wire bounds.
pub open spec fn device_ok(d: InputDevice) -> bool {
    &&& 0 < utf8(d.identity.opaque_id@).len() <= MAX_WIRE_TEXT_BYTES
    &&& 0 < utf8(d.display_name@).len() <= MAX_WIRE_TEXT_BYTES
    &&& d.manufacturer matches Some(m) ==> utf8(m@).len() <= MAX_WIRE_TEXT_BYTES
    &&& 0 < d.configuration_ranges@.len() <= MAX_INPUT_CONFIGURATIONS
}

fn device_within_bounds(d: &InputDevice) -> (res: bool)
    ensures
        res == device_ok(*d),
{
    let id_len = d.identity.opaque_id.as_str().as_bytes().len();
    let name_len = d.display_name.as_str().as_bytes().len();
    let manufacturer_ok = match &d.manufacturer {
        Some(m) => m.as_str().as_bytes().len() <= MAX_WIRE_TEXT_BYTES,
        None => true,
    };
    id_len > 0 && id_len <= MAX_WIRE_TEXT_BYTES && name_len > 0 && name_len <= MAX_WIRE_TEXT_BYTES && manufacturer_ok
        && d.configuration_ranges.len() > 0 && d.configuration_ranges.len() <= MAX_INPUT_CONFIGURATIONS
}

impl InputDevicePage {
    /// Validates discovery response bounds.
    pub fn validate(&self) -> (res: Result<(), WireBoundError>)
        ensures
            match res {
                Ok(()) => self.devices@.len() <= MAX_INPUT_DEVICES && forall|i: int| 0 <= i < self.devices@.len() ==> device_ok(#[trigger] self.devices@[i]),
                Err(e) => e == WireBoundError::Exceeded && !(self.devices@.len() <= MAX_INPUT_DEVICES
                    && forall|i: int| 0 <= i < self.devices@.len() ==> device_ok(#[trigger] self.devices@[i])),
            },
    {
        if self.devices.len() > MAX_INPUT_DEVICES {
            return Err(WireBoundError::Exceeded);
        }
        let mut i: usize = 0;
        while i < self.devices.len()
            invariant
                i <= self.devices@.len(),
                forall|j: int| 0 <= j < i ==> device_ok(#[trigger] self.devices@[j]),
            decreases self.devices@.len() - i,
        {
            if !device_within_bounds(&self.devices[i]) {
                return Err(WireBoundError::Exceeded);
            }
            i = i + 1;
        }
        Ok(())
    }
}

/// Stable receive inhibition/fault category.
#[derive(Debug, Clone, Copy, PartialEq, Eq, Structural)]
pub enum ReceiveInhibitionKind {
    /// Receive service is unavailable in this composition.
    ServiceUnavailable,
    /// Exact input could not start or disappeared.
    DeviceUnavailable,
    /// Callback or worker capacity overflowed.
    Overflow,
    /// Capture continuity was invalidated.
    Discontinuity,
    /// UTC/monotonic mapping is unhealthy.
    ClockUnhealthy,
    /// Canonical timeline rejected evidence.
    TimelineInvalid,
    /// Offline decoder failed.
    DecoderFailed,
    /// Durable receive transaction failed.
    StorageFailed,
    /// Cancellation stopped receive.
    Cancelled,
}

/// Public receive lifecycle.
#[derive(Debug, Clone, Copy, PartialEq, Eq, Structural)]
pub enum ReceiveLifecycleSnapshot {
    /// No input resource exists.
    Stopped {
        /// Last issued stream generation.
        last_stream_generation: u64,
    },
    /// Exact input is opening.
    Starting {
        /// Reserved fresh stream generation.
        stream_generation: u64,
    },
    /// Receive worker is active.
    Receiving {
        /// Current stream generation.
        stream_generation: u64,
    },
    /// Receive stopped on explicit failure.
    Inhibited {
        /// Failed stream generation.
        stream_generation: u64,
        /// Stable fault category.
        reason: ReceiveInhibitionKind,
    },
    /// Input resources are being released.
    Stopping {
        /// Stream generation being stopped.
        stream_generation: u64,
    },
}

/// Bounded audio health in explicit integer units.
#[derive(Debug, Clone, Copy, PartialEq, Eq, Structural)]
pub struct ReceiveAudioHealth {
    /// Estimated input latency.
    pub latency_millis: u32,
    /// Estimated signed drift.
    pub drift_parts_per_million: i32,
    /// Callback queue overflow count.
    pub overflow_count: u64,
    /// Clipped sample count.
    pub clipped_sample_count: u64,
    /// Greatest callback delay.
    pub max_callback_delay_millis: u32,
}

/// Public clock health.
#[derive(Debug, Clone, Copy, PartialEq, Eq, Structural)]
pub enum ReceiveClockHealth {
    /// Mapping is fresh and usable.
    Healthy {
        /// Age of accepted mapping.
        mapping_age_millis: u64,
    },
    /// Mapping is latched unhealthy.
    Unhealthy {
        /// Stable fault category.
        reason: ReceiveInhibitionKind,
        /// Recovery observations completed.
        recovery_progress: u8,
        /// Recovery observations required.
        recovery_required: u8,
        /// Age of last accepted mapping.
        mapping_age_millis: u64,
    },
}

/// Current receive state and optional live health.
#[derive(Debug, Clone, PartialEq, Eq)]
pub struct ReceiveStatus {
    /// Current lifecycle.
    pub lifecycle: ReceiveLifecycleSnapshot,
    /// Exact configured selection, if any.
    pub selection: Option<ReceiveSelection>,
    /// Latest audio health, if capture has produced evidence.
    pub audio: Option<ReceiveAudioHealth>,
    /// Latest clock health, if a monitor exists.
    pub clock: Option<ReceiveClockHealth>,
}

impl ReceiveStatus {
    /// Inactive restart-safe status.
    pub fn stopped() -> (res: Self)
        ensures
            res == (ReceiveStatus {
                lifecycle: ReceiveLifecycleSnapshot::Stopped { last_stream_generation: 0 },
                selection: None,
                audio: None,
                clock: None,
            }),
    {
        ReceiveStatus {
            lifecycle: ReceiveLifecycleSnapshot::Stopped { last_stream_generation: 0 },
            selection: None,
            audio: None,
            clock: None,
        }
    }
}

/// FT8 supported message class.
#[derive(Debug, Clone, Copy, PartialEq, Eq, Structural)]
pub enum Ft8MessageClass {
    /// General call.
    GeneralCall,
    /// Directed grid exchange.
    DirectedGrid,
    /// Directed signal report.
    SignalReport,
    /// Roger plus signal report.
    RogerSignalReport,
    /// Roger acknowledgement.
    Roger,
    /// `73` ending.
    Ending73,
    /// `RR73` ending.
    EndingRr73,
}

/// Exact owned FT8 classification.
#[derive(Debug, Clone, PartialEq, Eq)]
pub enum Ft8Classification {
    /// Supported resolved structured message.
    Resolved {
        /// Canonical message text.
        canonical_text: String,
        /// Full sender identity.
        sender: String,
        /// Full recipient identity, if directed.
        recipient: Option<String>,
        /// Supported message class.
        message_class: Ft8MessageClass,
    },
    /// At least one callsign hash remains unresolved.
    UnresolvedHash {
        /// Canonical text.
        canonical_text: String,
        /// Bounded explanation.
        detail: String,
    },
    /// Structured but unsupported message.
    Unsupported {
        /// Canonical text.
        canonical_text: String,
        /// Bounded explanation.
        detail: String,
    },
    /// Multiple interpretations remain plausible.
    Ambiguous {
        /// Canonical text.
        canonical_text: String,
        /// Bounded explanation.
        detail: String,
    },
    /// Decoded free text.
    FreeText {
        /// Text.
        text: String,
    },
}

/// One typed FT8 decode with integer metadata.
#[derive(Debug, Clone, PartialEq, Eq)]
pub struct Ft8Decode {
    /// Start offset in milliseconds.
    pub start_offset_millis: i32,
    /// Audio frequency in hertz.
    pub audio_frequency_hz: u32,
    /// Signal-to-noise ratio in dB.
    pub signal_to_noise_db: i16,
    /// Exact classification.
    pub classification: Ft8Classification,
}

/// Public summary of one durable receive record.
#[derive(Debug, Clone, PartialEq, Eq)]
pub struct ReceiveRecordSummary {
    /// Global receive sequence.
    pub sequence: u64,
    /// Stable receive identity.
    pub receive_window_id: ReceiveWindowId,
    /// UTC FT8 slot start.
    pub slot_start_utc_millis: i64,
    /// Exact stable input selection.
    pub selection: ReceiveSelection,
    /// Audio health recorded atomically with decodes.
    pub audio: ReceiveAudioHealth,
    /// Clock health recorded atomically with decodes.
    pub clock: ReceiveClockHealth,
    /// Deterministically ordered typed outcomes.
    pub decodes: Vec<Ft8Decode>,
}

impl ReceiveRecordSummary {
    /// Validates the per-record decode bound.
    pub fn validate(&self) -> (res: Result<(), WireBoundError>)
        ensures
            match res {
                Ok(()) => self.decodes@.len() <= MAX_RECEIVE_DECODES,
                Err(e) => self.decodes@.len() > MAX_RECEIVE_DECODES && e == WireBoundError::Exceeded,
            },
    {
        if self.decodes.len() > MAX_RECEIVE_DECODES {
            return Err(WireBoundError::Exceeded);
        }
        Ok(())
    }
}

/// Bounded durable history response.
#[derive(Debug, Clone, PartialEq, Eq)]
pub struct ReceiveHistoryPage {
    /// Ordered records after the requested sequence.
    pub records: Vec<ReceiveRecordSummary>,
    /// Next global sequence cursor.
    pub next_sequence: u64,
    /// Whether more committed records exist.
    pub has_more: bool,
}

/// Whether a history page respects the page and per-record bounds.
pub open spec fn history_page_ok(records: Seq<ReceiveRecordSummary>) -> bool {
    &&& records.len() <= MAX_RECEIVE_HISTORY_PAGE
    &&& forall|i: int| 0 <= i < records.len() ==> (#[trigger] records[i]).decodes@.len() <= MAX_RECEIVE_DECODES
}

impl ReceiveHistoryPage {
    /// Validates page and per-record bounds.
    pub fn validate(&self) -> (res: Result<(), WireBoundError>)
        ensures
            match res {
                Ok(()) => history_page_ok(self.records@),
                Err(e) => !history_page_ok(self.records@) && e == WireBoundError::Exceeded,
            },
    {
        if self.records.len() > MAX_RECEIVE_HISTORY_PAGE as usize {
            return Err(WireBoundError::Exceeded);
        }
        let mut i: usize = 0;
        while i < self.records.len()
            invariant
                i <= self.records@.len(),
                self.records@.len() <= MAX_RECEIVE_HISTORY_PAGE,
                forall|j: int| 0 <= j < i ==> (#[trigger] self.records@[j]).decodes@.len() <= MAX_RECEIVE_DECODES,
            decreases self.records@.len() - i,
        {
            match self.records[i].validate() {
                Ok(()) => {},
                Err(e) => {
                    return Err(e);
                },
            }
            i = i + 1;
        }
        Ok(())
    }
}

/// Receive health event.
#[derive(Debug, Clone, PartialEq, Eq)]
pub struct ReceiveHealthSnapshot {
    /// Current lifecycle.
    pub lifecycle: ReceiveLifecycleSnapshot,
    /// Audio health, if present.
    pub audio: Option<ReceiveAudioHealth>,
    /// Clock health, if present.
    pub clock: Option<ReceiveClockHealth>,
}

/// Explicit discontinuity event.
#[derive(Debug, Clone, PartialEq, Eq)]
pub struct ReceiveDiscontinuity {
    /// Failed stream generation.
    pub stream_generation: u64,
    /// Stable reason.
    pub reason: ReceiveInhibitionKind,
    /// Known dropped frames.
    pub dropped_frames: u64,
}

/// One integer waterfall bin.
#[derive(Debug, Clone, Copy, PartialEq, Eq, Structural)]
pub struct WaterfallBin {
    /// Center frequency in millihertz.
    pub frequency_millihz: u64,
    /// Magnitude in milli-dBFS.
    pub magnitude_millidbfs: i32,
}

/// One bounded coalesced waterfall frame.
#[derive(Debug, Clone, PartialEq, Eq)]
pub struct WaterfallFrame {
    /// Stream generation.
    pub stream_generation: u64,
    /// UTC row timestamp.
    pub utc_unix_millis: i64,
    /// Fixed publication sequence.
    pub frame_sequence: u64,
    /// Whether intermediate frames were coalesced for a slow consumer.
    pub coalesced: bool,
    /// Bounded bins.
    pub bins: Vec<WaterfallBin>,
}

impl WaterfallFrame {
    /// Validates the fixed public bin bound.
    pub fn validate(&self) -> (res: Result<(), WireBoundError>)
        ensures
            match res {
                Ok(()) => self.bins@.len() <= MAX_WATERFALL_BINS,
                Err(e) => self.bins@.len() > MAX_WATERFALL_BINS && e == WireBoundError::Exceeded,
            },
    {
        if self.bins.len() > MAX_WATERFALL_BINS {
            return Err(WireBoundError::Exceeded);
        }
        Ok(())
    }
}

} // verus!
