//! Receive-only audio and capture-timeline contracts.
//!
//! This module contains checked values only. It cannot enumerate or open a
//! device, decode protocol data, persist records, control a rig, play audio,
//! key PTT, or transmit.
use vstd::prelude::*;
use crate::text::{utf8, bounded_text, is_bounded_text};

pub mod timeline;
pub mod discovery;
pub mod spectrum;
pub mod capture;

verus! {

/// Canonical FT8 receive sample rate shared with the offline protocol contract.
pub const FT8_RECEIVE_SAMPLE_RATE_HZ: u32 = 12_000;
/// Canonical number of mono samples in one complete FT8 receive slot.
pub const FT8_RECEIVE_WINDOW_SAMPLES: usize = 180_000;
/// Nominal FT8 slot duration in milliseconds.
pub const FT8_RECEIVE_SLOT_MILLIS: i64 = 15_000;
/// Maximum frames accepted in one callback-to-worker handoff.
pub const MAX_CAPTURE_BATCH_FRAMES: u32 = 8_192;
/// Maximum channel count represented by a receive configuration.
pub const MAX_INPUT_CHANNELS: u16 = 32;
/// Maximum configurations retained for one discovered input device.
pub const MAX_DEVICE_CONFIGURATIONS: usize = 64;

/// Maximum stable identity length in bytes.
pub const MAX_IDENTITY_BYTES: usize = 256;
/// Maximum display text length in bytes.
pub const MAX_DISPLAY_NAME_BYTES: usize = 256;
/// Smallest supported sample rate.
pub const MIN_SAMPLE_RATE_HZ: u32 = 8_000;
/// Largest supported sample rate.
pub const MAX_SAMPLE_RATE_HZ: u32 = 384_000;
/// Largest represented callback delay.
pub const MAX_CALLBACK_DELAY_MILLIS: u32 = 60_000;
/// Largest represented input latency.
pub const MAX_LATENCY_MILLIS: u32 = 60_000;
/// Largest represented drift magnitude.
pub const MAX_DRIFT_PARTS_PER_MILLION: i32 = 100_000;

/// Failure constructing a receive-audio contract value.
#[derive(Debug, Clone, Copy, PartialEq, Eq, Structural)]
pub enum ReceiveAudioError {
    /// Stable platform identity was empty, invalid, or oversized.
    InvalidStableIdentity,
    /// Display metadata was empty, invalid, or oversized.
    InvalidDisplayMetadata,
    /// Sample rate falls outside the supported owned range.
    InvalidSampleRate,
    /// Channel count is zero or exceeds the owned bound.
    InvalidChannelCount,
    /// Selected channel does not exist in the input configuration.
    InvalidSelectedChannel,
    /// A descriptor had zero or too many configurations.
    InvalidConfigurationCount,
    /// A process or stream generation was zero.
    InvalidGeneration,
    /// UTC capture evidence predates the supported epoch.
    InvalidUtcTimestamp,
    /// Callback-delay evidence exceeded the owned representation.
    InvalidCallbackDelay,
    /// Input-latency evidence exceeded the owned representation.
    InvalidLatency,
    /// Drift evidence exceeded the owned representation.
    InvalidDrift,
    /// Batch samples were empty or not aligned to the channel count.
    InvalidBatchShape,
    /// Batch exceeded the callback-to-worker bound.
    BatchTooLarge,
    /// Clipped-sample count exceeded samples in the batch.
    InvalidClippedSampleCount,
    /// Discontinuity position differed from the batch start.
    DiscontinuityPositionMismatch,
    /// Advancing a source-frame position overflowed.
    PositionOverflow,
    /// FT8 window start was not a non-negative 15-second boundary.
    MisalignedFt8Window,
    /// FT8 window did not contain exactly one canonical slot.
    InvalidFt8WindowSize,
}

/// Operating-system audio family associated with a stable input identity.
#[derive(Debug, Clone, Copy, PartialEq, Eq, Hash, PartialOrd, Ord, Structural)]
pub enum InputPlatform {
    /// Core Audio on macOS.
    MacOsCoreAudio,
    /// WASAPI on Windows.
    WindowsWasapi,
    /// ALSA on Linux.
    LinuxAlsa,
    /// JACK on Linux.
    LinuxJack,
}

/// Stable platform identity for one input device.
///
/// Display metadata has no conversion into this type. Callers must obtain the
/// opaque value from a platform adapter that can provide a durable identity.
#[derive(Debug, PartialEq, Eq, Hash, PartialOrd, Ord)]
pub struct InputDeviceIdentity {
    platform: InputPlatform,
    opaque_id: String,
}

impl View for InputDeviceIdentity {
    type V = (InputPlatform, Seq<char>);

    closed spec fn view(&self) -> (InputPlatform, Seq<char>) {
        (self.platform, self.opaque_id@)
    }
}

impl Clone for InputDeviceIdentity {
    fn clone(&self) -> (res: Self)
        ensures
            res@ == self@,
    {
        proof {
            use_type_invariant(self);
        }
        InputDeviceIdentity { platform: self.platform, opaque_id: self.opaque_id.clone() }
    }
}

impl InputDeviceIdentity {
    #[verifier::type_invariant]
    spec fn inv(self) -> bool {
        bounded_text(self.opaque_id@, MAX_IDENTITY_BYTES as nat)
    }

    /// Constructs a checked stable platform identity.
    pub fn new(platform: InputPlatform, opaque_id: String) -> (res: Result<Self, ReceiveAudioError>)
        ensures
            match res {
                Ok(id) => bounded_text(opaque_id@, MAX_IDENTITY_BYTES as nat) && id@ == (platform, opaque_id@),
                Err(e) => !bounded_text(opaque_id@, MAX_IDENTITY_BYTES as nat) && e == ReceiveAudioError::InvalidStableIdentity,
            },
    {
        if !is_bounded_text(opaque_id.as_str(), MAX_IDENTITY_BYTES) {
            return Err(ReceiveAudioError::InvalidStableIdentity);
        }
        Ok(InputDeviceIdentity { platform, opaque_id })
    }

    /// Returns the platform family that defined this identity.
    pub fn platform(&self) -> (res: InputPlatform)
        ensures
            res == self@.0,
    {
        self.platform
    }

    /// Returns the platform-owned opaque identity.
    pub fn opaque_id(&self) -> (res: &str)
        ensures
            res@ == self@.1,
            bounded_text(res@, MAX_IDENTITY_BYTES as nat),
    {
        proof {
            use_type_invariant(self);
        }
        self.opaque_id.as_str()
    }
}

/// Human-facing input-device metadata that is never a selection identity.
#[derive(Debug, PartialEq, Eq)]
pub struct InputDeviceDisplay {
    name: String,
    manufacturer: Option<String>,
}

impl View for InputDeviceDisplay {
    type V = (Seq<char>, Option<Seq<char>>);

    closed spec fn view(&self) -> (Seq<char>, Option<Seq<char>>) {
        (self.name@, match self.manufacturer {
            Some(m) => Some(m@),
            None => None,
        })
    }
}

impl Clone for InputDeviceDisplay {
    fn clone(&self) -> (c: Self)
        ensures
            c@ == self@,
    {
        proof {
            use_type_invariant(self);
        }
        let manufacturer = match &self.manufacturer {
            Some(m) => Some(m.clone()),
            None => None,
        };
        InputDeviceDisplay { name: self.name.clone(), manufacturer }
    }
}

/// Whether display metadata is bounded printable text.
pub open spec fn display_ok(name: Seq<char>, manufacturer: Option<Seq<char>>) -> bool {
    &&& bounded_text(name, MAX_DISPLAY_NAME_BYTES as nat)
    &&& manufacturer matches Some(m) ==> bounded_text(m, MAX_DISPLAY_NAME_BYTES as nat)
}

impl InputDeviceDisplay {
    #[verifier::type_invariant]
    spec fn inv(self) -> bool {
        display_ok(self@.0, self@.1)
    }

    /// Constructs bounded display metadata.
    pub fn new(name: String, manufacturer: Option<String>) -> (res: Result<Self, ReceiveAudioError>)
        ensures
            ({
                let m = match manufacturer { Some(m) => Some(m@), None => None };
                match res {
                    Ok(d) => display_ok(name@, m) && d@ == (name@, m),
                    Err(e) => !display_ok(name@, m) && e == ReceiveAudioError::InvalidDisplayMetadata,
                }
            }),
    {
        if !is_bounded_text(name.as_str(), MAX_DISPLAY_NAME_BYTES) {
            return Err(ReceiveAudioError::InvalidDisplayMetadata);
        }
        match &manufacturer {
            Some(m) => {
                if !is_bounded_text(m.as_str(), MAX_DISPLAY_NAME_BYTES) {
                    return Err(ReceiveAudioError::InvalidDisplayMetadata);
                }
            },
            None => {},
        }
        Ok(InputDeviceDisplay { name, manufacturer })
    }

    /// Returns the non-identifying display name.
    pub fn name(&self) -> (res: &str)
        ensures
            res@ == self@.0,
    {
        self.name.as_str()
    }

    /// Returns optional non-identifying manufacturer text.
    pub fn manufacturer(&self) -> (res: Option<&str>)
        ensures
            match res {
                Some(m) => self@.1 == Some(m@),
                None => self@.1 is None,
            },
    {
        match &self.manufacturer {
            Some(m) => Some(m.as_str()),
            None => None,
        }
    }
}

/// Owned sample representation reported by an input configuration.
#[derive(Debug, Clone, Copy, PartialEq, Eq, Hash, PartialOrd, Ord, Structural)]
pub enum InputSampleFormat {
    /// Signed 8-bit integer samples.
    Signed8,
    /// Signed 16-bit integer samples.
    Signed16,
    /// Signed 24-bit integer samples in a 32-bit container.
    Signed24,
    /// Signed 32-bit integer samples.
    Signed32,
    /// Signed 64-bit integer samples.
    Signed64,
    /// Unsigned 8-bit integer samples.
    Unsigned8,
    /// Unsigned 16-bit integer samples.
    Unsigned16,
    /// Unsigned 24-bit integer samples in a 32-bit container.
    Unsigned24,
    /// Unsigned 32-bit integer samples.
    Unsigned32,
    /// Unsigned 64-bit integer samples.
    Unsigned64,
    /// IEEE 754 32-bit floating-point samples.
    Float32,
    /// IEEE 754 64-bit floating-point samples.
    Float64,
}

pub open spec fn rate_ok(r: u32) -> bool {
    MIN_SAMPLE_RATE_HZ <= r <= MAX_SAMPLE_RATE_HZ
}

pub open spec fn channels_ok(c: u16) -> bool {
    1 <= c <= MAX_INPUT_CHANNELS
}

/// Checked range of input configurations exposed by discovery.
#[derive(Debug, Clone, Copy, PartialEq, Eq, Hash, PartialOrd, Ord, Structural)]
pub struct InputConfigurationRange {
    min_sample_rate_hz: u32,
    max_sample_rate_hz: u32,
    channels: u16,
    sample_format: InputSampleFormat,
}

impl View for InputConfigurationRange {
    type V = (u32, u32, u16, InputSampleFormat);

    closed spec fn view(&self) -> (u32, u32, u16, InputSampleFormat) {
        (self.min_sample_rate_hz, self.max_sample_rate_hz, self.channels, self.sample_format)
    }
}

/// The outcome of checking an exact configuration.
pub open spec fn configuration_check(rate: u32, channels: u16, selected: u16) -> Result<(), ReceiveAudioError> {
    if !rate_ok(rate) {
        Err(ReceiveAudioError::InvalidSampleRate)
    } else if !channels_ok(channels) {
        Err(ReceiveAudioError::InvalidChannelCount)
    } else if selected >= channels {
        Err(ReceiveAudioError::InvalidSelectedChannel)
    } else {
        Ok(())
    }
}

/// The outcome of checking a configuration range.
pub open spec fn range_check(min: u32, max: u32, channels: u16) -> Result<(), ReceiveAudioError> {
    if min > max || !rate_ok(min) || !rate_ok(max) {
        Err(ReceiveAudioError::InvalidSampleRate)
    } else if !channels_ok(channels) {
        Err(ReceiveAudioError::InvalidChannelCount)
    } else {
        Ok(())
    }
}

impl InputConfigurationRange {
    #[verifier::type_invariant]
    spec fn inv(self) -> bool {
        range_check(self.min_sample_rate_hz, self.max_sample_rate_hz, self.channels) == Ok::<(), ReceiveAudioError>(())
    }

    /// Constructs a checked inclusive sample-rate range.
    pub fn new(min_sample_rate_hz: u32, max_sample_rate_hz: u32, channels: u16, sample_format: InputSampleFormat) -> (res: Result<Self, ReceiveAudioError>)
        ensures
            match res {
                Ok(r) => range_check(min_sample_rate_hz, max_sample_rate_hz, channels) == Ok::<(), ReceiveAudioError>(())
                    && r@ == (min_sample_rate_hz, max_sample_rate_hz, channels, sample_format),
                Err(e) => range_check(min_sample_rate_hz, max_sample_rate_hz, channels) == Err::<(), ReceiveAudioError>(e),
            },
    {
        if min_sample_rate_hz > max_sample_rate_hz || min_sample_rate_hz < MIN_SAMPLE_RATE_HZ
            || min_sample_rate_hz > MAX_SAMPLE_RATE_HZ || max_sample_rate_hz < MIN_SAMPLE_RATE_HZ
            || max_sample_rate_hz > MAX_SAMPLE_RATE_HZ {
            return Err(ReceiveAudioError::InvalidSampleRate);
        }
        if channels == 0 || channels > MAX_INPUT_CHANNELS {
            return Err(ReceiveAudioError::InvalidChannelCount);
        }
        Ok(InputConfigurationRange { min_sample_rate_hz, max_sample_rate_hz, channels, sample_format })
    }

    /// Returns the inclusive minimum supported sample rate.
    pub fn min_sample_rate_hz(self) -> (res: u32)
        ensures
            res == self@.0,
    {
        self.min_sample_rate_hz
    }

    /// Returns the inclusive maximum supported sample rate.
    pub fn max_sample_rate_hz(self) -> (res: u32)
        ensures
            res == self@.1,
    {
        self.max_sample_rate_hz
    }

    /// Returns the supported interleaved channel count.
    pub fn channels(self) -> (res: u16)
        ensures
            res == self@.2,
    {
        self.channels
    }

    /// Returns the supported source sample representation.
    pub fn sample_format(self) -> (res: InputSampleFormat)
        ensures
            res == self@.3,
    {
        self.sample_format
    }

    /// Selects one exact sample rate and zero-based channel from this range.
    pub fn select(self, sample_rate_hz: u32, selected_channel: u16) -> (res: Result<InputConfiguration, ReceiveAudioError>)
        ensures
            match res {
                Ok(c) => self@.0 <= sample_rate_hz <= self@.1
                    && configuration_check(sample_rate_hz, self@.2, selected_channel) == Ok::<(), ReceiveAudioError>(())
                    && c@ == (sample_rate_hz, self@.2, self@.3, selected_channel),
                Err(e) => if !(self@.0 <= sample_rate_hz <= self@.1) {
                    e == ReceiveAudioError::InvalidSampleRate
                } else {
                    configuration_check(sample_rate_hz, self@.2, selected_channel) == Err::<(), ReceiveAudioError>(e)
                },
            },
    {
        if sample_rate_hz < self.min_sample_rate_hz || sample_rate_hz > self.max_sample_rate_hz {
            return Err(ReceiveAudioError::InvalidSampleRate);
        }
        InputConfiguration::new(sample_rate_hz, self.channels, self.sample_format, selected_channel)
    }
}

/// Checked receive-only input stream configuration.
#[derive(Debug, Clone, Copy, PartialEq, Eq, Hash, Structural)]
pub struct InputConfiguration {
    sample_rate_hz: u32,
    channels: u16,
    sample_format: InputSampleFormat,
    selected_channel: u16,
}

impl View for InputConfiguration {
    type V = (u32, u16, InputSampleFormat, u16);

    closed spec fn view(&self) -> (u32, u16, InputSampleFormat, u16) {
        (self.sample_rate_hz, self.channels, self.sample_format, self.selected_channel)
    }
}

impl InputConfiguration {
    #[verifier::type_invariant]
    spec fn inv(self) -> bool {
        configuration_check(self.sample_rate_hz, self.channels, self.selected_channel) == Ok::<(), ReceiveAudioError>(())
    }

    /// Every configuration has a supported rate, channel count, and selected channel.
    pub open spec fn wf(self) -> bool {
        configuration_check(self@.0, self@.1, self@.3) == Ok::<(), ReceiveAudioError>(())
    }

    /// Constructs a checked input configuration and selected zero-based channel.
    pub fn new(sample_rate_hz: u32, channels: u16, sample_format: InputSampleFormat, selected_channel: u16) -> (res: Result<Self, ReceiveAudioError>)
        ensures
            match res {
                Ok(c) => configuration_check(sample_rate_hz, channels, selected_channel) == Ok::<(), ReceiveAudioError>(())
                    && c@ == (sample_rate_hz, channels, sample_format, selected_channel),
                Err(e) => configuration_check(sample_rate_hz, channels, selected_channel) == Err::<(), ReceiveAudioError>(e),
            },
    {
        if sample_rate_hz < MIN_SAMPLE_RATE_HZ || sample_rate_hz > MAX_SAMPLE_RATE_HZ {
            return Err(ReceiveAudioError::InvalidSampleRate);
        }
        if channels == 0 || channels > MAX_INPUT_CHANNELS {
            return Err(ReceiveAudioError::InvalidChannelCount);
        }
        if selected_channel >= channels {
            return Err(ReceiveAudioError::InvalidSelectedChannel);
        }
        Ok(InputConfiguration { sample_rate_hz, channels, sample_format, selected_channel })
    }

    /// Returns source frames per second.
    pub fn sample_rate_hz(self) -> (res: u32)
        ensures
            res == self@.0,
            rate_ok(res),
    {
        proof {
            use_type_invariant(&self);
        }
        self.sample_rate_hz
    }

    /// Returns the interleaved source channel count.
    pub fn channels(self) -> (res: u16)
        ensures
            res == self@.1,
            channels_ok(res),
    {
        proof {
            use_type_invariant(&self);
        }
        self.channels
    }

    /// Returns the source sample representation.
    pub fn sample_format(self) -> (res: InputSampleFormat)
        ensures
            res == self@.2,
    {
        self.sample_format
    }

    /// Returns the selected zero-based receive channel.
    pub fn selected_channel(self) -> (res: u16)
        ensures
            res == self@.3,
            res < self@.1,
    {
        proof {
            use_type_invariant(&self);
        }
        self.selected_channel
    }

    /// Every configuration value satisfies its checked bounds.
    pub fn lemma_wf(&self)
        ensures
            self.wf(),
    {
        proof {
            use_type_invariant(self);
        }
    }
}

/// Discovered receive-only device plus its bounded supported configurations.
#[derive(Debug, PartialEq, Eq)]
pub struct InputDeviceDescriptor {
    identity: InputDeviceIdentity,
    display: InputDeviceDisplay,
    configuration_ranges: Vec<InputConfigurationRange>,
}

impl InputDeviceDescriptor {
    #[verifier::type_invariant]
    spec fn inv(self) -> bool {
        1 <= self.configuration_ranges@.len() <= MAX_DEVICE_CONFIGURATIONS
    }

    pub closed spec fn spec_identity(&self) -> (InputPlatform, Seq<char>) {
        self.identity@
    }

    pub closed spec fn spec_display(&self) -> (Seq<char>, Option<Seq<char>>) {
        self.display@
    }

    pub closed spec fn spec_ranges(&self) -> Seq<InputConfigurationRange> {
        self.configuration_ranges@
    }

    /// Constructs a descriptor with at least one bounded configuration.
    pub fn new(identity: InputDeviceIdentity, display: InputDeviceDisplay, configuration_ranges: Vec<InputConfigurationRange>) -> (res: Result<Self, ReceiveAudioError>)
        ensures
            match res {
                Ok(d) => 1 <= configuration_ranges@.len() <= MAX_DEVICE_CONFIGURATIONS && d.spec_identity() == identity@
                    && d.spec_display() == display@ && d.spec_ranges() == configuration_ranges@,
                Err(e) => !(1 <= configuration_ranges@.len() <= MAX_DEVICE_CONFIGURATIONS)
                    && e == ReceiveAudioError::InvalidConfigurationCount,
            },
    {
        if configuration_ranges.len() == 0 || configuration_ranges.len() > MAX_DEVICE_CONFIGURATIONS {
            return Err(ReceiveAudioError::InvalidConfigurationCount);
        }
        Ok(InputDeviceDescriptor { identity, display, configuration_ranges })
    }

    /// Returns the only value permitted for explicit device selection.
    pub fn identity(&self) -> (res: &InputDeviceIdentity)
        ensures
            res@ == self.spec_identity(),
    {
        &self.identity
    }

    /// Returns human-facing metadata, never a fallback identity.
    pub fn display(&self) -> (res: &InputDeviceDisplay)
        ensures
            res@ == self.spec_display(),
    {
        &self.display
    }

    /// Returns bounded supported receive configurations.
    pub fn configuration_ranges(&self) -> (res: &[InputConfigurationRange])
        ensures
            res@ == self.spec_ranges(),
            1 <= res@.len() <= MAX_DEVICE_CONFIGURATIONS,
    {
        proof {
            use_type_invariant(self);
        }
        self.configuration_ranges.as_slice()
    }
}

/// Typed failure from receive-only device discovery.
#[derive(Debug, Clone, Copy, PartialEq, Eq, Structural)]
pub enum InputDiscoveryError {
    /// The platform audio host is not available.
    HostUnavailable,
    /// The operating system denied input-device access.
    PermissionDenied,
    /// A previously visible or selected device disappeared.
    DeviceDisappeared,
    /// A device exposes no supported bounded PCM configuration.
    UnsupportedConfiguration,
    /// The backend could not provide a stable identity.
    IdentityUnavailable,
    /// No input-capable devices were found.
    NoInputDevices,
    /// The backend failed without a stable implementation type escaping.
    BackendFailure,
}

/// Receive-only device discovery boundary, implemented by platform adapters.
pub trait InputDeviceDiscovery {
    /// Enumerates all input-capable devices with stable identities.
    fn enumerate(&self) -> Result<Vec<InputDeviceDescriptor>, InputDiscoveryError>;

    /// Looks up one exact stable identity without default or name fallback.
    fn find(&self, identity: &InputDeviceIdentity) -> Result<InputDeviceDescriptor, InputDiscoveryError>;
}

/// Daemon-process generation for capture state.
#[derive(Debug, Clone, Copy, PartialEq, Eq, Hash, PartialOrd, Ord, Structural)]
pub struct ProcessGeneration {
    value: u64,
}

impl View for ProcessGeneration {
    type V = u64;

    closed spec fn view(&self) -> u64 {
        self.value
    }
}

impl ProcessGeneration {
    #[verifier::type_invariant]
    spec fn inv(self) -> bool {
        self.value != 0
    }

    /// Constructs a non-zero process generation.
    pub fn new(value: u64) -> (res: Result<Self, ReceiveAudioError>)
        ensures
            match res {
                Ok(g) => value != 0 && g@ == value,
                Err(e) => value == 0 && e == ReceiveAudioError::InvalidGeneration,
            },
    {
        if value == 0 {
            return Err(ReceiveAudioError::InvalidGeneration);
        }
        Ok(ProcessGeneration { value })
    }

    /// Returns the opaque generation value.
    pub fn get(self) -> (res: u64)
        ensures
            res == self@,
            res != 0,
    {
        proof {
            use_type_invariant(&self);
        }
        self.value
    }
}

/// Stream generation scoped to one daemon process.
#[derive(Debug, Clone, Copy, PartialEq, Eq, Hash, PartialOrd, Ord, Structural)]
pub struct StreamGeneration {
    value: u64,
}

impl View for StreamGeneration {
    type V = u64;

    closed spec fn view(&self) -> u64 {
        self.value
    }
}

impl StreamGeneration {
    #[verifier::type_invariant]
    spec fn inv(self) -> bool {
        self.value != 0
    }

    /// Constructs a non-zero stream generation.
    pub fn new(value: u64) -> (res: Result<Self, ReceiveAudioError>)
        ensures
            match res {
                Ok(g) => value != 0 && g@ == value,
                Err(e) => value == 0 && e == ReceiveAudioError::InvalidGeneration,
            },
    {
        if value == 0 {
            return Err(ReceiveAudioError::InvalidGeneration);
        }
        Ok(StreamGeneration { value })
    }

    /// Returns the opaque generation value.
    pub fn get(self) -> (res: u64)
        ensures
            res == self@,
            res != 0,
    {
        proof {
            use_type_invariant(&self);
        }
        self.value
    }
}

/// Monotonic position in source frames since a stream generation began.
#[derive(Debug, Clone, Copy, PartialEq, Eq, Hash, PartialOrd, Ord, Structural)]
pub struct CapturePosition {
    frames: u64,
}

impl View for CapturePosition {
    type V = u64;

    closed spec fn view(&self) -> u64 {
        self.frames
    }
}

impl CapturePosition {
    /// Constructs a source-frame position.
    pub fn from_frames(value: u64) -> (res: Self)
        ensures
            res@ == value,
    {
        CapturePosition { frames: value }
    }

    /// Returns source frames since stream start.
    pub fn frames(self) -> (res: u64)
        ensures
            res == self@,
    {
        self.frames
    }

    /// Returns a checked position advanced by a frame count.
    pub fn checked_advance(self, frames: u32) -> (res: Result<Self, ReceiveAudioError>)
        ensures
            match res {
                Ok(p) => self@ + frames <= u64::MAX && p@ == self@ + frames,
                Err(e) => self@ + frames > u64::MAX && e == ReceiveAudioError::PositionOverflow,
            },
    {
        if self.frames > u64::MAX - frames as u64 {
            return Err(ReceiveAudioError::PositionOverflow);
        }
        Ok(CapturePosition { frames: self.frames + frames as u64 })
    }
}

/// Simultaneous capture-position, UTC, and monotonic mapping evidence.
#[derive(Debug, Clone, Copy, PartialEq, Eq, Structural)]
pub struct CaptureTimeEvidence {
    /// Source-frame position represented by the sample.
    pub position: CapturePosition,
    /// UTC milliseconds since the Unix epoch.
    pub utc_unix_millis: i64,
    /// Monotonic milliseconds from the current process origin.
    pub monotonic_millis: u64,
}

impl CaptureTimeEvidence {
    /// Constructs checked timing evidence.
    pub fn new(position: CapturePosition, utc_unix_millis: i64, monotonic_millis: u64) -> (res: Result<Self, ReceiveAudioError>)
        ensures
            match res {
                Ok(t) => utc_unix_millis >= 0 && t == (CaptureTimeEvidence { position, utc_unix_millis, monotonic_millis }),
                Err(e) => utc_unix_millis < 0 && e == ReceiveAudioError::InvalidUtcTimestamp,
            },
    {
        if utc_unix_millis < 0 {
            return Err(ReceiveAudioError::InvalidUtcTimestamp);
        }
        Ok(CaptureTimeEvidence { position, utc_unix_millis, monotonic_millis })
    }
}

/// Explicit reason continuity was lost.
#[derive(Debug, Clone, Copy, PartialEq, Eq, Hash, Structural)]
pub enum CaptureDiscontinuityKind {
    /// Bounded queue overflow dropped source frames.
    Overflow,
    /// The backend reported a gap.
    BackendGap,
    /// Capture restarted with a new stream generation.
    StreamRestart,
    /// Clock evidence became uncertain.
    ClockRemapped,
}

/// Explicit capture discontinuity at a source-frame position.
#[derive(Debug, Clone, Copy, PartialEq, Eq, Structural)]
pub struct CaptureDiscontinuity {
    /// Position at which continuity ceased.
    pub at: CapturePosition,
    /// Specific reason for the discontinuity.
    pub kind: CaptureDiscontinuityKind,
    /// Known dropped frames, or zero when the size is unknown.
    pub dropped_frames: u64,
}

/// Bounded callback diagnostic counters attached to one batch.
#[derive(Debug, Clone, Copy, PartialEq, Eq, Structural)]
pub struct CaptureDiagnostics {
    /// Samples at or beyond the clipping threshold.
    pub clipped_samples: u32,
    /// Observed callback delay.
    pub callback_delay_millis: u32,
}

impl CaptureDiagnostics {
    /// Constructs bounded callback diagnostics.
    pub fn new(clipped_samples: u32, callback_delay_millis: u32) -> (res: Result<Self, ReceiveAudioError>)
        ensures
            match res {
                Ok(d) => callback_delay_millis <= MAX_CALLBACK_DELAY_MILLIS
                    && d == (CaptureDiagnostics { clipped_samples, callback_delay_millis }),
                Err(e) => callback_delay_millis > MAX_CALLBACK_DELAY_MILLIS && e == ReceiveAudioError::InvalidCallbackDelay,
            },
    {
        if callback_delay_millis > MAX_CALLBACK_DELAY_MILLIS {
            return Err(ReceiveAudioError::InvalidCallbackDelay);
        }
        Ok(CaptureDiagnostics { clipped_samples, callback_delay_millis })
    }
}

/// The outcome of checking a batch's shape and evidence.
pub open spec fn batch_check(first_frame: CaptureTimeEvidence, discontinuity: Option<CaptureDiscontinuity>, diagnostics: CaptureDiagnostics, len: nat) -> Result<(), ReceiveAudioError> {
    if len == 0 {
        Err(ReceiveAudioError::InvalidBatchShape)
    } else if len > MAX_CAPTURE_BATCH_FRAMES {
        Err(ReceiveAudioError::BatchTooLarge)
    } else if discontinuity matches Some(d) && d.at != first_frame.position {
        Err(ReceiveAudioError::DiscontinuityPositionMismatch)
    } else if diagnostics.clipped_samples > len {
        Err(ReceiveAudioError::InvalidClippedSampleCount)
    } else {
        Ok(())
    }
}

/// One bounded, normalized mono signed-16-bit callback-to-worker handoff.
#[derive(Debug, Clone, PartialEq, Eq)]
pub struct CaptureBatch {
    /// Daemon-process generation.
    pub process_generation: ProcessGeneration,
    /// Input-stream generation.
    pub stream_generation: StreamGeneration,
    /// Exact selected input configuration.
    pub configuration: InputConfiguration,
    /// Timing evidence for the first source frame.
    pub first_frame: CaptureTimeEvidence,
    /// Optional explicit discontinuity preceding this batch.
    pub discontinuity: Option<CaptureDiscontinuity>,
    /// Bounded callback diagnostics.
    pub diagnostics: CaptureDiagnostics,
    samples: Vec<i16>,
}

/// Source frames carried by a batch of `len` samples.
pub open spec fn frame_count_of(len: nat) -> u32 {
    if len <= u32::MAX { len as u32 } else { MAX_CAPTURE_BATCH_FRAMES }
}

impl CaptureBatch {
    /// The normalized mono samples of the batch.
    pub closed spec fn spec_samples(&self) -> Seq<i16> {
        self.samples@
    }

    /// The process generation of the batch.
    pub closed spec fn spec_process(&self) -> ProcessGeneration {
        self.process_generation
    }

    /// The stream generation of the batch.
    pub closed spec fn spec_stream(&self) -> StreamGeneration {
        self.stream_generation
    }

    /// The input configuration of the batch.
    pub closed spec fn spec_configuration(&self) -> InputConfiguration {
        self.configuration
    }

    /// The timing evidence of the first frame.
    pub closed spec fn spec_first_frame(&self) -> CaptureTimeEvidence {
        self.first_frame
    }

    /// The discontinuity preceding the batch.
    pub closed spec fn spec_discontinuity(&self) -> Option<CaptureDiscontinuity> {
        self.discontinuity
    }

    /// The callback diagnostics of the batch.
    pub closed spec fn spec_diagnostics(&self) -> CaptureDiagnostics {
        self.diagnostics
    }

    /// Constructs a bounded batch of samples from the selected channel.
    pub fn new(
        process_generation: ProcessGeneration,
        stream_generation: StreamGeneration,
        configuration: InputConfiguration,
        first_frame: CaptureTimeEvidence,
        discontinuity: Option<CaptureDiscontinuity>,
        diagnostics: CaptureDiagnostics,
        samples: Vec<i16>,
    ) -> (res: Result<Self, ReceiveAudioError>)
        ensures
            match res {
                Ok(b) => batch_check(first_frame, discontinuity, diagnostics, samples@.len()) == Ok::<(), ReceiveAudioError>(())
                    && b.spec_process() == process_generation && b.spec_stream() == stream_generation
                    && b.spec_configuration() == configuration && b.spec_first_frame() == first_frame
                    && b.spec_discontinuity() == discontinuity && b.spec_diagnostics() == diagnostics
                    && b.spec_samples() == samples@,
                Err(e) => batch_check(first_frame, discontinuity, diagnostics, samples@.len()) == Err::<(), ReceiveAudioError>(e),
            },
    {
        if samples.len() == 0 {
            return Err(ReceiveAudioError::InvalidBatchShape);
        }
        if samples.len() > MAX_CAPTURE_BATCH_FRAMES as usize {
            return Err(ReceiveAudioError::BatchTooLarge);
        }
        match discontinuity {
            Some(d) => {
                if d.at != first_frame.position {
                    return Err(ReceiveAudioError::DiscontinuityPositionMismatch);
                }
            },
            None => {},
        }
        if diagnostics.clipped_samples as usize > samples.len() {
            return Err(ReceiveAudioError::InvalidClippedSampleCount);
        }
        Ok(CaptureBatch {
            process_generation,
            stream_generation,
            configuration,
            first_frame,
            discontinuity,
            diagnostics,
            samples,
        })
    }

    /// Returns normalized samples from the exact selected source channel.
    pub fn samples(&self) -> (res: &[i16])
        ensures
            res@ == self.spec_samples(),
    {
        self.samples.as_slice()
    }

    /// Returns source frames in this batch.
    pub fn frame_count(&self) -> (res: u32)
        ensures
            res == frame_count_of(self.spec_samples().len()),
    {
        if self.samples.len() <= u32::MAX as usize {
            self.samples.len() as u32
        } else {
            MAX_CAPTURE_BATCH_FRAMES
        }
    }

    /// Returns the position immediately after this batch.
    pub fn end_position(&self) -> (res: Result<CapturePosition, ReceiveAudioError>)
        ensures
            ({
                let end = self.spec_first_frame().position@ + frame_count_of(self.spec_samples().len());
                match res {
                    Ok(p) => end <= u64::MAX && p@ == end,
                    Err(e) => end > u64::MAX && e == ReceiveAudioError::PositionOverflow,
                }
            }),
    {
        self.first_frame.position.checked_advance(self.frame_count())
    }
}

/// Whether a slot start is a non-negative 15-second boundary.
pub open spec fn ft8_aligned(start: int) -> bool {
    start >= 0 && start % (FT8_RECEIVE_SLOT_MILLIS as int) == 0
}

/// Checked canonical mono FT8 receive window.
#[derive(Debug, Clone, PartialEq, Eq)]
pub struct Ft8ReceiveWindow {
    /// Daemon-process generation.
    pub process_generation: ProcessGeneration,
    /// Input-stream generation.
    pub stream_generation: StreamGeneration,
    /// UTC start of the aligned 15-second FT8 slot.
    pub slot_start_utc_millis: i64,
    /// Capture mapping evidence used to assemble the window.
    pub mapping: CaptureTimeEvidence,
    samples: Vec<i16>,
}

impl Ft8ReceiveWindow {
    /// The canonical samples of the window.
    pub closed spec fn spec_samples(&self) -> Seq<i16> {
        self.samples@
    }

    /// The process generation of the window.
    pub closed spec fn spec_process(&self) -> ProcessGeneration {
        self.process_generation
    }

    /// The stream generation of the window.
    pub closed spec fn spec_stream(&self) -> StreamGeneration {
        self.stream_generation
    }

    /// The UTC start of the window's slot.
    pub closed spec fn spec_slot_start(&self) -> i64 {
        self.slot_start_utc_millis
    }

    /// The mapping evidence of the window.
    pub closed spec fn spec_mapping(&self) -> CaptureTimeEvidence {
        self.mapping
    }

    /// Constructs one complete canonical decoder input.
    pub fn new(
        process_generation: ProcessGeneration,
        stream_generation: StreamGeneration,
        slot_start_utc_millis: i64,
        mapping: CaptureTimeEvidence,
        samples: Vec<i16>,
    ) -> (res: Result<Self, ReceiveAudioError>)
        ensures
            match res {
                Ok(w) => ft8_aligned(slot_start_utc_millis as int) && samples@.len() == FT8_RECEIVE_WINDOW_SAMPLES
                    && w.spec_process() == process_generation && w.spec_stream() == stream_generation
                    && w.spec_slot_start() == slot_start_utc_millis && w.spec_mapping() == mapping
                    && w.spec_samples() == samples@,
                Err(e) => if !ft8_aligned(slot_start_utc_millis as int) {
                    e == ReceiveAudioError::MisalignedFt8Window
                } else {
                    samples@.len() != FT8_RECEIVE_WINDOW_SAMPLES && e == ReceiveAudioError::InvalidFt8WindowSize
                },
            },
    {
        if slot_start_utc_millis < 0 || slot_start_utc_millis % FT8_RECEIVE_SLOT_MILLIS != 0 {
            return Err(ReceiveAudioError::MisalignedFt8Window);
        }
        if samples.len() != FT8_RECEIVE_WINDOW_SAMPLES {
            return Err(ReceiveAudioError::InvalidFt8WindowSize);
        }
        Ok(Ft8ReceiveWindow { process_generation, stream_generation, slot_start_utc_millis, mapping, samples })
    }

    /// Returns canonical mono signed-16-bit 12 kHz samples.
    pub fn samples(&self) -> (res: &[i16])
        ensures
            res@ == self.spec_samples(),
    {
        self.samples.as_slice()
    }

    /// Returns the capture mapping evidence used to assemble the window.
    pub fn mapping(&self) -> (res: CaptureTimeEvidence)
        ensures
            res == self.spec_mapping(),
    {
        self.mapping
    }

    /// Returns the canonical receive sample rate.
    pub fn sample_rate_hz(&self) -> (res: u32)
        ensures
            res == FT8_RECEIVE_SAMPLE_RATE_HZ,
    {
        FT8_RECEIVE_SAMPLE_RATE_HZ
    }
}

/// Observable receive-input health.
#[derive(Debug, Clone, Copy, PartialEq, Eq, Structural)]
pub struct InputHealth {
    /// Estimated input latency.
    pub latency_millis: u32,
    /// Estimated signed source-clock drift.
    pub drift_parts_per_million: i32,
    /// Number of bounded queue overflows in the generation.
    pub overflow_count: u64,
    /// Number of clipped samples in the generation.
    pub clipped_sample_count: u64,
    /// Greatest observed callback delay.
    pub max_callback_delay_millis: u32,
}

/// The outcome of checking health evidence.
pub open spec fn health_check(latency: u32, drift: i32, delay: u32) -> Result<(), ReceiveAudioError> {
    if latency > MAX_LATENCY_MILLIS {
        Err(ReceiveAudioError::InvalidLatency)
    } else if drift < -MAX_DRIFT_PARTS_PER_MILLION || drift > MAX_DRIFT_PARTS_PER_MILLION {
        Err(ReceiveAudioError::InvalidDrift)
    } else if delay > MAX_CALLBACK_DELAY_MILLIS {
        Err(ReceiveAudioError::InvalidCallbackDelay)
    } else {
        Ok(())
    }
}

impl InputHealth {
    /// Constructs checked health evidence.
    pub fn new(
        latency_millis: u32,
        drift_parts_per_million: i32,
        overflow_count: u64,
        clipped_sample_count: u64,
        max_callback_delay_millis: u32,
    ) -> (res: Result<Self, ReceiveAudioError>)
        ensures
            match res {
                Ok(h) => health_check(latency_millis, drift_parts_per_million, max_callback_delay_millis) == Ok::<(), ReceiveAudioError>(())
                    && h == (InputHealth { latency_millis, drift_parts_per_million, overflow_count, clipped_sample_count, max_callback_delay_millis }),
                Err(e) => health_check(latency_millis, drift_parts_per_million, max_callback_delay_millis) == Err::<(), ReceiveAudioError>(e),
            },
    {
        if latency_millis > MAX_LATENCY_MILLIS {
            return Err(ReceiveAudioError::InvalidLatency);
        }
        if drift_parts_per_million < -MAX_DRIFT_PARTS_PER_MILLION || drift_parts_per_million > MAX_DRIFT_PARTS_PER_MILLION {
            return Err(ReceiveAudioError::InvalidDrift);
        }
        if max_callback_delay_millis > MAX_CALLBACK_DELAY_MILLIS {
            return Err(ReceiveAudioError::InvalidCallbackDelay);
        }
        Ok(InputHealth { latency_millis, drift_parts_per_million, overflow_count, clipped_sample_count, max_callback_delay_millis })
    }
}

/// Typed receive-only input fault kind.
#[derive(Debug, Clone, Copy, PartialEq, Eq, Structural)]
pub enum InputFaultKind {
    /// Access to input devices was denied.
    PermissionDenied,
    /// The explicitly configured device disappeared.
    DeviceLost,
    /// The bounded queue dropped source frames.
    Overflow {
        /// Known number of dropped source frames.
        dropped_frames: u64,
    },
    /// Capture continuity became uncertain.
    Discontinuity(CaptureDiscontinuityKind),
    /// Samples crossed the clipping threshold.
    Clipping {
        /// Number of clipped samples.
        sample_count: u32,
    },
    /// Source-clock drift exceeded the configured bound.
    Drift {
        /// Observed signed drift.
        parts_per_million: i32,
    },
    /// Callback execution was delayed beyond its configured bound.
    CallbackDelay {
        /// Observed callback delay.
        millis: u32,
    },
    /// Input backend failed without a stable backend-specific type escaping.
    BackendFailure,
}

/// Timestamped receive-only input fault.
#[derive(Debug, Clone, PartialEq, Eq, Structural)]
pub struct InputFault {
    /// Daemon-process generation.
    pub process_generation: ProcessGeneration,
    /// Input-stream generation, if a stream had started.
    pub stream_generation: Option<StreamGeneration>,
    /// Process-local monotonic occurrence time.
    pub monotonic_millis: u64,
    /// Specific owned fault kind.
    pub kind: InputFaultKind,
}

/// Failure validating capture sequence ordering.
#[derive(Debug, Clone, Copy, PartialEq, Eq, Structural)]
pub enum CaptureSequenceError {
    /// A batch belongs to a different process or stream.
    GenerationChanged,
    /// A source-frame position overlapped or moved backwards.
    PositionRegressed,
    /// A source-frame gap lacked explicit discontinuity evidence.
    UnmarkedGap,
    /// Monotonic evidence moved backwards.
    MonotonicRegressed,
    /// A position could not be advanced within its representation.
    PositionOverflow,
}

/// Position just after a batch, when representable.
pub open spec fn batch_end(b: CaptureBatch) -> Option<u64> {
    let end = b.spec_first_frame().position@ + frame_count_of(b.spec_samples().len());
    if end <= u64::MAX { Some(end as u64) } else { None }
}

/// Stateful validator for capture ordering within one stream generation.
#[derive(Debug, Clone, Copy)]
pub struct CaptureSequence {
    process_generation: ProcessGeneration,
    stream_generation: StreamGeneration,
    next_position: CapturePosition,
    last_monotonic_millis: u64,
}

/// The outcome of checking the next batch against a sequence state.
pub open spec fn sequence_check(s: CaptureSequence, b: CaptureBatch) -> Result<(), CaptureSequenceError> {
    if b.spec_process() != s.spec_process() || b.spec_stream() != s.spec_stream() {
        Err(CaptureSequenceError::GenerationChanged)
    } else if b.spec_first_frame().position@ < s.spec_next() {
        Err(CaptureSequenceError::PositionRegressed)
    } else if b.spec_first_frame().position@ > s.spec_next() && b.spec_discontinuity() is None {
        Err(CaptureSequenceError::UnmarkedGap)
    } else if b.spec_first_frame().monotonic_millis < s.spec_last_monotonic() {
        Err(CaptureSequenceError::MonotonicRegressed)
    } else if batch_end(b) is None {
        Err(CaptureSequenceError::PositionOverflow)
    } else {
        Ok(())
    }
}

impl CaptureSequence {
    pub closed spec fn spec_process(self) -> ProcessGeneration {
        self.process_generation
    }

    pub closed spec fn spec_stream(self) -> StreamGeneration {
        self.stream_generation
    }

    pub closed spec fn spec_next(self) -> u64 {
        self.next_position@
    }

    pub closed spec fn spec_last_monotonic(self) -> u64 {
        self.last_monotonic_millis
    }

    /// Starts a sequence from a first batch.
    pub fn start(first: &CaptureBatch) -> (res: Result<Self, CaptureSequenceError>)
        ensures
            match res {
                Ok(s) => batch_end(*first) == Some(s.spec_next()) && s.spec_process() == first.spec_process()
                    && s.spec_stream() == first.spec_stream()
                    && s.spec_last_monotonic() == first.spec_first_frame().monotonic_millis,
                Err(e) => batch_end(*first) is None && e == CaptureSequenceError::PositionOverflow,
            },
    {
        let next_position = match first.end_position() {
            Ok(p) => p,
            Err(_) => {
                return Err(CaptureSequenceError::PositionOverflow);
            },
        };
        Ok(CaptureSequence {
            process_generation: first.process_generation,
            stream_generation: first.stream_generation,
            next_position,
            last_monotonic_millis: first.first_frame.monotonic_millis,
        })
    }

    /// Validates and advances over one contiguous or explicitly discontinuous batch.
    pub fn observe(&mut self, batch: &CaptureBatch) -> (res: Result<(), CaptureSequenceError>)
        ensures
            res == sequence_check(*old(self), *batch),
            res is Ok ==> {
                &&& Some(final(self).spec_next()) == batch_end(*batch)
                &&& final(self).spec_last_monotonic() == batch.spec_first_frame().monotonic_millis
                &&& final(self).spec_process() == old(self).spec_process()
                &&& final(self).spec_stream() == old(self).spec_stream()
            },
            res is Err ==> *final(self) == *old(self),
    {
        if batch.process_generation != self.process_generation || batch.stream_generation != self.stream_generation {
            return Err(CaptureSequenceError::GenerationChanged);
        }
        if batch.first_frame.position.frames() < self.next_position.frames() {
            return Err(CaptureSequenceError::PositionRegressed);
        }
        if batch.first_frame.position.frames() > self.next_position.frames() && batch.discontinuity.is_none() {
            return Err(CaptureSequenceError::UnmarkedGap);
        }
        if batch.first_frame.monotonic_millis < self.last_monotonic_millis {
            return Err(CaptureSequenceError::MonotonicRegressed);
        }
        let next = match batch.end_position() {
            Ok(p) => p,
            Err(_) => {
                return Err(CaptureSequenceError::PositionOverflow);
            },
        };
        self.next_position = next;
        self.last_monotonic_millis = batch.first_frame.monotonic_millis;
        Ok(())
    }
}

} // verus!
