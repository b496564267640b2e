//! Bounded callback-queue state shared between the realtime input callback
//! and the worker that turns queued buffers into owned batches.
//!
//! The native stream itself lives outside this module; it hands each callback
//! buffer to [`CallbackState::process`] as a slice of [`NormalizeSample`] values;
//! formats scaled by the platform layer arrive as [`PlatformSample`]s.
use std::sync::Arc;
use std::sync::atomic::{AtomicBool, AtomicU32, AtomicU64, Ordering};
use crossbeam_queue::ArrayQueue;
use vstd::prelude::*;
use crate::audio::{
    batch_check, CaptureBatch, CaptureDiagnostics, CaptureDiscontinuity, CaptureDiscontinuityKind, CapturePosition,
    CaptureTimeEvidence, InputConfiguration, InputDiscoveryError, InputFault, InputFaultKind, InputHealth,
    ProcessGeneration, StreamGeneration, MAX_CAPTURE_BATCH_FRAMES,
};
use crate::operations::receive_clock::{duration_as_millis, elapsed_since, monotonic_now, since_unix_epoch, wall_clock_now};

verus! {

/// Default number of preallocated callback buffers.
pub const DEFAULT_CAPTURE_QUEUE_BATCHES: usize = 8;
/// Largest supported callback queue, bounding preallocated memory.
pub const MAX_CAPTURE_QUEUE_BATCHES: usize = 128;
/// Delay at which the callback emits a health fault.
pub const CALLBACK_DELAY_FAULT_MILLIS: u32 = 250;
/// Largest callback delay the callback records.
pub const MAX_RECORDED_CALLBACK_DELAY_MILLIS: u32 = 60_000;

/// Typed failure while configuring or controlling a receive-only input stream.
#[derive(Debug, Clone, Copy, PartialEq, Eq, Structural)]
pub enum InputCaptureError {
    /// The preallocated queue size is outside the bounded contract.
    InvalidQueueCapacity,
    /// The exact device does not support the requested configuration.
    UnsupportedConfiguration,
    /// The platform denied input capture permission.
    PermissionDenied,
    /// The exact selected device disappeared.
    DeviceLost,
    /// The stream has already stopped.
    Stopped,
    /// The native input backend failed.
    BackendFailure,
}

/// The stable human-readable description of a capture error.
pub open spec fn capture_error_text(e: InputCaptureError) -> Seq<char> {
    match e {
        InputCaptureError::InvalidQueueCapacity => "capture queue capacity is invalid"@,
        InputCaptureError::UnsupportedConfiguration => "input capture configuration is unsupported"@,
        InputCaptureError::PermissionDenied => "input capture permission denied"@,
        InputCaptureError::DeviceLost => "input capture device disappeared"@,
        InputCaptureError::Stopped => "input capture stream is stopped"@,
        InputCaptureError::BackendFailure => "input capture backend failed"@,
    }
}

impl InputCaptureError {
    /// Stable human-readable description.
    pub fn message(self) -> (res: &'static str)
        ensures
            res@ == capture_error_text(self),
    {
        match self {
            InputCaptureError::InvalidQueueCapacity => "capture queue capacity is invalid",
            InputCaptureError::UnsupportedConfiguration => "input capture configuration is unsupported",
            InputCaptureError::PermissionDenied => "input capture permission denied",
            InputCaptureError::DeviceLost => "input capture device disappeared",
            InputCaptureError::Stopped => "input capture stream is stopped",
            InputCaptureError::BackendFailure => "input capture backend failed",
        }
    }
}

/// Class of a native audio backend error, as reported by the platform layer.
#[derive(Debug, Clone, Copy, PartialEq, Eq, Structural)]
pub enum BackendErrorKind {
    /// The audio host or subsystem is absent.
    HostUnavailable,
    /// The platform denied access.
    PermissionDenied,
    /// The device is not available.
    DeviceNotAvailable,
    /// The device route changed.
    DeviceChanged,
    /// The stream configuration became invalid.
    StreamInvalidated,
    /// The requested configuration is unsupported.
    UnsupportedConfig,
    /// The requested operation is unsupported.
    UnsupportedOperation,
    /// An argument was invalid.
    InvalidInput,
    /// Any other backend failure.
    Other,
}

/// Maps a backend error met while opening or controlling a stream.
pub fn map_open_error(kind: BackendErrorKind) -> (res: InputCaptureError)
    ensures
        res == match kind {
            BackendErrorKind::PermissionDenied => InputCaptureError::PermissionDenied,
            BackendErrorKind::DeviceNotAvailable | BackendErrorKind::DeviceChanged
            | BackendErrorKind::StreamInvalidated => InputCaptureError::DeviceLost,
            BackendErrorKind::UnsupportedConfig | BackendErrorKind::UnsupportedOperation
            | BackendErrorKind::InvalidInput => InputCaptureError::UnsupportedConfiguration,
            _ => InputCaptureError::BackendFailure,
        },
{
    match kind {
        BackendErrorKind::PermissionDenied => InputCaptureError::PermissionDenied,
        BackendErrorKind::DeviceNotAvailable | BackendErrorKind::DeviceChanged
        | BackendErrorKind::StreamInvalidated => InputCaptureError::DeviceLost,
        BackendErrorKind::UnsupportedConfig | BackendErrorKind::UnsupportedOperation
        | BackendErrorKind::InvalidInput => InputCaptureError::UnsupportedConfiguration,
        _ => InputCaptureError::BackendFailure,
    }
}

/// Maps a discovery failure met while opening the exact selected device.
pub fn map_discovery_error(error: InputDiscoveryError) -> (res: InputCaptureError)
    ensures
        res == match error {
            InputDiscoveryError::PermissionDenied => InputCaptureError::PermissionDenied,
            InputDiscoveryError::DeviceDisappeared => InputCaptureError::DeviceLost,
            InputDiscoveryError::UnsupportedConfiguration
            | InputDiscoveryError::IdentityUnavailable => InputCaptureError::UnsupportedConfiguration,
            _ => InputCaptureError::BackendFailure,
        },
{
    match error {
        InputDiscoveryError::PermissionDenied => InputCaptureError::PermissionDenied,
        InputDiscoveryError::DeviceDisappeared => InputCaptureError::DeviceLost,
        InputDiscoveryError::UnsupportedConfiguration
        | InputDiscoveryError::IdentityUnavailable => InputCaptureError::UnsupportedConfiguration,
        _ => InputCaptureError::BackendFailure,
    }
}

/// The fault recorded when the backend reports an error on a running stream.
pub open spec fn backend_fault(kind: BackendErrorKind) -> InputFaultKind {
    match kind {
        BackendErrorKind::PermissionDenied => InputFaultKind::PermissionDenied,
        BackendErrorKind::DeviceNotAvailable | BackendErrorKind::DeviceChanged
        | BackendErrorKind::StreamInvalidated => InputFaultKind::DeviceLost,
        _ => InputFaultKind::BackendFailure,
    }
}

/// Maps a running-stream backend error to its fault kind.
pub fn backend_fault_kind(kind: BackendErrorKind) -> (res: InputFaultKind)
    ensures
        res == backend_fault(kind),
{
    match kind {
        BackendErrorKind::PermissionDenied => InputFaultKind::PermissionDenied,
        BackendErrorKind::DeviceNotAvailable | BackendErrorKind::DeviceChanged
        | BackendErrorKind::StreamInvalidated => InputFaultKind::DeviceLost,
        _ => InputFaultKind::BackendFailure,
    }
}

// ----- sample normalization -----

/// A signed source value in `[min, max]` scaled onto the signed 16-bit range,
/// rounding toward zero.
pub open spec fn scaled_signed(v: int, min: int, max: int) -> int {
    if v >= 0 {
        v * 32767 / max
    } else {
        -((-v) * 32768 / (-min))
    }
}

/// A signed source value normalized to 16 bits, with whether it sat at a full-scale
/// endpoint; `None` when the scaled value leaves the 16-bit range.
pub open spec fn normalized_signed(v: int, min: int, max: int) -> Option<(i16, bool)> {
    let n = scaled_signed(v, min, max);
    if -32768 <= n <= 32767 {
        Some((n as i16, v == min || v == max))
    } else {
        None
    }
}

/// An unsigned source value with the given midpoint (silence) and maximum scaled
/// onto the signed 16-bit range, rounding toward zero.
pub open spec fn scaled_unsigned(v: int, midpoint: int, max: int) -> int {
    if v >= midpoint {
        (v - midpoint) * 32767 / (max - midpoint)
    } else {
        -((midpoint - v) * 32768 / midpoint)
    }
}

/// An unsigned source value normalized to 16 bits, with whether it sat at a
/// full-scale endpoint; `None` when the scaled value leaves the 16-bit range.
pub open spec fn normalized_unsigned(v: int, midpoint: int, max: int) -> Option<(i16, bool)> {
    let n = scaled_unsigned(v, midpoint, max);
    if -32768 <= n <= 32767 {
        Some((n as i16, v == 0 || v == max))
    } else {
        None
    }
}

proof fn lemma_scaled_bounds(a: int, b: int, k: int)
    requires
        0 <= a,
        0 < b,
        a <= 0x1_0000_0000_0000_0000,
        0 <= k <= 32768,
    ensures
        0 <= a * k <= 0x1_0000_0000_0000_0000 * 32768,
        0 <= a * k / b,
        a <= b ==> a * k / b <= k,
{
    assert(0 <= a * k <= 0x1_0000_0000_0000_0000 * 32768) by (nonlinear_arith)
        requires
            0 <= a <= 0x1_0000_0000_0000_0000,
            0 <= k <= 32768,
    ;
    assert(0 <= a * k / b) by (nonlinear_arith)
        requires
            0 <= a * k,
            0 < b,
    ;
    if a <= b {
        assert(a * k / b <= k) by (nonlinear_arith)
            requires
                0 <= a <= b,
                0 < b,
                0 <= k,
        ;
    }
}

/// Scales a signed source value; see [`normalized_signed`].
fn normalize_signed(value: i128, min: i128, max: i128) -> (res: Option<(i16, bool)>)
    requires
        -0x1_0000_0000_0000_0000 <= min < 0 < max <= 0x1_0000_0000_0000_0000,
        -0x1_0000_0000_0000_0000 <= value <= 0x1_0000_0000_0000_0000,
    ensures
        res == normalized_signed(value as int, min as int, max as int),
{
    let n: i128 = if value >= 0 {
        proof {
            lemma_scaled_bounds(value as int, max as int, 32767);
        }
        value * 32767 / max
    } else {
        proof {
            lemma_scaled_bounds(-value, -min, 32768);
        }
        let magnitude: i128 = (-value) * 32768 / (-min);
        -magnitude
    };
    if n < -32768 || n > 32767 {
        return None;
    }
    Some((n as i16, value == min || value == max))
}

/// Scales an unsigned source value; see [`normalized_unsigned`].
fn normalize_unsigned(value: u128, midpoint: u128, max: u128) -> (res: Option<(i16, bool)>)
    requires
        0 < midpoint < max <= 0x1_0000_0000_0000_0000,
        value <= 0x1_0000_0000_0000_0000,
    ensures
        res == normalized_unsigned(value as int, midpoint as int, max as int),
{
    let n: i128 = if value >= midpoint {
        proof {
            lemma_scaled_bounds(value - midpoint, max - midpoint, 32767);
        }
        let positive: u128 = (value - midpoint) * 32767 / (max - midpoint);
        if positive > 32767 {
            return None;
        }
        positive as i128
    } else {
        proof {
            lemma_scaled_bounds(midpoint - value, midpoint as int, 32768);
        }
        let negative: u128 = (midpoint - value) * 32768 / midpoint;
        if negative > 32768 {
            return None;
        }
        -(negative as i128)
    };
    Some((n as i16, value == 0 || value == max))
}

/// A native sample representation that normalizes to signed 16-bit PCM.
pub trait NormalizeSample: Copy {
    /// The 16-bit value and whether the source sat at a full-scale endpoint, or
    /// `None` when the value cannot be represented.
    spec fn normalized_value(self) -> Option<(i16, bool)>;

    /// Normalizes one sample.
    fn normalize(self) -> (res: Option<(i16, bool)>)
        ensures
            res == self.normalized_value();
}

impl NormalizeSample for i8 {
    open spec fn normalized_value(self) -> Option<(i16, bool)> {
        normalized_signed(self as int, -128, 127)
    }

    fn normalize(self) -> (res: Option<(i16, bool)>)
        ensures
            res == normalized_signed(self as int, -128, 127),
    {
        normalize_signed(self as i128, -128, 127)
    }
}

impl NormalizeSample for i16 {
    open spec fn normalized_value(self) -> Option<(i16, bool)> {
        normalized_signed(self as int, -32768, 32767)
    }

    fn normalize(self) -> (res: Option<(i16, bool)>)
        ensures
            res == normalized_signed(self as int, -32768, 32767),
    {
        normalize_signed(self as i128, -32768, 32767)
    }
}

impl NormalizeSample for i32 {
    open spec fn normalized_value(self) -> Option<(i16, bool)> {
        normalized_signed(self as int, i32::MIN as int, i32::MAX as int)
    }

    fn normalize(self) -> (res: Option<(i16, bool)>)
        ensures
            res == normalized_signed(self as int, i32::MIN as int, i32::MAX as int),
    {
        normalize_signed(self as i128, -2_147_483_648, 2_147_483_647)
    }
}

impl NormalizeSample for i64 {
    open spec fn normalized_value(self) -> Option<(i16, bool)> {
        normalized_signed(self as int, i64::MIN as int, i64::MAX as int)
    }

    fn normalize(self) -> (res: Option<(i16, bool)>)
        ensures
            res == normalized_signed(self as int, i64::MIN as int, i64::MAX as int),
    {
        normalize_signed(self as i128, -9_223_372_036_854_775_808, 9_223_372_036_854_775_807)
    }
}

impl NormalizeSample for u8 {
    open spec fn normalized_value(self) -> Option<(i16, bool)> {
        normalized_unsigned(self as int, 128, 255)
    }

    fn normalize(self) -> (res: Option<(i16, bool)>)
        ensures
            res == normalized_unsigned(self as int, 128, 255),
    {
        normalize_unsigned(self as u128, 128, 255)
    }
}

impl NormalizeSample for u16 {
    open spec fn normalized_value(self) -> Option<(i16, bool)> {
        normalized_unsigned(self as int, 32768, 65535)
    }

    fn normalize(self) -> (res: Option<(i16, bool)>)
        ensures
            res == normalized_unsigned(self as int, 32768, 65535),
    {
        normalize_unsigned(self as u128, 32768, 65535)
    }
}

impl NormalizeSample for u32 {
    open spec fn normalized_value(self) -> Option<(i16, bool)> {
        normalized_unsigned(self as int, 2_147_483_648, u32::MAX as int)
    }

    fn normalize(self) -> (res: Option<(i16, bool)>)
        ensures
            res == normalized_unsigned(self as int, 2_147_483_648, u32::MAX as int),
    {
        normalize_unsigned(self as u128, 2_147_483_648, 4_294_967_295)
    }
}

impl NormalizeSample for u64 {
    open spec fn normalized_value(self) -> Option<(i16, bool)> {
        normalized_unsigned(self as int, 9_223_372_036_854_775_808, u64::MAX as int)
    }

    fn normalize(self) -> (res: Option<(i16, bool)>)
        ensures
            res == normalized_unsigned(self as int, 9_223_372_036_854_775_808, u64::MAX as int),
    {
        normalize_unsigned(self as u128, 9_223_372_036_854_775_808, 18_446_744_073_709_551_615)
    }
}

/// Normalizes a packed signed 24-bit sample given by its integer value.
pub fn normalize_signed24(value: i32) -> (res: Option<(i16, bool)>)
    ensures
        res == normalized_signed(value as int, -8_388_608, 8_388_607),
{
    normalize_signed(value as i128, -8_388_608, 8_388_607)
}

/// Normalizes a packed unsigned 24-bit sample given by its integer value.
pub fn normalize_unsigned24(value: u32) -> (res: Option<(i16, bool)>)
    ensures
        res == normalized_unsigned(value as int, 8_388_608, 16_777_215),
{
    normalize_unsigned(value as u128, 8_388_608, 16_777_215)
}

/// A sample the platform layer has already normalized to 16 bits, for
/// formats whose scaling happens outside this library.
#[derive(Debug, Clone, Copy, PartialEq, Eq, Structural)]
pub enum PlatformSample {
    /// A representable sample and whether its source sat at full scale.
    Sample {
        /// The 16-bit value.
        value: i16,
        /// Whether the source value sat at or beyond full scale.
        clipped: bool,
    },
    /// The source value could not be represented.
    Unrepresentable,
}

impl NormalizeSample for PlatformSample {
    open spec fn normalized_value(self) -> Option<(i16, bool)> {
        match self {
            PlatformSample::Sample { value, clipped } => Some((value, clipped)),
            PlatformSample::Unrepresentable => None,
        }
    }

    fn normalize(self) -> (res: Option<(i16, bool)>)
        ensures
            res == self.normalized_value(),
    {
        match self {
            PlatformSample::Sample { value, clipped } => Some((value, clipped)),
            PlatformSample::Unrepresentable => None,
        }
    }
}

/// The normalized sample of the selected channel in frame `frame` of an
/// interleaved buffer with `channels` channels.
pub open spec fn selected_sample<T: NormalizeSample>(data: Seq<T>, frame: int, channels: int, selected: int) -> Option<(i16, bool)> {
    data[frame * channels + selected].normalized_value()
}

/// Whether the selected channel of every frame in `[start, start + count)` can be represented.
pub open spec fn frames_representable<T: NormalizeSample>(data: Seq<T>, start: int, count: int, channels: int, selected: int) -> bool {
    forall|f: int| start <= f < start + count ==> (#[trigger] selected_sample(data, f, channels, selected)) is Some
}

/// Number of selected-channel samples in `[start, start + count)` that sat at full scale.
pub open spec fn clip_count<T: NormalizeSample>(data: Seq<T>, start: int, count: int, channels: int, selected: int) -> nat
    decreases count,
{
    if count <= 0 {
        0
    } else {
        clip_count(data, start, count - 1, channels, selected) + if selected_sample(
            data,
            start + count - 1,
            channels,
            selected,
        ).unwrap().1 {
            1nat
        } else {
            0nat
        }
    }
}

// ----- callback timing -----

/// A paired wall-clock and monotonic reading.
#[derive(Debug, Clone, Copy, PartialEq, Eq, Structural)]
pub struct ClockReading {
    /// UTC milliseconds since the Unix epoch.
    pub utc_unix_millis: i64,
    /// Process-local monotonic milliseconds.
    pub monotonic_millis: u64,
}

/// Timing evidence for one callback buffer.
#[derive(Debug, Clone, Copy, PartialEq, Eq, Structural)]
pub struct CallbackTiming {
    /// UTC time of the first frame.
    pub utc_unix_millis: i64,
    /// Monotonic time of the first frame.
    pub monotonic_millis: u64,
    /// Observed delay between capture and callback.
    pub callback_delay_millis: u32,
}

/// Subtraction clamped to the `i64` range.
pub open spec fn saturating_sub_i64(a: int, b: int) -> int {
    if a - b < i64::MIN { i64::MIN as int } else if a - b > i64::MAX { i64::MAX as int } else { a - b }
}

/// Subtraction clamped at zero.
pub open spec fn saturating_sub_nat(a: int, b: int) -> int {
    if a - b < 0 { 0 } else { a - b }
}

/// Timing of a callback whose buffer was captured `delay_millis` before `reading`.
pub open spec fn callback_timing_of(reading: ClockReading, delay_millis: int) -> CallbackTiming {
    let delay = if delay_millis > MAX_RECORDED_CALLBACK_DELAY_MILLIS { MAX_RECORDED_CALLBACK_DELAY_MILLIS as int } else { delay_millis };
    CallbackTiming {
        utc_unix_millis: saturating_sub_i64(reading.utc_unix_millis as int, delay) as i64,
        monotonic_millis: saturating_sub_nat(reading.monotonic_millis as int, delay) as u64,
        callback_delay_millis: delay as u32,
    }
}

/// Timing of a callback from the clock reading taken in it and the backend's
/// capture-to-callback delay, which is bounded before use.
pub fn callback_timing(reading: ClockReading, delay_millis: u128) -> (res: CallbackTiming)
    ensures
        res == callback_timing_of(reading, delay_millis as int),
{
    let delay: u32 = if delay_millis > MAX_RECORDED_CALLBACK_DELAY_MILLIS as u128 {
        MAX_RECORDED_CALLBACK_DELAY_MILLIS
    } else {
        delay_millis as u32
    };
    let utc_unix_millis: i64 = if reading.utc_unix_millis < i64::MIN + delay as i64 {
        i64::MIN
    } else {
        reading.utc_unix_millis - delay as i64
    };
    CallbackTiming {
        utc_unix_millis,
        monotonic_millis: reading.monotonic_millis.saturating_sub(delay as u64),
        callback_delay_millis: delay,
    }
}

/// Source of paired readings inside the realtime callback.
pub trait CallbackClock {
    /// One paired reading.
    fn reading(&self) -> ClockReading;
}

/// Production callback clock: UTC from the system clock and monotonic time since construction.
pub struct SystemCallbackClock {
    monotonic_origin: std::time::Instant,
}

impl SystemCallbackClock {
    /// Starts a monotonic timeline at the current instant.
    pub fn new() -> (res: Self) {
        SystemCallbackClock { monotonic_origin: monotonic_now() }
    }
}

impl CallbackClock for SystemCallbackClock {
    fn reading(&self) -> (res: ClockReading)
        ensures
            res.utc_unix_millis >= 0,
    {
        let now = wall_clock_now();
        let utc_unix_millis: i64 = match since_unix_epoch(&now) {
            Ok(d) => {
                let millis = duration_as_millis(&d);
                if millis <= i64::MAX as u128 {
                    millis as i64
                } else {
                    0
                }
            },
            Err(_) => 0,
        };
        let elapsed = elapsed_since(&self.monotonic_origin);
        let elapsed_millis = duration_as_millis(&elapsed);
        let monotonic_millis: u64 = if elapsed_millis <= u64::MAX as u128 {
            elapsed_millis as u64
        } else {
            u64::MAX
        };
        ClockReading { utc_unix_millis, monotonic_millis }
    }
}

// ----- bounded queues -----

/// `crossbeam_queue::ArrayQueue<T>`: the bounded lock-free queue that carries
/// buffers between the realtime callback and the worker.
#[verifier::external_type_specification]
#[verifier::external_body]
#[verifier::reject_recursive_types(T)]
pub struct ExArrayQueue<T>(ArrayQueue<T>);

/// `ArrayQueue::new`: an empty queue holding at most `capacity` elements. The
/// crate panics on a zero capacity, which `requires` excludes. The queue is
/// shared between threads through `&self`, so its contents change behind
/// shared references and no clause of these items names them.
#[verifier::external_body]
fn queue_with_capacity<T>(capacity: usize) -> (queue: ArrayQueue<T>)
    requires
        capacity > 0,
{
    ArrayQueue::new(capacity)
}

/// `ArrayQueue::push`: appends `value`, or hands the same value back as `Err`
/// when the queue is full. Whether it is full depends on other threads.
#[verifier::external_body]
fn queue_push<T>(queue: &ArrayQueue<T>, value: T) -> (res: Result<(), T>)
    ensures
        res matches Err(v) ==> v == value,
{
    queue.push(value)
}

/// `ArrayQueue::pop`: the oldest element, or `None` when the queue is empty.
/// What comes back depends on other threads; nothing is claimed of it.
#[verifier::external_body]
fn queue_pop<T>(queue: &ArrayQueue<T>) -> Option<T> {
    queue.pop()
}

/// One preallocated callback buffer of exactly one batch's capacity.
struct SampleBuffer {
    samples: Vec<i16>,
}

impl SampleBuffer {
    #[verifier::type_invariant]
    spec fn inv(self) -> bool {
        self.samples@.len() == MAX_CAPTURE_BATCH_FRAMES
    }

    spec fn view_samples(self) -> Seq<i16> {
        self.samples@
    }

    fn silent() -> (res: Self)
        ensures
            res.view_samples().len() == MAX_CAPTURE_BATCH_FRAMES,
            forall|j: int| 0 <= j < MAX_CAPTURE_BATCH_FRAMES ==> #[trigger] res.view_samples()[j] == 0,
    {
        let mut samples: Vec<i16> = Vec::new();
        let mut i: u32 = 0;
        while i < MAX_CAPTURE_BATCH_FRAMES
            invariant
                samples@.len() == i,
                i <= MAX_CAPTURE_BATCH_FRAMES,
                forall|j: int| 0 <= j < i ==> #[trigger] samples@[j] == 0,
            decreases MAX_CAPTURE_BATCH_FRAMES - i,
        {
            samples.push(0);
            i = i + 1;
        }
        SampleBuffer { samples }
    }

    fn with_sample(self, index: usize, value: i16) -> (res: Self)
        requires
            index < MAX_CAPTURE_BATCH_FRAMES,
        ensures
            res.view_samples() == self.view_samples().update(index as int, value),
    {
        proof {
            use_type_invariant(&self);
        }
        let SampleBuffer { mut samples } = self;
        samples.set(index, value);
        SampleBuffer { samples }
    }

    fn prefix(&self, count: usize) -> (res: Vec<i16>)
        requires
            count <= MAX_CAPTURE_BATCH_FRAMES,
        ensures
            res@ == self.view_samples().subrange(0, count as int),
    {
        proof {
            use_type_invariant(self);
        }
        let mut out: Vec<i16> = Vec::new();
        let mut i: usize = 0;
        while i < count
            invariant
                i <= count <= self.samples@.len(),
                out@ == self.samples@.subrange(0, i as int),
            decreases count - i,
        {
            out.push(self.samples[i]);
            i = i + 1;
        }
        out
    }
}

/// One filled buffer waiting for the worker.
struct RawBatch {
    samples: SampleBuffer,
    frame_count: usize,
    first_frame: CaptureTimeEvidence,
    discontinuity: Option<CaptureDiscontinuity>,
    diagnostics: CaptureDiagnostics,
}

impl RawBatch {
    #[verifier::type_invariant]
    spec fn inv(self) -> bool {
        batch_check(self.first_frame, self.discontinuity, self.diagnostics, self.frame_count as nat)
            == Ok::<(), crate::audio::ReceiveAudioError>(())
    }

    spec fn queued_view(self) -> QueuedBatch {
        QueuedBatch {
            samples: self.samples.view_samples().subrange(0, self.frame_count as int),
            position: self.first_frame.position@,
            utc_unix_millis: self.first_frame.utc_unix_millis,
            monotonic_millis: self.first_frame.monotonic_millis,
            discontinuity: match self.discontinuity {
                Some(d) => Some((d.at@, d.kind, d.dropped_frames)),
                None => None,
            },
            clipped_samples: self.diagnostics.clipped_samples,
            callback_delay_millis: self.diagnostics.callback_delay_millis,
        }
    }
}

/// Fault code kept in an atomic for a terminal fault: 1 permission, 2 device lost, 3 other.
pub open spec fn terminal_code(kind: InputFaultKind) -> u32 {
    match kind {
        InputFaultKind::PermissionDenied => 1,
        InputFaultKind::DeviceLost => 2,
        _ => 3,
    }
}

/// State shared by the realtime callback and the worker of one stream generation.
///
/// All buffers are preallocated; the callback only moves them between queues.
pub struct SharedCapture {
    configuration: InputConfiguration,
    process_generation: ProcessGeneration,
    stream_generation: StreamGeneration,
    capacity: usize,
    free: ArrayQueue<SampleBuffer>,
    ready: ArrayQueue<RawBatch>,
    faults: ArrayQueue<InputFault>,
    stopped: AtomicBool,
    overflow_count: AtomicU64,
    clipped_sample_count: AtomicU64,
    max_callback_delay_millis: AtomicU32,
    terminal_fault: AtomicU32,
    terminal_fault_time: AtomicU64,
    terminal_fault_reported: AtomicBool,
}

impl SharedCapture {
    #[verifier::type_invariant]
    spec fn inv(self) -> bool {
        2 <= self.capacity <= MAX_CAPTURE_QUEUE_BATCHES
    }

    /// The exact configuration of the stream.
    pub closed spec fn spec_configuration(&self) -> InputConfiguration {
        self.configuration
    }

    /// The process generation of the stream.
    pub closed spec fn spec_process(&self) -> ProcessGeneration {
        self.process_generation
    }

    /// The stream generation.
    pub closed spec fn spec_stream(&self) -> StreamGeneration {
        self.stream_generation
    }

    /// The number of preallocated buffers.
    pub closed spec fn spec_capacity(&self) -> usize {
        self.capacity
    }

    /// Preallocates `queue_batches` buffers for one stream generation.
    pub fn new(
        configuration: InputConfiguration,
        process_generation: ProcessGeneration,
        stream_generation: StreamGeneration,
        queue_batches: usize,
    ) -> (res: Result<Arc<SharedCapture>, InputCaptureError>)
        ensures
            match res {
                Ok(s) => 2 <= queue_batches <= MAX_CAPTURE_QUEUE_BATCHES && s.spec_configuration() == configuration
                    && s.spec_process() == process_generation && s.spec_stream() == stream_generation
                    && s.spec_capacity() == queue_batches,
                Err(e) => if queue_batches < 2 || queue_batches > MAX_CAPTURE_QUEUE_BATCHES {
                    e == InputCaptureError::InvalidQueueCapacity
                } else {
                    e == InputCaptureError::BackendFailure
                },
            },
    {
        if queue_batches < 2 || queue_batches > MAX_CAPTURE_QUEUE_BATCHES {
            return Err(InputCaptureError::InvalidQueueCapacity);
        }
        let free: ArrayQueue<SampleBuffer> = queue_with_capacity(queue_batches);
        let mut i: usize = 0;
        while i < queue_batches
            invariant
                i <= queue_batches,
                2 <= queue_batches <= MAX_CAPTURE_QUEUE_BATCHES,
            decreases queue_batches - i,
        {
            match queue_push(&free, SampleBuffer::silent()) {
                Ok(()) => {},
                Err(_) => {
                    return Err(InputCaptureError::BackendFailure);
                },
            }
            i = i + 1;
        }
        Ok(Arc::new(SharedCapture {
            configuration,
            process_generation,
            stream_generation,
            capacity: queue_batches,
            free,
            ready: queue_with_capacity(queue_batches),
            faults: queue_with_capacity(queue_batches),
            stopped: AtomicBool::new(false),
            overflow_count: AtomicU64::new(0),
            clipped_sample_count: AtomicU64::new(0),
            max_callback_delay_millis: AtomicU32::new(0),
            terminal_fault: AtomicU32::new(0),
            terminal_fault_time: AtomicU64::new(0),
            terminal_fault_reported: AtomicBool::new(false),
        }))
    }

    /// Whether callback processing has stopped after an explicit stop or a fault.
    pub fn is_stopped(&self) -> bool {
        self.stopped.load(Ordering::Acquire)
    }

    /// Marks the stream stopped; fails when it had already stopped.
    pub fn request_stop(&self) -> (res: Result<(), InputCaptureError>)
        ensures
            res matches Err(e) ==> e == InputCaptureError::Stopped,
    {
        if self.stopped.swap(true, Ordering::AcqRel) {
            return Err(InputCaptureError::Stopped);
        }
        Ok(())
    }

    /// Returns the next worker-owned batch, allocating only on the caller's thread.
    pub fn next_batch(&self) -> (res: Result<Option<CaptureBatch>, InputCaptureError>)
        ensures
            match res {
                Ok(Some(b)) => b.spec_process() == self.spec_process() && b.spec_stream() == self.spec_stream()
                    && b.spec_configuration() == self.spec_configuration()
                    && 1 <= b.spec_samples().len() <= MAX_CAPTURE_BATCH_FRAMES,
                Ok(None) => true,
                Err(e) => e == InputCaptureError::BackendFailure,
            },
    {
        if self.is_stopped() {
            self.discard_ready();
            return Ok(None);
        }
        let raw = match queue_pop(&self.ready) {
            Some(raw) => raw,
            None => {
                return Ok(None);
            },
        };
        proof {
            use_type_invariant(&raw);
        }
        let samples = raw.samples.prefix(raw.frame_count);
        let batch = CaptureBatch::new(
            self.process_generation,
            self.stream_generation,
            self.configuration,
            raw.first_frame,
            raw.discontinuity,
            raw.diagnostics,
            samples,
        );
        match queue_push(&self.free, raw.samples) {
            Ok(()) => {},
            Err(_) => {
                return Err(InputCaptureError::BackendFailure);
            },
        }
        match batch {
            Ok(b) => Ok(Some(b)),
            Err(_) => Err(InputCaptureError::BackendFailure),
        }
    }

    /// Returns queued buffers to the free pool without delivering them, at most
    /// one queue's capacity of them per call.
    pub fn discard_ready(&self) {
        proof {
            use_type_invariant(self);
        }
        let mut remaining: usize = self.capacity;
        while remaining > 0
            decreases remaining,
        {
            match queue_pop(&self.ready) {
                Some(raw) => {
                    let _ = queue_push(&self.free, raw.samples);
                },
                None => {
                    break;
                },
            }
            remaining = remaining - 1;
        }
    }

    /// Queues one timestamped fault, dropping it when the fault queue is full.
    pub fn emit_fault(&self, monotonic_millis: u64, kind: InputFaultKind) {
        let _ = queue_push(
            &self.faults,
            InputFault {
                process_generation: self.process_generation,
                stream_generation: Some(self.stream_generation),
                monotonic_millis,
                kind,
            },
        );
    }

    /// Returns the next typed diagnostic without blocking; a terminal fault is
    /// reported once, before queued faults.
    pub fn next_fault(&self) -> (res: Option<InputFault>) {
        let terminal = self.terminal_fault.load(Ordering::Acquire);
        if terminal != 0 && !self.terminal_fault_reported.swap(true, Ordering::AcqRel) {
            let kind = match terminal {
                1 => InputFaultKind::PermissionDenied,
                2 => InputFaultKind::DeviceLost,
                _ => InputFaultKind::BackendFailure,
            };
            return Some(InputFault {
                process_generation: self.process_generation,
                stream_generation: Some(self.stream_generation),
                monotonic_millis: self.terminal_fault_time.load(Ordering::Acquire),
                kind,
            });
        }
        queue_pop(&self.faults)
    }

    /// Records a terminal fault and stops callback processing.
    pub fn stop_with_terminal_fault(&self, monotonic_millis: u64, kind: InputFaultKind) {
        let code: u32 = match kind {
            InputFaultKind::PermissionDenied => 1,
            InputFaultKind::DeviceLost => 2,
            _ => 3,
        };
        self.terminal_fault_time.store(monotonic_millis, Ordering::Release);
        self.terminal_fault.store(code, Ordering::Release);
        self.stopped.store(true, Ordering::Release);
    }

    /// Stops processing after a backend error on the running stream.
    pub fn stop_for_backend_error<C: CallbackClock>(&self, kind: BackendErrorKind, clock: &C) {
        let fault = backend_fault_kind(kind);
        self.stop_with_terminal_fault(clock.reading().monotonic_millis, fault);
    }

    /// A snapshot of the bounded callback health counters.
    pub fn health(&self) -> (res: Result<InputHealth, InputCaptureError>)
        ensures
            res matches Err(e) ==> e == InputCaptureError::BackendFailure,
    {
        let delay = self.max_callback_delay_millis.load(Ordering::Acquire);
        match InputHealth::new(
            delay,
            0,
            self.overflow_count.load(Ordering::Acquire),
            self.clipped_sample_count.load(Ordering::Acquire),
            delay,
        ) {
            Ok(h) => Ok(h),
            Err(_) => Err(InputCaptureError::BackendFailure),
        }
    }

    fn record_callback_delay(&self, millis: u32) {
        self.max_callback_delay_millis.fetch_max(millis, Ordering::AcqRel);
    }

    fn count_overflow(&self) {
        self.overflow_count.fetch_add(1, Ordering::AcqRel);
    }

    fn count_clipped(&self, samples: u64) {
        self.clipped_sample_count.fetch_add(samples, Ordering::AcqRel);
    }
}

// ----- the realtime callback -----

/// What one callback invocation did with its buffer.
#[derive(Debug, Clone, Copy, PartialEq, Eq, Structural)]
pub enum CallbackOutcome {
    /// Processing had already stopped; the buffer was ignored.
    Ignored,
    /// A backend failure stopped processing while the buffer was handled.
    Faulted,
    /// Every source frame of the buffer was either queued or dropped.
    Completed {
        /// Source frames in the buffer.
        frames: u64,
        /// Frames delivered to the worker queue.
        queued_frames: u64,
        /// Frames dropped because no buffer or queue slot was free.
        dropped_frames: u64,
    },
}

/// Callback-thread state of one stream generation.
pub struct CallbackState<C> {
    shared: Arc<SharedCapture>,
    clock: Arc<C>,
    position: CapturePosition,
    pending_dropped_frames: u64,
    first_batch: bool,
    fates: Ghost<Seq<ChunkFate>>,
    delivered: Ghost<Seq<QueuedBatch>>,
}

/// Whole milliseconds from a callback's first frame to frame `frame_offset`
/// at `rate` frames per second, with the product clamped to `usize`.
pub open spec fn frame_offset_millis(frame_offset: int, rate: int) -> int {
    (if frame_offset * 1000 > usize::MAX { usize::MAX as int } else { frame_offset * 1000 }) / rate
}

/// UTC of a batch starting `offset` milliseconds into a callback, clamped to `i64`.
pub open spec fn batch_utc(timing: CallbackTiming, offset: int) -> int {
    let shift = if offset > i64::MAX { i64::MAX as int } else { offset };
    if timing.utc_unix_millis + shift > i64::MAX { i64::MAX as int } else { timing.utc_unix_millis + shift }
}

/// Monotonic time of a batch starting `offset` milliseconds into a callback, clamped to `u64`.
pub open spec fn batch_monotonic(timing: CallbackTiming, offset: int) -> int {
    if timing.monotonic_millis + offset > u64::MAX { u64::MAX as int } else { timing.monotonic_millis + offset }
}

/// The discontinuity a batch at `at` carries: the frames dropped since the
/// last queued batch, else a stream restart on the first batch, else none.
pub open spec fn batch_discontinuity(at: CapturePosition, pending_dropped: u64, first_batch: bool) -> Option<CaptureDiscontinuity> {
    if pending_dropped > 0 {
        Some(CaptureDiscontinuity { at, kind: CaptureDiscontinuityKind::Overflow, dropped_frames: pending_dropped })
    } else if first_batch {
        Some(CaptureDiscontinuity { at, kind: CaptureDiscontinuityKind::StreamRestart, dropped_frames: 0 })
    } else {
        None
    }
}

/// Copies the selected channel of `frame_count` frames, starting at frame
/// `frame_offset`, into the first samples of `buffer`, counting clipped ones.
/// Fails, handing the buffer back, when a sample cannot be represented.
fn fill_selected<T: NormalizeSample>(
    data: &[T],
    buffer: SampleBuffer,
    frame_offset: usize,
    frame_count: usize,
    channels: usize,
    selected: usize,
) -> (res: Result<(SampleBuffer, u32), SampleBuffer>)
    requires
        frame_count <= MAX_CAPTURE_BATCH_FRAMES,
        1 <= channels <= 32,
        selected < channels,
        (frame_offset + frame_count) * channels <= data@.len(),
    ensures
        match res {
            Ok((b, clipped)) => {
                &&& frames_representable(data@, frame_offset as int, frame_count as int, channels as int, selected as int)
                &&& clipped == clip_count(data@, frame_offset as int, frame_count as int, channels as int, selected as int)
                &&& clipped <= frame_count
                &&& b.view_samples().len() == MAX_CAPTURE_BATCH_FRAMES
                &&& forall|i: int| 0 <= i < frame_count ==> #[trigger] b.view_samples()[i]
                    == selected_sample(data@, frame_offset + i, channels as int, selected as int).unwrap().0
                &&& b.view_samples().subrange(frame_count as int, MAX_CAPTURE_BATCH_FRAMES as int)
                    == buffer.view_samples().subrange(frame_count as int, MAX_CAPTURE_BATCH_FRAMES as int)
            },
            Err(_) => !frames_representable(data@, frame_offset as int, frame_count as int, channels as int, selected as int),
        },
{
    proof {
        use_type_invariant(&buffer);
    }
    let ghost original = buffer.view_samples();
    let data_len: usize = data.len();
    let mut buffer = buffer;
    let mut clipped: u32 = 0;
    let mut output_index: usize = 0;
    while output_index < frame_count
        invariant
            frame_count <= MAX_CAPTURE_BATCH_FRAMES,
            1 <= channels <= 32,
            selected < channels,
            data_len == data@.len(),
            (frame_offset + frame_count) * channels <= data@.len(),
            output_index <= frame_count,
            clipped == clip_count(data@, frame_offset as int, output_index as int, channels as int, selected as int),
            clipped <= output_index,
            frames_representable(data@, frame_offset as int, output_index as int, channels as int, selected as int),
            forall|i: int| 0 <= i < output_index ==> #[trigger] buffer.view_samples()[i]
                == selected_sample(data@, frame_offset + i, channels as int, selected as int).unwrap().0,
            buffer.view_samples().len() == MAX_CAPTURE_BATCH_FRAMES,
            original.len() == MAX_CAPTURE_BATCH_FRAMES,
            buffer.view_samples().subrange(frame_count as int, MAX_CAPTURE_BATCH_FRAMES as int)
                == original.subrange(frame_count as int, MAX_CAPTURE_BATCH_FRAMES as int),
        decreases frame_count - output_index,
    {
        proof {
            assert((frame_offset + output_index) * channels + selected < (frame_offset + frame_count) * channels
                && frame_offset + output_index <= (frame_offset + output_index) * channels
                && (frame_offset + output_index) * channels <= (frame_offset + frame_count) * channels)
                by (nonlinear_arith)
                requires
                    output_index < frame_count,
                    selected < channels,
                    channels >= 1,
            ;
        }
        let source_index = (frame_offset + output_index) * channels + selected;
        let ghost f = frame_offset + output_index;
        assert(source_index == f * channels + selected);
        match data[source_index].normalize() {
            Some((sample, clip)) => {
                let ghost before = buffer.view_samples();
                buffer = buffer.with_sample(output_index, sample);
                proof {
                    use_type_invariant(&buffer);
                    assert(buffer.view_samples().subrange(frame_count as int, MAX_CAPTURE_BATCH_FRAMES as int)
                        =~= before.subrange(frame_count as int, MAX_CAPTURE_BATCH_FRAMES as int));
                    assert(selected_sample(data@, f, channels as int, selected as int) == Some((sample, clip)));
                    assert forall|g: int| frame_offset <= g < frame_offset + output_index + 1 implies
                        (#[trigger] selected_sample(data@, g, channels as int, selected as int)) is Some by {
                        if g < f {
                        }
                    }
                }
                if clip {
                    clipped = clipped + 1;
                }
            },
            None => {
                proof {
                    assert(selected_sample(data@, f, channels as int, selected as int) is None);
                }
                return Err(buffer);
            },
        }
        output_index = output_index + 1;
    }
    Ok((buffer, clipped))
}

/// Builds the batch handed to the worker from a filled buffer: its first
/// frame's position and times, its discontinuity, and its diagnostics. Fails,
/// handing the buffer back, when the batch UTC precedes the epoch or the
/// callback delay is out of bounds.
fn batch_for(
    samples: SampleBuffer,
    frame_count: usize,
    position: CapturePosition,
    timing: CallbackTiming,
    frame_offset: usize,
    rate: usize,
    pending_dropped: u64,
    first_batch: bool,
    clipped: u32,
) -> (res: Result<RawBatch, SampleBuffer>)
    requires
        1 <= frame_count <= MAX_CAPTURE_BATCH_FRAMES,
        rate >= 1,
        clipped <= frame_count,
    ensures
        ({
            let offset = frame_offset_millis(frame_offset as int, rate as int);
            let utc = batch_utc(timing, offset);
            match res {
                Ok(b) => {
                    &&& utc >= 0
                    &&& timing.callback_delay_millis <= crate::audio::MAX_CALLBACK_DELAY_MILLIS
                    &&& b.samples == samples
                    &&& b.frame_count == frame_count
                    &&& b.first_frame == (CaptureTimeEvidence {
                        position,
                        utc_unix_millis: utc as i64,
                        monotonic_millis: batch_monotonic(timing, offset) as u64,
                    })
                    &&& b.discontinuity == batch_discontinuity(position, pending_dropped, first_batch)
                    &&& b.diagnostics == (CaptureDiagnostics {
                        clipped_samples: clipped,
                        callback_delay_millis: timing.callback_delay_millis,
                    })
                },
                Err(b) => b == samples && (utc < 0 || timing.callback_delay_millis > crate::audio::MAX_CALLBACK_DELAY_MILLIS),
            }
        }),
{
    let scaled_offset: usize = if frame_offset > usize::MAX / 1_000 {
        usize::MAX
    } else {
        frame_offset * 1_000
    };
    let offset_usize: usize = scaled_offset / rate;
    let offset_millis: u64 = if offset_usize as u128 > u64::MAX as u128 {
        u64::MAX
    } else {
        offset_usize as u64
    };
    let offset_signed: i64 = if offset_millis > i64::MAX as u64 {
        i64::MAX
    } else {
        offset_millis as i64
    };
    let utc: i64 = if timing.utc_unix_millis > i64::MAX - offset_signed {
        i64::MAX
    } else {
        timing.utc_unix_millis + offset_signed
    };
    let first_frame = match CaptureTimeEvidence::new(position, utc, timing.monotonic_millis.saturating_add(offset_millis)) {
        Ok(value) => value,
        Err(_) => {
            return Err(samples);
        },
    };
    let diagnostics = match CaptureDiagnostics::new(clipped, timing.callback_delay_millis) {
        Ok(value) => value,
        Err(_) => {
            return Err(samples);
        },
    };
    let discontinuity = if pending_dropped > 0 {
        Some(CaptureDiscontinuity { at: position, kind: CaptureDiscontinuityKind::Overflow, dropped_frames: pending_dropped })
    } else if first_batch {
        Some(CaptureDiscontinuity { at: position, kind: CaptureDiscontinuityKind::StreamRestart, dropped_frames: 0 })
    } else {
        None
    };
    Ok(RawBatch { samples, frame_count, first_frame, discontinuity, diagnostics })
}

/// Builds the batch for `frame_count` frames of a callback buffer starting at
/// frame `frame_offset`: the selected channel's normalized samples in order,
/// the first frame's position and times, the discontinuity owed to the
/// previous batches, and the clip count. Fails, handing the buffer back, when
/// a sample cannot be represented, the batch UTC precedes the epoch, or the
/// callback delay is out of bounds.
fn build_batch<T: NormalizeSample>(
    data: &[T],
    buffer: SampleBuffer,
    frame_offset: usize,
    frame_count: usize,
    channels: usize,
    selected: usize,
    rate: usize,
    position: CapturePosition,
    timing: CallbackTiming,
    pending_dropped: u64,
    first_batch: bool,
) -> (res: Result<RawBatch, SampleBuffer>)
    requires
        1 <= frame_count <= MAX_CAPTURE_BATCH_FRAMES,
        1 <= channels <= 32,
        selected < channels,
        rate >= 1,
        (frame_offset + frame_count) * channels <= data@.len(),
    ensures
        ({
            let offset = frame_offset_millis(frame_offset as int, rate as int);
            let utc = batch_utc(timing, offset);
            let representable = frames_representable(data@, frame_offset as int, frame_count as int, channels as int, selected as int);
            match res {
                Ok(b) => {
                    &&& representable
                    &&& utc >= 0
                    &&& timing.callback_delay_millis <= crate::audio::MAX_CALLBACK_DELAY_MILLIS
                    &&& b.frame_count == frame_count
                    &&& forall|i: int| 0 <= i < frame_count ==> #[trigger] b.samples.view_samples()[i]
                        == selected_sample(data@, frame_offset + i, channels as int, selected as int).unwrap().0
                    &&& b.first_frame == (CaptureTimeEvidence {
                        position,
                        utc_unix_millis: utc as i64,
                        monotonic_millis: batch_monotonic(timing, offset) as u64,
                    })
                    &&& b.discontinuity == batch_discontinuity(position, pending_dropped, first_batch)
                    &&& b.diagnostics == (CaptureDiagnostics {
                        clipped_samples: clip_count(data@, frame_offset as int, frame_count as int, channels as int, selected as int) as u32,
                        callback_delay_millis: timing.callback_delay_millis,
                    })
                },
                Err(_) => !representable || utc < 0 || timing.callback_delay_millis > crate::audio::MAX_CALLBACK_DELAY_MILLIS,
            }
        }),
{
    let (filled, clipped) = match fill_selected(data, buffer, frame_offset, frame_count, channels, selected) {
        Ok(filled) => filled,
        Err(buffer) => {
            return Err(buffer);
        },
    };
    batch_for(filled, frame_count, position, timing, frame_offset, rate, pending_dropped, first_batch, clipped)
}

/// A batch as the callback handed it to the worker queue: the selected
/// channel's samples and the first frame's evidence, discontinuity and
/// diagnostics, by value.
pub struct QueuedBatch {
    /// Normalized selected-channel samples, one per frame.
    pub samples: Seq<i16>,
    /// Source-frame position of the first frame.
    pub position: u64,
    /// UTC milliseconds of the first frame.
    pub utc_unix_millis: i64,
    /// Monotonic milliseconds of the first frame.
    pub monotonic_millis: u64,
    /// Position, kind and dropped-frame count of the discontinuity it carries.
    pub discontinuity: Option<(u64, CaptureDiscontinuityKind, u64)>,
    /// Selected-channel samples that sat at full scale.
    pub clipped_samples: u32,
    /// Callback delay the batch reports.
    pub callback_delay_millis: u32,
}

/// What became of one chunk of a callback buffer; the free pool and the
/// worker queue decide it.
pub enum ChunkFate {
    /// No free buffer was available; the chunk's frames were dropped.
    NoFreeBuffer,
    /// The batch was built but the worker queue was full; its frames were dropped.
    QueueFull,
    /// The batch was handed to the worker queue.
    Queued,
}

/// Frames in chunk `k` of a callback buffer of `total` frames.
pub open spec fn chunk_frames(total: int, k: int) -> int {
    if total - k * MAX_CAPTURE_BATCH_FRAMES < MAX_CAPTURE_BATCH_FRAMES {
        total - k * MAX_CAPTURE_BATCH_FRAMES
    } else {
        MAX_CAPTURE_BATCH_FRAMES as int
    }
}

/// The batch built from `count` frames starting at frame `offset` of a callback
/// buffer, at source position `position`, owing `pending` dropped frames, and
/// whether it opens the stream.
pub open spec fn expected_batch<T: NormalizeSample>(
    data: Seq<T>,
    channels: int,
    selected: int,
    rate: int,
    timing: CallbackTiming,
    offset: int,
    count: int,
    position: u64,
    pending: u64,
    first: bool,
) -> QueuedBatch {
    let millis = frame_offset_millis(offset, rate);
    QueuedBatch {
        samples: Seq::new(count as nat, |i: int| selected_sample(data, offset + i, channels, selected).unwrap().0),
        position,
        utc_unix_millis: batch_utc(timing, millis) as i64,
        monotonic_millis: batch_monotonic(timing, millis) as u64,
        discontinuity: if pending > 0 {
            Some((position, CaptureDiscontinuityKind::Overflow, pending))
        } else if first {
            Some((position, CaptureDiscontinuityKind::StreamRestart, 0u64))
        } else {
            None
        },
        clipped_samples: clip_count(data, offset, count, channels, selected) as u32,
        callback_delay_millis: timing.callback_delay_millis,
    }
}

/// The callback's position, pending dropped frames and first-batch flag after
/// the chunks of one buffer met `fates`, starting from `start`, with the
/// batches handed to the worker queue, in order.
pub open spec fn callback_run<T: NormalizeSample>(
    data: Seq<T>,
    channels: int,
    selected: int,
    rate: int,
    timing: CallbackTiming,
    start: (u64, u64, bool),
    fates: Seq<ChunkFate>,
) -> ((u64, u64, bool), Seq<QueuedBatch>)
    decreases fates.len(),
{
    if fates.len() == 0 {
        (start, Seq::empty())
    } else {
        let k = fates.len() - 1;
        let (state, delivered) = callback_run(data, channels, selected, rate, timing, start, fates.drop_last());
        let (position, pending, first) = state;
        let count = chunk_frames((data.len() as int) / channels, k);
        let next = (position + count) as u64;
        match fates.last() {
            ChunkFate::NoFreeBuffer => ((next, crate::audio::timeline::sat_add(pending, count), first), delivered),
            ChunkFate::QueueFull => ((next, count as u64, false), delivered),
            ChunkFate::Queued => (
                (next, 0u64, false),
                delivered.push(expected_batch(data, channels, selected, rate, timing, k * MAX_CAPTURE_BATCH_FRAMES, count, position, pending, first)),
            ),
        }
    }
}

proof fn lemma_fates_step(prev: Seq<ChunkFate>, before: int, fate: ChunkFate)
    requires
        0 <= before <= prev.len(),
    ensures
        prev.push(fate).subrange(before, prev.len() as int + 1).drop_last() == prev.subrange(before, prev.len() as int),
        prev.push(fate).subrange(before, prev.len() as int + 1).last() == fate,
        prev.push(fate).subrange(0, before) == prev.subrange(0, before),
{
    assert(prev.push(fate).subrange(before, prev.len() as int + 1).drop_last() =~= prev.subrange(before, prev.len() as int));
    assert(prev.push(fate).subrange(0, before) =~= prev.subrange(0, before));
}

/// Whether a callback buffer can be taken in whole: non-empty, whole frames,
/// every selected-channel sample representable, a UTC reading not before the
/// epoch, a callback delay within bounds, and a position that stays in range.
pub open spec fn callback_completes<T: NormalizeSample>(data: Seq<T>, channels: int, selected: int, timing: CallbackTiming, position: int) -> bool {
    &&& data.len() > 0
    &&& channels > 0
    &&& (data.len() as int) % channels == 0
    &&& frames_representable(data, 0, (data.len() as int) / channels, channels, selected)
    &&& timing.utc_unix_millis >= 0
    &&& timing.callback_delay_millis <= crate::audio::MAX_CALLBACK_DELAY_MILLIS
    &&& position + (data.len() as int) / channels <= u64::MAX
}

impl<C: CallbackClock> CallbackState<C> {
    /// The shared queues the callback fills.
    pub closed spec fn spec_shared(&self) -> SharedCapture {
        *self.shared
    }

    /// Source frames accounted for since the stream started.
    pub closed spec fn spec_position(&self) -> u64 {
        self.position@
    }

    /// Frames dropped since the last queued batch.
    pub closed spec fn spec_pending_dropped(&self) -> u64 {
        self.pending_dropped_frames
    }

    /// Whether no batch has been prepared yet.
    pub closed spec fn spec_first_batch(&self) -> bool {
        self.first_batch
    }

    /// The fate of every chunk the callback has handled, in order.
    pub closed spec fn spec_fates(&self) -> Seq<ChunkFate> {
        self.fates@
    }

    /// Every batch the callback has handed to the worker queue, in order.
    pub closed spec fn spec_delivered(&self) -> Seq<QueuedBatch> {
        self.delivered@
    }

    /// Whether `after` is this state once one buffer of `data`, timed by
    /// `timing`, was taken in whole: the chunks covering its frames met the
    /// fates recorded for them, and the position, pending dropped frames,
    /// first-batch flag and delivered batches are what those fates give.
    pub open spec fn ran_to<T: NormalizeSample>(&self, after: &Self, data: Seq<T>, timing: CallbackTiming) -> bool {
        let configuration = self.spec_shared().spec_configuration()@;
        let total = (data.len() as int) / (configuration.1 as int);
        let before = self.spec_fates().len() as int;
        let fates = after.spec_fates().subrange(before, after.spec_fates().len() as int);
        let run = callback_run(
            data,
            configuration.1 as int,
            configuration.3 as int,
            configuration.0 as int,
            timing,
            (self.spec_position(), self.spec_pending_dropped(), self.spec_first_batch()),
            fates,
        );
        &&& after.spec_fates().len() >= before
        &&& after.spec_fates().subrange(0, before) == self.spec_fates()
        &&& total <= fates.len() * MAX_CAPTURE_BATCH_FRAMES
        &&& (fates.len() - 1) * MAX_CAPTURE_BATCH_FRAMES < total
        &&& run.0 == (after.spec_position(), after.spec_pending_dropped(), after.spec_first_batch())
        &&& after.spec_delivered() == self.spec_delivered() + run.1
    }

    /// Starts at frame zero with the stream-restart marker pending.
    pub fn new(shared: Arc<SharedCapture>, clock: Arc<C>) -> (res: Self)
        ensures
            res.spec_shared() == *shared,
            res.spec_position() == 0,
            res.spec_pending_dropped() == 0,
            res.spec_first_batch(),
            res.spec_fates().len() == 0,
            res.spec_delivered().len() == 0,
    {
        CallbackState {
            shared,
            clock,
            position: CapturePosition::from_frames(0),
            pending_dropped_frames: 0,
            first_batch: true,
            fates: Ghost(Seq::empty()),
            delivered: Ghost(Seq::empty()),
        }
    }

    /// Source frames accounted for since the stream started.
    pub fn position(&self) -> (res: CapturePosition)
        ensures
            res@ == self.spec_position(),
    {
        self.position
    }

    /// Handles one native buffer whose capture-to-callback delay the backend
    /// reported as `delay_millis`.
    pub fn process_native<T: NormalizeSample>(&mut self, data: &[T], delay_millis: u128) -> (res: CallbackOutcome)
        ensures
            final(self).spec_shared() == old(self).spec_shared(),
            ({
                let channels = old(self).spec_shared().spec_configuration()@.1 as int;
                let n = data@.len() as int;
                &&& (n == 0 || n % channels != 0) ==> (res is Ignored || res is Faulted)
                &&& res matches CallbackOutcome::Completed { frames, .. } ==> frames * channels == n
            }),
            final(self).spec_position() >= old(self).spec_position(),
            final(self).spec_first_batch() ==> old(self).spec_first_batch(),
            match res {
                CallbackOutcome::Ignored => *final(self) == *old(self),
                CallbackOutcome::Faulted => true,
                CallbackOutcome::Completed { frames, queued_frames, dropped_frames } => {
                    &&& frames > 0
                    &&& queued_frames + dropped_frames == frames
                    &&& final(self).spec_position() == old(self).spec_position() + frames
                    &&& queued_frames > 0 ==> !final(self).spec_first_batch()
                    &&& dropped_frames == 0 ==> final(self).spec_pending_dropped() == 0
                },
            },
            res is Completed ==> exists|timing: CallbackTiming|
                #![trigger old(self).ran_to(final(self), data@, timing)]
                timing.callback_delay_millis == (if delay_millis > MAX_RECORDED_CALLBACK_DELAY_MILLIS {
                    MAX_RECORDED_CALLBACK_DELAY_MILLIS as int
                } else {
                    delay_millis as int
                }) && old(self).ran_to(final(self), data@, timing),
    {
        let reading = self.clock.reading();
        let timing = callback_timing(reading, delay_millis);
        self.process(data, timing)
    }

    /// Copies the selected channel of one buffer into preallocated batches.
    ///
    /// Every source frame advances the capture position exactly once, whether
    /// it was queued or dropped for lack of a free buffer or queue slot.
    pub fn process<T: NormalizeSample>(&mut self, data: &[T], timing: CallbackTiming) -> (res: CallbackOutcome)
        ensures
            final(self).spec_shared() == old(self).spec_shared(),
            ({
                let channels = old(self).spec_shared().spec_configuration()@.1 as int;
                let selected = old(self).spec_shared().spec_configuration()@.3 as int;
                let n = data@.len() as int;
                &&& (n == 0 || n % channels != 0) ==> (res is Ignored || res is Faulted)
                &&& callback_completes(data@, channels, selected, timing, old(self).spec_position() as int)
                    ==> (res is Ignored || res is Completed)
                &&& res matches CallbackOutcome::Completed { frames, .. } ==> frames * channels == n
            }),
            final(self).spec_position() >= old(self).spec_position(),
            final(self).spec_first_batch() ==> old(self).spec_first_batch(),
            match res {
                CallbackOutcome::Ignored => *final(self) == *old(self),
                CallbackOutcome::Faulted => true,
                CallbackOutcome::Completed { frames, queued_frames, dropped_frames } => {
                    &&& frames > 0
                    &&& queued_frames + dropped_frames == frames
                    &&& final(self).spec_position() == old(self).spec_position() + frames
                    &&& queued_frames > 0 ==> !final(self).spec_first_batch()
                    &&& dropped_frames == 0 ==> final(self).spec_pending_dropped() == 0
                },
            },
            res is Completed ==> old(self).ran_to(final(self), data@, timing),
    {
        if self.shared.is_stopped() {
            return CallbackOutcome::Ignored;
        }
        let configuration = self.shared.configuration;
        let channels = configuration.channels() as usize;
        let selected = configuration.selected_channel() as usize;
        let rate = configuration.sample_rate_hz() as usize;
        let sample_count = data.len();
        if sample_count == 0 || sample_count % channels != 0 {
            self.stop_with_fault(timing.monotonic_millis, InputFaultKind::BackendFailure);
            return CallbackOutcome::Faulted;
        }
        self.shared.record_callback_delay(timing.callback_delay_millis);
        if timing.callback_delay_millis > CALLBACK_DELAY_FAULT_MILLIS {
            self.shared.emit_fault(timing.monotonic_millis, InputFaultKind::CallbackDelay { millis: timing.callback_delay_millis });
        }

        let total_frames = sample_count / channels;
        proof {
            assert(total_frames * channels == sample_count && total_frames >= 1) by (nonlinear_arith)
                requires
                    total_frames == sample_count / channels,
                    sample_count % channels == 0,
                    sample_count > 0,
                    channels >= 1,
            ;
        }
        let ghost start_position = self.position@;
        let ghost start_first = self.first_batch;
        let ghost good = callback_completes(data@, channels as int, selected as int, timing, start_position as int);
        let ghost before = self.fates@.len() as int;
        let ghost start_state = (self.position@, self.pending_dropped_frames, self.first_batch);
        proof {
            assert(self.fates@.subrange(0, before) =~= self.fates@);
            assert(self.fates@.subrange(before, before) =~= Seq::<ChunkFate>::empty());
            assert(self.delivered@ =~= self.delivered@ + Seq::<QueuedBatch>::empty());
        }
        proof {
            assert(total_frames == sample_count / channels);
        }
        let mut frame_offset: usize = 0;
        let mut queued: u64 = 0;
        let mut dropped: u64 = 0;
        let mut faulted = false;
        while frame_offset < total_frames
            invariant
                *self.shared == *old(self).shared,
                self.shared.configuration == configuration,
                1 <= channels <= 32,
                selected < channels,
                8_000 <= rate,
                total_frames * channels == sample_count,
                total_frames >= 1,
                frame_offset <= total_frames,
                start_position == old(self).position@,
                start_first == old(self).first_batch,
                self.position@ >= start_position,
                self.first_batch ==> start_first,
                !faulted ==> self.position@ == start_position + frame_offset,
                !faulted ==> queued + dropped == frame_offset,
                !faulted && queued > 0 ==> !self.first_batch,
                !faulted && dropped == 0 && frame_offset > 0 ==> self.pending_dropped_frames == 0,
                queued + dropped <= frame_offset,
                data@.len() == sample_count,
                total_frames == sample_count / channels,
                channels == configuration@.1,
                selected == configuration@.3,
                good == callback_completes(data@, channels as int, selected as int, timing, start_position as int),
                good ==> !faulted,
                rate == configuration@.0,
                before == old(self).fates@.len(),
                start_state == (old(self).position@, old(self).pending_dropped_frames, old(self).first_batch),
                self.fates@.len() >= before,
                self.fates@.subrange(0, before) == old(self).fates@,
                !faulted ==> ({
                    let k = self.fates@.len() - before;
                    frame_offset == k * MAX_CAPTURE_BATCH_FRAMES || (frame_offset == total_frames
                        && (k - 1) * MAX_CAPTURE_BATCH_FRAMES < total_frames && total_frames <= k * MAX_CAPTURE_BATCH_FRAMES)
                }),
                !faulted ==> ({
                    let run = callback_run(data@, channels as int, selected as int, rate as int, timing, start_state,
                        self.fates@.subrange(before, self.fates@.len() as int));
                    &&& run.0 == (self.position@, self.pending_dropped_frames, self.first_batch)
                    &&& self.delivered@ == old(self).delivered@ + run.1
                }),
            decreases total_frames - frame_offset,
        {
            let ghost fates_before = self.fates@.subrange(before, self.fates@.len() as int);
            let ghost state_before = (self.position@, self.pending_dropped_frames, self.first_batch);
            let ghost delivered_before = self.delivered@;
            proof {
                assert(total_frames == sample_count / channels);
            }
            let remaining = total_frames - frame_offset;
            let frame_count: usize = if remaining < MAX_CAPTURE_BATCH_FRAMES as usize {
                remaining
            } else {
                MAX_CAPTURE_BATCH_FRAMES as usize
            };
            let mut buffer = match queue_pop(&self.shared.free) {
                Some(buffer) => buffer,
                None => {
                    let advanced = self.drop_frames(frame_count, timing.monotonic_millis);
                    if !advanced {
                        faulted = true;
                    }
                    proof {
                        lemma_fates_step(self.fates@, before, ChunkFate::NoFreeBuffer);
                        self.fates@ = self.fates@.push(ChunkFate::NoFreeBuffer);
                    }
                    dropped = dropped + frame_count as u64;
                    frame_offset = frame_offset + frame_count;
                    continue;
                },
            };

            proof {
                assert((frame_offset + frame_count) * channels <= sample_count) by (nonlinear_arith)
                    requires
                        frame_offset + frame_count <= total_frames,
                        total_frames * channels == sample_count,
                        channels >= 1,
                ;
                if good {
                    assert forall|f: int| frame_offset <= f < frame_offset + frame_count implies
                        (#[trigger] selected_sample(data@, f, channels as int, selected as int)) is Some by {
                        assert(0 <= f < total_frames);
                    }
                    assert(frames_representable(data@, frame_offset as int, frame_count as int, channels as int, selected as int));
                    assert(frame_offset_millis(frame_offset as int, rate as int) >= 0);
                    assert(batch_utc(timing, frame_offset_millis(frame_offset as int, rate as int)) >= 0);
                }
            }
            let raw = match build_batch(
                data,
                buffer,
                frame_offset,
                frame_count,
                channels,
                selected,
                rate,
                self.position,
                timing,
                self.pending_dropped_frames,
                self.first_batch,
            ) {
                Ok(raw) => raw,
                Err(buffer) => {
                    let _ = queue_push(&self.shared.free, buffer);
                    self.stop_with_fault(timing.monotonic_millis, InputFaultKind::BackendFailure);
                    return CallbackOutcome::Faulted;
                },
            };
            let clipped = raw.diagnostics.clipped_samples;
            let ghost built = raw.queued_view();
            proof {
                use_type_invariant(&raw.samples);
                let expected = expected_batch(data@, channels as int, selected as int, rate as int, timing,
                    frame_offset as int, frame_count as int, self.position@, self.pending_dropped_frames, self.first_batch);
                assert(built.samples =~= expected.samples);
                assert(built == expected);
            }
            self.pending_dropped_frames = 0;
            self.first_batch = false;
            match queue_push(&self.shared.ready, raw) {
                Err(raw) => {
                    let _ = queue_push(&self.shared.free, raw.samples);
                    let advanced = self.drop_frames(frame_count, timing.monotonic_millis);
                    if !advanced {
                        faulted = true;
                    }
                    proof {
                        lemma_fates_step(self.fates@, before, ChunkFate::QueueFull);
                        self.fates@ = self.fates@.push(ChunkFate::QueueFull);
                    }
                    dropped = dropped + frame_count as u64;
                },
                Ok(()) => {
                    proof {
                        lemma_fates_step(self.fates@, before, ChunkFate::Queued);
                        self.fates@ = self.fates@.push(ChunkFate::Queued);
                        let earlier = callback_run(data@, channels as int, selected as int, rate as int, timing, start_state, fates_before).1;
                        assert((old(self).delivered@ + earlier).push(built) =~= old(self).delivered@ + earlier.push(built));
                        self.delivered@ = self.delivered@.push(built);
                    }
                    if clipped > 0 {
                        self.shared.count_clipped(clipped as u64);
                        self.shared.emit_fault(timing.monotonic_millis, InputFaultKind::Clipping { sample_count: clipped });
                    }
                    match self.position.checked_advance(frame_count as u32) {
                        Ok(position) => {
                            self.position = position;
                        },
                        Err(_) => {
                            self.stop_with_fault(timing.monotonic_millis, InputFaultKind::BackendFailure);
                            return CallbackOutcome::Faulted;
                        },
                    }
                    queued = queued + frame_count as u64;
                },
            }
            frame_offset = frame_offset + frame_count;
        }
        if faulted {
            CallbackOutcome::Faulted
        } else {
            CallbackOutcome::Completed { frames: total_frames as u64, queued_frames: queued, dropped_frames: dropped }
        }
    }

    /// Accounts for frames that could not be queued; returns whether the
    /// position could be advanced past them.
    fn drop_frames(&mut self, frame_count: usize, monotonic_millis: u64) -> (advanced: bool)
        requires
            frame_count <= MAX_CAPTURE_BATCH_FRAMES,
        ensures
            final(self).spec_shared() == old(self).spec_shared(),
            *final(self).shared == *old(self).shared,
            final(self).first_batch == old(self).first_batch,
            final(self).fates == old(self).fates,
            final(self).delivered == old(self).delivered,
            final(self).pending_dropped_frames == crate::audio::timeline::sat_add(old(self).pending_dropped_frames, frame_count as int),
            advanced ==> final(self).position@ == old(self).position@ + frame_count,
            !advanced ==> final(self).position == old(self).position && old(self).position@ + frame_count > u64::MAX,
    {
        let frames = frame_count as u64;
        self.pending_dropped_frames = self.pending_dropped_frames.saturating_add(frames);
        self.shared.count_overflow();
        self.shared.emit_fault(monotonic_millis, InputFaultKind::Overflow { dropped_frames: frames });
        match self.position.checked_advance(frame_count as u32) {
            Ok(position) => {
                self.position = position;
                true
            },
            Err(_) => {
                self.stop_with_fault(monotonic_millis, InputFaultKind::BackendFailure);
                false
            },
        }
    }

    fn stop_with_fault(&self, monotonic_millis: u64, kind: InputFaultKind) {
        self.shared.stop_with_terminal_fault(monotonic_millis, kind);
    }
}

} // verus!
