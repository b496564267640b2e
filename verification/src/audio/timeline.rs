//! Pure timestamped receive timeline and deterministic rational resampler.
use vstd::prelude::*;
use crate::audio::{
    batch_end, ft8_aligned, frame_count_of, CaptureBatch, MAX_CAPTURE_BATCH_FRAMES, CaptureDiscontinuityKind, CapturePosition, CaptureTimeEvidence,
    FT8_RECEIVE_SAMPLE_RATE_HZ, FT8_RECEIVE_SLOT_MILLIS, FT8_RECEIVE_WINDOW_SAMPLES, Ft8ReceiveWindow,
    InputConfiguration, ProcessGeneration, StreamGeneration, rate_ok,
};

verus! {

/// Maximum accepted batch-arrival delay before its samples are rejected.
pub const MAX_RECEIVE_BATCH_LATENESS_MILLIS: u64 = 2_000;
/// Maximum accepted deviation from the source-frame monotonic timeline.
pub const MAX_RECEIVE_JITTER_MILLIS: i64 = 50;
/// Maximum accepted UTC/monotonic offset change.
pub const MAX_RECEIVE_CLOCK_REMAP_MILLIS: i64 = 20;
/// Maximum accepted absolute source-rate error.
pub const MAX_RECEIVE_DRIFT_PARTS_PER_MILLION: i32 = 5_000;

/// Canonical output samples per millisecond.
const OUTPUT_TICKS_PER_MILLISECOND: i128 = 12;
/// Canonical output samples per FT8 slot.
const OUTPUT_TICKS_PER_SLOT: i128 = 180_000;

/// Failure of pure receive timeline processing.
#[derive(Debug, Clone, Copy, PartialEq, Eq, Structural)]
pub enum ReceiveTimelineError {
    /// A slot identity was negative or not aligned to 15 seconds.
    InvalidSlot,
    /// The daemon process generation changed.
    ProcessGenerationChanged,
    /// The input stream generation changed.
    StreamGenerationChanged,
    /// The exact source configuration changed.
    ConfigurationChanged,
    /// The batch begins before the preceding batch.
    OutOfOrder,
    /// Source frames overlap an already consumed range.
    Overlap {
        /// Number of overlapping source frames.
        frames: u64,
    },
    /// Source frames are missing.
    Gap {
        /// Number of missing source frames.
        frames: u64,
    },
    /// The batch carries an explicit invalidating discontinuity.
    Discontinuity(CaptureDiscontinuityKind),
    /// Monotonic evidence regressed.
    MonotonicRegression,
    /// Mapping jitter exceeded the bounded tolerance.
    ExcessiveJitter {
        /// Signed mapping deviation.
        millis: i64,
    },
    /// UTC moved relative to the monotonic timeline.
    ClockRemapped {
        /// Signed UTC/monotonic offset change.
        millis: i64,
    },
    /// Source-rate error exceeded the bounded tolerance.
    ExcessiveDrift {
        /// Signed estimated source-rate error.
        parts_per_million: i32,
    },
    /// The batch arrived too late to retain.
    LateData {
        /// Observed nonnegative lateness.
        millis: u64,
    },
    /// Checked timeline arithmetic overflowed.
    ArithmeticOverflow,
}

/// Rounds `adjustment / denominator` to the nearest integer, halves away from zero.
pub open spec fn round_half_away(adjustment: int, denominator: int) -> int {
    if adjustment >= 0 {
        (adjustment + denominator / 2) / denominator
    } else {
        -((-adjustment + denominator / 2) / denominator)
    }
}

/// Whether linear interpolation between two samples is defined for a
/// fractional position `numerator / denominator`.
pub open spec fn interpolation_defined(previous: i16, current: i16, numerator: int, denominator: int) -> bool {
    &&& 0 < denominator
    &&& 0 <= numerator <= denominator
    &&& i128::MIN <= (current - previous) * numerator <= i128::MAX
}

/// The sample at fraction `numerator / denominator` from `previous` to `current`.
pub open spec fn interpolation(previous: i16, current: i16, numerator: int, denominator: int) -> int {
    previous + round_half_away((current - previous) * numerator, denominator)
}

proof fn lemma_round_bounds(mag: int, diff: int, num: int, den: int)
    requires
        0 < den,
        0 <= num <= den,
        0 <= diff,
        mag == diff * num,
    ensures
        0 <= (mag + den / 2) / den <= diff,
{
    assert(mag <= diff * den) by (nonlinear_arith)
        requires
            0 <= diff,
            num <= den,
            mag == diff * num,
    ;
    assert(0 <= (mag + den / 2) / den) by (nonlinear_arith)
        requires
            0 < den,
            0 <= mag,
    ;
    assert((mag + den / 2) / den <= diff) by (nonlinear_arith)
        requires
            0 < den,
            0 <= mag <= diff * den,
            0 <= diff,
    {
        assert(mag + den / 2 < (diff + 1) * den);
        vstd::arithmetic::div_mod::lemma_div_is_ordered(mag + den / 2, (diff + 1) * den - 1, den);
        vstd::arithmetic::div_mod::lemma_div_multiples_vanish_fancy(diff, den - 1, den);
    }
}

proof fn lemma_round_split(mag: int, den: int, q: int, r: int)
    requires
        0 < den,
        0 <= mag,
        q == mag / den,
        r == mag % den,
    ensures
        (mag + den / 2) / den == if r >= den - den / 2 { q + 1 } else { q },
{
    vstd::arithmetic::div_mod::lemma_fundamental_div_mod(mag, den);
    let h = den / 2;
    assert(0 <= r < den);
    assert(mag + h == q * den + (r + h));
    if r >= den - h {
        assert(0 <= r + h - den < den);
        assert(mag + h == (q + 1) * den + (r + h - den)) by (nonlinear_arith)
            requires
                mag + h == q * den + (r + h),
        ;
        vstd::arithmetic::div_mod::lemma_div_multiples_vanish_fancy(q + 1, r + h - den, den);
    } else {
        assert(0 <= r + h < den);
        vstd::arithmetic::div_mod::lemma_div_multiples_vanish_fancy(q, r + h, den);
    }
}

/// Checked, reproducible linear interpolation with halves rounded away from zero.
pub fn interpolate(previous: i16, current: i16, numerator: i128, denominator: i128) -> (res: Result<i16, ReceiveTimelineError>)
    ensures
        match res {
            Ok(v) => interpolation_defined(previous, current, numerator as int, denominator as int)
                && v == interpolation(previous, current, numerator as int, denominator as int),
            Err(e) => !interpolation_defined(previous, current, numerator as int, denominator as int)
                && e == ReceiveTimelineError::ArithmeticOverflow,
        },
{
    if denominator <= 0 || numerator < 0 || numerator > denominator {
        return Err(ReceiveTimelineError::ArithmeticOverflow);
    }
    let prev: i128 = previous as i128;
    let difference: i128 = current as i128 - prev;
    let adjustment: i128 = match difference.checked_mul(numerator) {
        Some(a) => a,
        None => {
            return Err(ReceiveTimelineError::ArithmeticOverflow);
        },
    };
    let den: u128 = denominator as u128;
    let diff_mag: u128 = if difference >= 0 { difference as u128 } else { (-difference) as u128 };
    let mag: u128 = if adjustment >= 0 {
        adjustment as u128
    } else {
        ((-(adjustment + 1)) as u128) + 1
    };
    let q: u128 = mag / den;
    let r: u128 = mag % den;
    let half: u128 = den / 2;
    let rounded: u128 = if r >= den - half { q + 1 } else { q };
    proof {
        assert(mag as int == diff_mag as int * numerator as int) by (nonlinear_arith)
            requires
                adjustment == difference * numerator,
                0 <= numerator,
                diff_mag as int == if difference >= 0 { difference as int } else { -difference },
                mag as int == if adjustment >= 0 { adjustment as int } else { -adjustment },
        ;
        lemma_round_split(mag as int, den as int, q as int, r as int);
        lemma_round_bounds(mag as int, diff_mag as int, numerator as int, den as int);
        assert(rounded as int == (mag as int + den as int / 2) / den as int);
    }
    let value: i128 = if adjustment >= 0 { prev + rounded as i128 } else { prev - rounded as i128 };
    proof {
        assert(adjustment >= 0 ==> difference >= 0 || numerator == 0) by (nonlinear_arith)
            requires
                adjustment == difference * numerator,
                0 <= numerator,
        ;
        assert(adjustment < 0 ==> difference < 0) by (nonlinear_arith)
            requires
                adjustment == difference * numerator,
                0 <= numerator,
        ;
        if mag == 0 {
            assert((den as int / 2) / den as int == 0) by (nonlinear_arith)
                requires
                    0 < den,
            ;
        }
        assert(rounded == 0 || adjustment != 0);
        assert(i16::MIN <= value <= i16::MAX);
        assert(value == interpolation(previous, current, numerator as int, denominator as int));
    }
    Ok(value as i16)
}


/// Division rounding toward zero, as integer division does for a positive divisor.
pub open spec fn trunc_div(a: int, b: int) -> int {
    if a >= 0 { a / b } else { -((-a) / b) }
}

/// Absolute value of an integer.
pub open spec fn magnitude(x: int) -> int {
    if x >= 0 { x } else { -x }
}

/// `x + y`, saturating at `u64::MAX`.
pub open spec fn sat_add(x: u64, y: int) -> u64 {
    if x + y > u64::MAX { u64::MAX } else { (x + y) as u64 }
}

/// Exact identity of one UTC-aligned FT8 receive slot.
#[derive(Debug, Clone, Copy, PartialEq, Eq, Hash, PartialOrd, Ord, Structural)]
pub struct Ft8ReceiveSlot(i64);

impl View for Ft8ReceiveSlot {
    type V = i64;

    closed spec fn view(&self) -> i64 {
        self.0
    }
}

impl Ft8ReceiveSlot {
    /// Constructs a checked FT8 receive slot identity.
    pub fn new(start_utc_unix_millis: i64) -> (res: Result<Self, ReceiveTimelineError>)
        ensures
            match res {
                Ok(slot) => ft8_aligned(start_utc_unix_millis as int) && slot@ == start_utc_unix_millis,
                Err(e) => !ft8_aligned(start_utc_unix_millis as int) && e == ReceiveTimelineError::InvalidSlot,
            },
    {
        if start_utc_unix_millis < 0 || start_utc_unix_millis % FT8_RECEIVE_SLOT_MILLIS != 0 {
            return Err(ReceiveTimelineError::InvalidSlot);
        }
        Ok(Ft8ReceiveSlot(start_utc_unix_millis))
    }

    /// Returns the exact UTC slot start in Unix milliseconds.
    pub fn start_utc_unix_millis(self) -> (res: i64)
        ensures
            res == self@,
    {
        self.0
    }
}

impl Ft8ReceiveWindow {
    /// Returns the exact typed slot identity carried by this window.
    pub fn slot(&self) -> (res: Ft8ReceiveSlot)
        ensures
            res@ == self.spec_slot_start(),
    {
        Ft8ReceiveSlot(self.slot_start_utc_millis)
    }
}

/// Reason a partial slot was intentionally not published as a decoder window.
#[derive(Debug, Clone, Copy, PartialEq, Eq, Structural)]
pub enum IncompleteSlotReason {
    /// Capture began after the slot boundary.
    CaptureStartedLate,
    /// A timeline invalidation discarded accumulated samples.
    TimelineInvalidated,
}

/// Observable non-window outcome from timeline processing.
#[derive(Debug, Clone, Copy, PartialEq, Eq, Structural)]
pub struct IncompleteFt8Slot {
    /// Exact slot that was withheld.
    pub slot: Ft8ReceiveSlot,
    /// Evidence-preserving discard reason.
    pub reason: IncompleteSlotReason,
    /// Number of canonical samples accumulated before discard.
    pub accumulated_samples: u32,
}

/// One pure timeline-processing outcome.
#[derive(Debug, Clone, PartialEq, Eq)]
pub enum ReceiveTimelineEvent {
    /// A complete canonical decoder input.
    Window(Ft8ReceiveWindow),
    /// An incomplete slot explicitly withheld from decode.
    Incomplete(IncompleteFt8Slot),
}

/// Whether one event is a complete aligned window of the given generations,
/// or a non-empty, not yet complete aligned slot.
pub open spec fn event_wf(e: ReceiveTimelineEvent, p: ProcessGeneration, s: StreamGeneration) -> bool {
    match e {
        ReceiveTimelineEvent::Window(w) => {
            &&& w.spec_samples().len() == FT8_RECEIVE_WINDOW_SAMPLES
            &&& ft8_aligned(w.spec_slot_start() as int)
            &&& w.spec_process() == p
            &&& w.spec_stream() == s
        },
        ReceiveTimelineEvent::Incomplete(i) => {
            &&& ft8_aligned(i.slot@ as int)
            &&& 0 < i.accumulated_samples < FT8_RECEIVE_WINDOW_SAMPLES
        },
    }
}

/// Whether every event of a sequence is well formed.
pub open spec fn events_wf(es: Seq<ReceiveTimelineEvent>, p: ProcessGeneration, s: StreamGeneration) -> bool {
    forall|i: int| 0 <= i < es.len() ==> event_wf(#[trigger] es[i], p, s)
}

/// Number of incomplete-slot events in a sequence.
pub open spec fn count_incomplete(es: Seq<ReceiveTimelineEvent>) -> nat
    decreases es.len(),
{
    if es.len() == 0 {
        0
    } else {
        count_incomplete(es.drop_last()) + if es.last() is Incomplete { 1nat } else { 0nat }
    }
}

/// Errors that only the internal resampler can report.
pub open spec fn resampler_error(e: ReceiveTimelineError) -> bool {
    e is ArithmeticOverflow || e is OutOfOrder || e is InvalidSlot
}

/// Latest bounded health accounting for one timeline generation.
#[derive(Debug, Clone, Copy, PartialEq, Eq, Structural)]
pub struct ReceiveTimelineHealth {
    /// Greatest absolute mapping jitter observed.
    pub max_jitter_millis: u32,
    /// Latest signed estimated source-rate error.
    pub drift_parts_per_million: i32,
    /// Number of incomplete slots withheld.
    pub incomplete_slot_count: u64,
    /// Number of rejected late batches.
    pub late_batch_count: u64,
}

impl Default for ReceiveTimelineHealth {
    fn default() -> (res: Self)
        ensures
            res == (ReceiveTimelineHealth { max_jitter_millis: 0, drift_parts_per_million: 0, incomplete_slot_count: 0, late_batch_count: 0 }),
    {
        ReceiveTimelineHealth { max_jitter_millis: 0, drift_parts_per_million: 0, incomplete_slot_count: 0, late_batch_count: 0 }
    }
}

/// Number of canonical output samples a resampler emits once it has taken
/// `m` source samples at `rate` Hz: one per output tick whose source time does
/// not pass the last source sample taken.
pub open spec fn output_count(m: int, rate: int) -> int {
    if m <= 0 { 0 } else { (m - 1) * 12_000 / rate + 1 }
}

/// Canonical output sample `n` of the source samples `src` taken at `rate` Hz:
/// the source signal at `n * rate / 12_000` source frames, interpolated
/// linearly between the neighbouring source samples.
pub open spec fn resampled(src: Seq<i16>, rate: int, n: int) -> i16 {
    let j = (n * rate + 11_999) / 12_000;
    if j == 0 {
        src[0]
    } else {
        interpolation(src[j - 1], src[j], n * rate - (j - 1) * 12_000, 12_000) as i16
    }
}

/// Every canonical output sample the source samples `src` give.
pub open spec fn resampled_outputs(src: Seq<i16>, rate: int) -> Seq<i16> {
    Seq::new(output_count(src.len() as int, rate) as nat, |n: int| resampled(src, rate, n))
}

/// Output tick at which the slot holding output tick `t` starts.
pub open spec fn slot_of(t: int) -> int {
    (t / 180_000) * 180_000
}

/// Position, UTC and monotonic time of timing evidence, by value.
pub open spec fn evidence_view(e: CaptureTimeEvidence) -> (u64, i64, u64) {
    (e.position@, e.utc_unix_millis, e.monotonic_millis)
}

/// Mapping evidence a resampler anchored at `anchor`, with source rate `rate`,
/// records for the slot starting at output tick `slot_tick`; `None` when the
/// computation leaves the representable range. A slot starting before the
/// first source frame keeps the anchor's evidence.
pub open spec fn slot_mapping(anchor: CaptureTimeEvidence, rate: int, slot_tick: int) -> Option<(u64, i64, u64)> {
    let source_delta = trunc_div((slot_tick - anchor.utc_unix_millis * 12) * rate, 12_000);
    let position = anchor.position@ + source_delta;
    let slot_millis = trunc_div(slot_tick, 12);
    let monotonic = anchor.monotonic_millis + (slot_millis - anchor.utc_unix_millis);
    if source_delta < i64::MIN || source_delta > i64::MAX {
        None
    } else if position < 0 || position > u64::MAX {
        Some(evidence_view(anchor))
    } else if slot_millis < 0 || slot_millis > i64::MAX {
        None
    } else if monotonic < 0 || monotonic > u64::MAX {
        None
    } else {
        Some((position as u64, slot_millis as i64, monotonic as u64))
    }
}

/// A timeline event, by value.
pub enum ExpectedEvent {
    /// A complete canonical window for the slot starting at `slot_start`.
    Window {
        /// UTC start of the slot.
        slot_start: int,
        /// Mapping evidence recorded for the slot.
        mapping: (u64, i64, u64),
        /// The slot's canonical samples.
        samples: Seq<i16>,
    },
    /// A slot whose capture started after its beginning, withheld from decode.
    Late {
        /// UTC start of the slot.
        slot_start: int,
        /// Canonical samples it had accumulated.
        accumulated: int,
    },
}

/// Whether event `e` of the given generations is the event `x`.
pub open spec fn event_is(e: ReceiveTimelineEvent, x: ExpectedEvent, p: ProcessGeneration, s: StreamGeneration) -> bool {
    match x {
        ExpectedEvent::Window { slot_start, mapping, samples } => e matches ReceiveTimelineEvent::Window(w) && {
            &&& w.spec_slot_start() == slot_start
            &&& evidence_view(w.spec_mapping()) == mapping
            &&& w.spec_samples() == samples
            &&& w.spec_process() == p
            &&& w.spec_stream() == s
        },
        ExpectedEvent::Late { slot_start, accumulated } => e matches ReceiveTimelineEvent::Incomplete(i) && {
            &&& i.slot@ == slot_start
            &&& i.reason == IncompleteSlotReason::CaptureStartedLate
            &&& i.accumulated_samples == accumulated
        },
    }
}

/// Whether the events `es` are, one by one, the events `xs`.
pub open spec fn events_are(es: Seq<ReceiveTimelineEvent>, xs: Seq<ExpectedEvent>, p: ProcessGeneration, s: StreamGeneration) -> bool {
    &&& es.len() == xs.len()
    &&& forall|i: int| 0 <= i < es.len() ==> event_is(#[trigger] es[i], xs[i], p, s)
}

/// The events emitting canonical output `n` produces for a resampler anchored
/// at `anchor`: the withheld first slot when a capture that started late
/// reaches the next slot, and the window of a slot covered from its first tick
/// when its last tick is emitted.
pub open spec fn output_events(anchor: CaptureTimeEvidence, rate: int, outputs: Seq<i16>, n: int) -> Seq<ExpectedEvent> {
    let t0 = anchor.utc_unix_millis * 12;
    let t = t0 + n;
    let slot = slot_of(t);
    let late: Seq<ExpectedEvent> = if n > 0 && t % 180_000 == 0 && slot_of(t - 1) < t0 {
        seq![ExpectedEvent::Late { slot_start: slot_of(t - 1) / 12, accumulated: n }]
    } else {
        Seq::empty()
    };
    let window: Seq<ExpectedEvent> = if (t + 1) % 180_000 == 0 && slot >= t0 {
        seq![ExpectedEvent::Window {
            slot_start: slot / 12,
            mapping: slot_mapping(anchor, rate, slot).unwrap(),
            samples: outputs.subrange(slot - t0, n + 1),
        }]
    } else {
        Seq::empty()
    };
    late + window
}

/// The events emitting canonical outputs `from..to` produces, in order.
pub open spec fn expected_events(anchor: CaptureTimeEvidence, rate: int, outputs: Seq<i16>, from: int, to: int) -> Seq<ExpectedEvent>
    decreases to - from,
{
    if to <= from {
        Seq::empty()
    } else {
        expected_events(anchor, rate, outputs, from, to - 1) + output_events(anchor, rate, outputs, to - 1)
    }
}

/// Whether output `n` opens a slot.
pub open spec fn opens_slot(anchor: CaptureTimeEvidence, n: int) -> bool {
    n == 0 || (anchor.utc_unix_millis * 12 + n) % 180_000 == 0
}

/// Whether every slot opened by outputs `from..to` has representable mapping
/// evidence and UTC start.
pub open spec fn slots_representable(anchor: CaptureTimeEvidence, rate: int, from: int, to: int) -> bool {
    &&& anchor.utc_unix_millis >= 0
    &&& forall|n: int| from <= n < to && #[trigger] opens_slot(anchor, n) ==> {
        let slot = slot_of(anchor.utc_unix_millis * 12 + n);
        slot_mapping(anchor, rate, slot) is Some && slot / 12 <= i64::MAX
    }
}

proof fn lemma_slot_of(t: int)
    requires
        t >= 0,
    ensures
        0 <= slot_of(t) <= t < slot_of(t) + 180_000,
        slot_of(t) % 180_000 == 0,
        (slot_of(t) / 12) % 15_000 == 0,
        t % 180_000 == 0 ==> slot_of(t) == t,
        t % 180_000 != 0 ==> slot_of(t - 1) == slot_of(t),
        (t + 1) % 180_000 == 0 <==> t + 1 == slot_of(t) + 180_000,
{
    vstd::arithmetic::div_mod::lemma_fundamental_div_mod(t, 180_000);
    vstd::arithmetic::div_mod::lemma_mod_multiples_basic(t / 180_000, 180_000);
    assert(slot_of(t) == 180_000 * (t / 180_000)) by (nonlinear_arith)
        requires slot_of(t) == (t / 180_000) * 180_000;
    assert((slot_of(t) / 12) == (t / 180_000) * 15_000) by (nonlinear_arith)
        requires slot_of(t) == (t / 180_000) * 180_000;
    vstd::arithmetic::div_mod::lemma_mod_multiples_basic(t / 180_000, 15_000);
    assert(((t / 180_000) * 15_000) % 15_000 == 0) by (nonlinear_arith)
        requires (15_000 * (t / 180_000)) % 15_000 == 0;
    if t % 180_000 != 0 {
        vstd::arithmetic::div_mod::lemma_fundamental_div_mod(t - 1, 180_000);
        assert((t - 1) / 180_000 == t / 180_000) by {
            vstd::arithmetic::div_mod::lemma_div_plus_one(t - 1, 180_000);
        }
    }
    vstd::arithmetic::div_mod::lemma_fundamental_div_mod(t + 1, 180_000);
}

proof fn lemma_events_are_append(
    es: Seq<ReceiveTimelineEvent>,
    xs: Seq<ExpectedEvent>,
    more: Seq<ReceiveTimelineEvent>,
    ys: Seq<ExpectedEvent>,
    p: ProcessGeneration,
    s: StreamGeneration,
)
    requires
        events_are(es, xs, p, s),
        events_are(more, ys, p, s),
    ensures
        events_are(es + more, xs + ys, p, s),
{
    assert forall|i: int| 0 <= i < (es + more).len() implies event_is(#[trigger] (es + more)[i], (xs + ys)[i], p, s) by {
        if i >= es.len() {
            assert((es + more)[i] == more[i - es.len()]);
            assert((xs + ys)[i] == ys[i - es.len()]);
        }
    }
}

proof fn lemma_ceiling(a: int, m: int)
    requires
        (m - 1) * 12_000 < a <= m * 12_000,
    ensures
        (a + 11_999) / 12_000 == m,
{
    assert((m - 1) * 12_000 + 12_000 <= a + 11_999 < (m + 1) * 12_000) by (nonlinear_arith)
        requires
            (m - 1) * 12_000 < a <= m * 12_000,
    ;
    vstd::arithmetic::div_mod::lemma_fundamental_div_mod(a + 11_999, 12_000);
    assert(m * 12_000 <= a + 11_999 < (m + 1) * 12_000) by (nonlinear_arith)
        requires
            (m - 1) * 12_000 + 12_000 <= a + 11_999 < (m + 1) * 12_000,
    ;
    let q = (a + 11_999) / 12_000;
    let r = (a + 11_999) % 12_000;
    assert(0 <= r < 12_000);
    assert(q == m) by (nonlinear_arith)
        requires
            a + 11_999 == 12_000 * q + r,
            0 <= r < 12_000,
            m * 12_000 <= a + 11_999 < (m + 1) * 12_000,
    ;
}

proof fn lemma_output_bounds(k: int, m: int, rate: int)
    requires
        rate >= 1,
        m >= 1,
        output_count(m, rate) <= k,
    ensures
        (m - 1) * 12_000 < k * rate,
{
    let q = (m - 1) * 12_000 / rate;
    vstd::arithmetic::div_mod::lemma_fundamental_div_mod((m - 1) * 12_000, rate);
    assert((m - 1) * 12_000 < k * rate) by (nonlinear_arith)
        requires
            (m - 1) * 12_000 == rate * q + (m - 1) * 12_000 % rate,
            (m - 1) * 12_000 % rate < rate,
            q + 1 <= k,
            rate >= 1,
    ;
}

proof fn lemma_output_step(k: int, m: int, rate: int)
    requires
        rate >= 1,
        m >= 0,
        0 <= k,
    ensures
        k * rate <= m * 12_000 ==> k + 1 <= output_count(m + 1, rate),
        k * rate > m * 12_000 && k <= output_count(m + 1, rate) ==> k == output_count(m + 1, rate),
{
    let q = m * 12_000 / rate;
    vstd::arithmetic::div_mod::lemma_fundamental_div_mod(m * 12_000, rate);
    assert(output_count(m + 1, rate) == q + 1);
    if k * rate <= m * 12_000 {
        assert(k <= q) by (nonlinear_arith)
            requires
                k * rate <= m * 12_000,
                m * 12_000 == rate * q + m * 12_000 % rate,
                0 <= m * 12_000 % rate < rate,
                rate >= 1,
        ;
    }
    if k * rate > m * 12_000 {
        assert(k > q) by (nonlinear_arith)
            requires
                k * rate > m * 12_000,
                m * 12_000 == rate * q + m * 12_000 % rate,
                0 <= m * 12_000 % rate,
                rate >= 1,
        ;
    }
}

proof fn lemma_resampled_prefix(a: Seq<i16>, b: Seq<i16>, rate: int, n: int)
    requires
        rate >= 1,
        0 <= n < output_count(a.len() as int, rate),
        a.len() <= b.len(),
        a == b.subrange(0, a.len() as int),
    ensures
        resampled(a, rate, n) == resampled(b, rate, n),
{
    let m = a.len() as int;
    let j = (n * rate + 11_999) / 12_000;
    vstd::arithmetic::div_mod::lemma_fundamental_div_mod((m - 1) * 12_000, rate);
    assert(n * rate <= (m - 1) * 12_000) by (nonlinear_arith)
        requires
            n <= (m - 1) * 12_000 / rate,
            (m - 1) * 12_000 == rate * ((m - 1) * 12_000 / rate) + (m - 1) * 12_000 % rate,
            0 <= (m - 1) * 12_000 % rate,
            rate >= 1,
            0 <= n,
    ;
    assert(j <= m - 1) by (nonlinear_arith)
        requires
            j == (n * rate + 11_999) / 12_000,
            n * rate <= (m - 1) * 12_000,
            0 <= n * rate,
    {
        vstd::arithmetic::div_mod::lemma_div_is_ordered(n * rate + 11_999, (m - 1) * 12_000 + 11_999, 12_000);
        vstd::arithmetic::div_mod::lemma_div_multiples_vanish_fancy(m - 1, 11_999, 12_000);
    }
    assert(0 <= j) by (nonlinear_arith)
        requires
            j == (n * rate + 11_999) / 12_000,
            0 <= n,
            rate >= 1,
    ;
    assert(a[j] == b[j]);
    if j > 0 {
        assert(a[j - 1] == b[j - 1]);
    }
}

proof fn lemma_outputs_prefix(a: Seq<i16>, b: Seq<i16>, rate: int)
    requires
        rate >= 1,
        a.len() <= b.len(),
        a == b.subrange(0, a.len() as int),
        output_count(a.len() as int, rate) <= output_count(b.len() as int, rate),
    ensures
        resampled_outputs(a, rate) == resampled_outputs(b, rate).subrange(0, output_count(a.len() as int, rate)),
{
    assert forall|n: int| 0 <= n < output_count(a.len() as int, rate) implies
        #[trigger] resampled_outputs(a, rate)[n] == resampled_outputs(b, rate)[n] by {
        lemma_resampled_prefix(a, b, rate, n);
    }
    assert(resampled_outputs(a, rate) =~= resampled_outputs(b, rate).subrange(0, output_count(a.len() as int, rate)));
}

proof fn lemma_output_events_prefix(anchor: CaptureTimeEvidence, rate: int, a: Seq<i16>, b: Seq<i16>, n: int)
    requires
        0 <= n,
        n + 1 <= a.len(),
        n + 1 <= b.len(),
        a.subrange(0, n + 1) == b.subrange(0, n + 1),
        anchor.utc_unix_millis >= 0,
    ensures
        output_events(anchor, rate, a, n) == output_events(anchor, rate, b, n),
{
    let t0 = anchor.utc_unix_millis * 12;
    let t = t0 + n;
    let slot = slot_of(t);
    lemma_slot_of(t);
    if (t + 1) % 180_000 == 0 && slot >= t0 {
        assert(a.subrange(slot - t0, n + 1) =~= b.subrange(slot - t0, n + 1)) by {
            assert forall|i: int| 0 <= i < n + 1 - (slot - t0) implies #[trigger] a.subrange(slot - t0, n + 1)[i] == b.subrange(slot - t0, n + 1)[i] by {
                assert(a[slot - t0 + i] == a.subrange(0, n + 1)[slot - t0 + i]);
                assert(b[slot - t0 + i] == b.subrange(0, n + 1)[slot - t0 + i]);
            }
        }
    }
}

proof fn lemma_expected_prefix(anchor: CaptureTimeEvidence, rate: int, a: Seq<i16>, b: Seq<i16>, from: int, to: int)
    requires
        0 <= from,
        to <= a.len(),
        to <= b.len(),
        a.subrange(0, to) == b.subrange(0, to),
        anchor.utc_unix_millis >= 0,
    ensures
        expected_events(anchor, rate, a, from, to) == expected_events(anchor, rate, b, from, to),
    decreases to - from,
{
    if to > from {
        assert(a.subrange(0, to - 1) =~= b.subrange(0, to - 1)) by {
            assert forall|i: int| 0 <= i < to - 1 implies #[trigger] a.subrange(0, to - 1)[i] == b.subrange(0, to - 1)[i] by {
                assert(a[i] == a.subrange(0, to)[i]);
                assert(b[i] == b.subrange(0, to)[i]);
            }
        }
        lemma_expected_prefix(anchor, rate, a, b, from, to - 1);
        lemma_output_events_prefix(anchor, rate, a, b, to - 1);
    }
}

proof fn lemma_expected_concat(anchor: CaptureTimeEvidence, rate: int, outputs: Seq<i16>, a: int, b: int, c: int)
    requires
        a <= b <= c,
    ensures
        expected_events(anchor, rate, outputs, a, c)
            == expected_events(anchor, rate, outputs, a, b) + expected_events(anchor, rate, outputs, b, c),
    decreases c - b,
{
    if c == b {
        assert(expected_events(anchor, rate, outputs, a, b) + expected_events(anchor, rate, outputs, b, c)
            =~= expected_events(anchor, rate, outputs, a, b));
    } else {
        lemma_expected_concat(anchor, rate, outputs, a, b, c - 1);
        assert(expected_events(anchor, rate, outputs, a, c)
            =~= expected_events(anchor, rate, outputs, a, b) + expected_events(anchor, rate, outputs, b, c));
    }
}

proof fn lemma_output_count_monotone(m1: int, m2: int, rate: int)
    requires
        0 <= m1 <= m2,
        rate >= 1,
    ensures
        output_count(m1, rate) <= output_count(m2, rate),
{
    if m1 > 0 {
        vstd::arithmetic::div_mod::lemma_div_is_ordered((m1 - 1) * 12_000, (m2 - 1) * 12_000, rate);
    }
}

/// Whether the slot starting at output tick `s` lies wholly after the anchor
/// tick `t0` and ends among the outputs `from..to`.
pub open spec fn completes_within(t0: int, s: int, from: int, to: int) -> bool {
    &&& s % 180_000 == 0
    &&& t0 <= s
    &&& from <= s + 179_999 - t0 < to
}

/// Law: among the events that emitting outputs `from..to` produces, every
/// window is a slot covered from its first tick after the anchor, with exactly
/// that slot's 180,000 outputs; windows come in increasing slot order, so no
/// slot is delivered twice; and every such slot whose last tick is among the
/// outputs is delivered. A slot that began before the anchor is never a window.
pub proof fn lemma_windows_are_whole_slots(anchor: CaptureTimeEvidence, rate: int, outputs: Seq<i16>, from: int, to: int)
    requires
        anchor.utc_unix_millis >= 0,
        0 <= from <= to <= outputs.len(),
    ensures
        ({
            let xs = expected_events(anchor, rate, outputs, from, to);
            let t0 = anchor.utc_unix_millis * 12;
            &&& forall|i: int| 0 <= i < xs.len() && (#[trigger] xs[i]) is Window ==> {
                let s = xs[i]->Window_slot_start * 12;
                &&& completes_within(t0, s, from, to)
                &&& xs[i]->Window_samples == outputs.subrange(s - t0, s - t0 + 180_000)
            }
            &&& forall|i: int, j: int| 0 <= i < j < xs.len() && (#[trigger] xs[i]) is Window && (#[trigger] xs[j]) is Window
                ==> xs[i]->Window_slot_start < xs[j]->Window_slot_start
            &&& forall|s: int| #[trigger] completes_within(t0, s, from, to) ==> exists|i: int|
                0 <= i < xs.len() && (#[trigger] xs[i]) is Window && xs[i]->Window_slot_start * 12 == s
        }),
    decreases to - from,
{
    let t0 = anchor.utc_unix_millis * 12;
    let xs = expected_events(anchor, rate, outputs, from, to);
    if to > from {
        let n = to - 1;
        let t = t0 + n;
        lemma_slot_of(t);
        lemma_windows_are_whole_slots(anchor, rate, outputs, from, n);
        let prefix = expected_events(anchor, rate, outputs, from, n);
        let here = output_events(anchor, rate, outputs, n);
        assert(xs == prefix + here);
        let slot = slot_of(t);
        let late: Seq<ExpectedEvent> = if n > 0 && t % 180_000 == 0 && slot_of(t - 1) < t0 {
            seq![ExpectedEvent::Late { slot_start: slot_of(t - 1) / 12, accumulated: n }]
        } else {
            Seq::empty()
        };
        let window: Seq<ExpectedEvent> = if (t + 1) % 180_000 == 0 && slot >= t0 {
            seq![ExpectedEvent::Window {
                slot_start: slot / 12,
                mapping: slot_mapping(anchor, rate, slot).unwrap(),
                samples: outputs.subrange(slot - t0, n + 1),
            }]
        } else {
            Seq::empty()
        };
        assert(here == late + window);
        if (t + 1) % 180_000 == 0 && slot >= t0 {
            assert((slot / 12) * 12 == slot);
            assert(slot - t0 + 180_000 == n + 1);
        }
        assert forall|i: int| 0 <= i < xs.len() && (#[trigger] xs[i]) is Window implies {
            let s = xs[i]->Window_slot_start * 12;
            &&& completes_within(t0, s, from, to)
            &&& xs[i]->Window_samples == outputs.subrange(s - t0, s - t0 + 180_000)
        } by {
            if i < prefix.len() {
                assert(xs[i] == prefix[i]);
            } else {
                assert(xs[i] == here[i - prefix.len()]);
            }
        }
        assert forall|i: int, j: int| 0 <= i < j < xs.len() && (#[trigger] xs[i]) is Window && (#[trigger] xs[j]) is Window
            implies xs[i]->Window_slot_start < xs[j]->Window_slot_start by {
            if j < prefix.len() {
                assert(xs[i] == prefix[i]);
                assert(xs[j] == prefix[j]);
            } else if i < prefix.len() {
                assert(xs[i] == prefix[i]);
                assert(xs[j] == here[j - prefix.len()]);
                assert(completes_within(t0, prefix[i]->Window_slot_start * 12, from, n));
            } else {
                assert(xs[i] == here[i - prefix.len()]);
                assert(xs[j] == here[j - prefix.len()]);
            }
        }
        assert forall|s: int| #[trigger] completes_within(t0, s, from, to) implies exists|i: int|
            0 <= i < xs.len() && (#[trigger] xs[i]) is Window && xs[i]->Window_slot_start * 12 == s by {
            if s + 179_999 - t0 < n {
                assert(completes_within(t0, s, from, n));
                let i = choose|i: int| 0 <= i < prefix.len() && (#[trigger] prefix[i]) is Window && prefix[i]->Window_slot_start * 12 == s;
                assert(xs[i] == prefix[i]);
            } else {
                assert(t + 1 == s + 180_000);
                assert((t + 1) % 180_000 == 0) by {
                    vstd::arithmetic::div_mod::lemma_mod_add_multiples_vanish(s, 180_000);
                }
                assert(slot == s);
                let i = (prefix.len() + late.len()) as int;
                assert(xs[i] == here[late.len() as int]);
            }
        }
    }
}

/// Output samples of one slot collected so far.
struct WindowAccumulator {
    slot_tick: i128,
    slot: Ft8ReceiveSlot,
    first_tick: i128,
    mapping: CaptureTimeEvidence,
    samples: Vec<i16>,
}

impl WindowAccumulator {
    spec fn wf(&self) -> bool {
        &&& ft8_aligned(self.slot@ as int)
        &&& self.samples@.len() < FT8_RECEIVE_WINDOW_SAMPLES
    }

    fn new(slot_tick: i128, first_tick: i128, mapping: CaptureTimeEvidence) -> (res: Result<Self, ReceiveTimelineError>)
        ensures
            match res {
                Ok(a) => a.wf() && a.samples@.len() == 0 && a.slot_tick == slot_tick && a.first_tick == first_tick
                    && a.mapping == mapping && a.slot@ == trunc_div(slot_tick as int, 12),
                Err(e) => e is ArithmeticOverflow || e is InvalidSlot,
            },
            0 <= slot_tick && slot_tick % 180_000 == 0 && slot_tick / 12 <= i64::MAX ==> res is Ok,
    {
        proof {
            if 0 <= slot_tick && slot_tick % 180_000 == 0 {
                assert((slot_tick / 12) % 15_000 == 0) by (nonlinear_arith)
                    requires
                        0 <= slot_tick,
                        slot_tick % 180_000 == 0,
                {
                    vstd::arithmetic::div_mod::lemma_fundamental_div_mod(slot_tick as int, 180_000);
                    assert(slot_tick == 180_000 * (slot_tick / 180_000));
                    assert(slot_tick / 12 == 15_000 * (slot_tick / 180_000));
                    vstd::arithmetic::div_mod::lemma_mod_multiples_basic(slot_tick / 180_000, 15_000);
                }
            }
        }
        let slot_millis = match slot_tick.checked_div(OUTPUT_TICKS_PER_MILLISECOND) {
            Some(m) => m,
            None => {
                return Err(ReceiveTimelineError::ArithmeticOverflow);
            },
        };
        if slot_millis < i64::MIN as i128 || slot_millis > i64::MAX as i128 {
            return Err(ReceiveTimelineError::ArithmeticOverflow);
        }
        let slot = match Ft8ReceiveSlot::new(slot_millis as i64) {
            Ok(slot) => slot,
            Err(e) => {
                return Err(e);
            },
        };
        Ok(WindowAccumulator { slot_tick, slot, first_tick, mapping, samples: Vec::new() })
    }

    fn incomplete_event(self, p: Ghost<ProcessGeneration>, s: Ghost<StreamGeneration>) -> (res: Option<ReceiveTimelineEvent>)
        requires
            self.wf(),
        ensures
            match res {
                Some(e) => {
                    &&& self.samples@.len() > 0
                    &&& event_wf(e, p@, s@)
                    &&& e matches ReceiveTimelineEvent::Incomplete(i)
                    &&& i.slot == self.slot
                    &&& i.accumulated_samples == self.samples@.len()
                    &&& i.reason == (if self.first_tick == self.slot_tick {
                        IncompleteSlotReason::TimelineInvalidated
                    } else {
                        IncompleteSlotReason::CaptureStartedLate
                    })
                },
                None => self.samples@.len() == 0,
            },
    {
        if self.samples.len() == 0 {
            return None;
        }
        Some(ReceiveTimelineEvent::Incomplete(IncompleteFt8Slot {
            slot: self.slot,
            reason: if self.first_tick == self.slot_tick {
                IncompleteSlotReason::TimelineInvalidated
            } else {
                IncompleteSlotReason::CaptureStartedLate
            },
            accumulated_samples: self.samples.len() as u32,
        }))
    }
}

/// Deterministic rational resampler from the source rate to the canonical
/// 12 kHz FT8 grid, anchored at the first retained frame's UTC.
struct RationalResampler {
    anchor: CaptureTimeEvidence,
    source_rate_hz: u32,
    process_generation: ProcessGeneration,
    stream_generation: StreamGeneration,
    next_output_tick: i128,
    previous: Option<(u64, i16)>,
    active: Option<WindowAccumulator>,
    source: Ghost<Seq<i16>>,
    tracking: Ghost<bool>,
}

impl RationalResampler {
    spec fn wf(&self) -> bool {
        &&& self.source_rate_hz >= 1
        &&& self.active matches Some(a) ==> a.wf()
    }

    spec fn pending(&self) -> bool {
        self.active matches Some(a) && a.samples@.len() > 0
    }

    spec fn t0(&self) -> int {
        self.anchor.utc_unix_millis * 12
    }

    /// Whether the active slot holds what emitting the outputs `out` leaves in it.
    spec fn holds(&self, out: Seq<i16>) -> bool {
        let t0 = self.t0();
        let n = out.len() as int;
        if n == 0 {
            self.active is None
        } else {
            let t = t0 + n - 1;
            let slot = slot_of(t);
            let first = if slot >= t0 { slot } else { t0 };
            if (t + 1) % 180_000 == 0 && slot >= t0 {
                self.active is None
            } else {
                self.active matches Some(a) && {
                    &&& a.slot_tick == slot
                    &&& a.first_tick == first
                    &&& a.slot@ == slot / 12
                    &&& slot_mapping(self.anchor, self.source_rate_hz as int, slot) == Some(evidence_view(a.mapping))
                    &&& a.samples@ == out.subrange(first - t0, n)
                }
            }
        }
    }

    /// Whether the emitting state of outputs `out` can be reasoned about exactly.
    spec fn emitting(&self, out: Seq<i16>) -> bool {
        &&& self.anchor.utc_unix_millis >= 0
        &&& rate_ok(self.source_rate_hz)
        &&& out.len() <= u64::MAX as int * 2 + 1
        &&& self.next_output_tick == self.t0() + out.len()
        &&& self.holds(out)
    }

    /// Whether the resampler is exactly the canonical resampling of the source
    /// samples it has taken.
    spec fn synced(&self) -> bool {
        let m = self.source@.len() as int;
        &&& m <= u64::MAX + 1
        &&& self.emitting(resampled_outputs(self.source@, self.source_rate_hz as int))
        &&& self.previous == if m == 0 { None } else { Some(((m - 1) as u64, self.source@[m - 1])) }
    }

    spec fn valid(&self) -> bool {
        &&& self.wf()
        &&& self.tracking@ ==> self.synced()
    }

    spec fn same_stream(&self, other: &Self) -> bool {
        &&& self.process_generation == other.process_generation
        &&& self.stream_generation == other.stream_generation
        &&& self.source_rate_hz == other.source_rate_hz
        &&& self.anchor == other.anchor
    }

    fn new(
        anchor: CaptureTimeEvidence,
        source_rate_hz: u32,
        process_generation: ProcessGeneration,
        stream_generation: StreamGeneration,
    ) -> (res: Self)
        requires
            source_rate_hz >= 1,
        ensures
            res.wf(),
            res.valid(),
            res.source@ == Seq::<i16>::empty(),
            res.tracking@ == (anchor.utc_unix_millis >= 0 && rate_ok(source_rate_hz)),
            !res.pending(),
            res.anchor == anchor,
            res.source_rate_hz == source_rate_hz,
            res.process_generation == process_generation,
            res.stream_generation == stream_generation,
    {
        let ghost tracking = anchor.utc_unix_millis >= 0 && rate_ok(source_rate_hz);
        RationalResampler {
            anchor,
            source_rate_hz,
            process_generation,
            stream_generation,
            next_output_tick: anchor.utc_unix_millis as i128 * OUTPUT_TICKS_PER_MILLISECOND,
            previous: None,
            active: None,
            source: Ghost(Seq::empty()),
            tracking: Ghost(tracking),
        }
    }

    /// Resamples every sample of a batch, in order.
    fn push(&mut self, batch: &CaptureBatch) -> (res: Result<Vec<ReceiveTimelineEvent>, ReceiveTimelineError>)
        requires
            old(self).valid(),
        ensures
            final(self).valid(),
            final(self).same_stream(old(self)),
            match res {
                Ok(events) => events_wf(events@, old(self).process_generation, old(self).stream_generation),
                Err(e) => resampler_error(e) && !final(self).tracking@,
            },
            final(self).tracking@ ==> old(self).tracking@,
            ({
                let m = old(self).source@.len() as int;
                let rate = old(self).source_rate_hz as int;
                let src = old(self).source@ + batch.spec_samples();
                let from = output_count(m, rate);
                let to = output_count(src.len() as int, rate);
                old(self).tracking@ && batch.spec_first_frame().position@ == old(self).anchor.position@ + m
                    && batch.spec_first_frame().position@ + batch.spec_samples().len() <= u64::MAX + 1 ==> {
                    &&& slots_representable(old(self).anchor, rate, from, to) ==> res is Ok
                    &&& res matches Ok(events) ==> {
                        &&& final(self).tracking@
                        &&& final(self).source@ == src
                        &&& events_are(events@, expected_events(old(self).anchor, rate, resampled_outputs(src, rate), from, to),
                            old(self).process_generation, old(self).stream_generation)
                    }
                }
            }),
    {
        let mut events: Vec<ReceiveTimelineEvent> = Vec::new();
        let first_position = batch.first_frame.position.frames();
        let samples = batch.samples();
        let ghost m = self.source@.len() as int;
        let ghost rate = self.source_rate_hz as int;
        let ghost base = self.source@;
        let ghost from = output_count(m, rate);
        let ghost to = output_count(m + samples@.len(), rate);
        let ghost exact = self.tracking@ && first_position == self.anchor.position@ + m
            && first_position + samples@.len() <= u64::MAX + 1;
        let ghost slots_ok = slots_representable(self.anchor, rate, from, to);
        proof {
            assert(base + samples@.subrange(0, 0) =~= base);
            assert(expected_events(self.anchor, rate, resampled_outputs(base, rate), from, from) =~= Seq::<ExpectedEvent>::empty());
        }
        let mut index: usize = 0;
        while index < samples.len()
            invariant
                self.valid(),
                self.same_stream(old(self)),
                self.tracking@ ==> old(self).tracking@,
                events_wf(events@, old(self).process_generation, old(self).stream_generation),
                index <= samples@.len(),
                samples@ == batch.spec_samples(),
                first_position == batch.spec_first_frame().position@,
                m == old(self).source@.len(),
                base == old(self).source@,
                rate == old(self).source_rate_hz,
                from == output_count(m, rate),
                to == output_count(m + samples@.len(), rate),
                exact == (old(self).tracking@ && first_position == old(self).anchor.position@ + m
                    && first_position + samples@.len() <= u64::MAX + 1),
                slots_ok == slots_representable(old(self).anchor, rate, from, to),
                exact ==> ({
                    let src = base + samples@.subrange(0, index as int);
                    &&& self.tracking@
                    &&& self.source@ == src
                    &&& events_are(events@, expected_events(old(self).anchor, rate, resampled_outputs(src, rate), from,
                        output_count(m + index, rate)), old(self).process_generation, old(self).stream_generation)
                }),
            decreases samples@.len() - index,
        {
            let ghost src_before = self.source@;
            let ghost events_before = events@;
            let position = match first_position.checked_add(index as u64) {
                Some(p) => p,
                None => {
                    proof {
                        self.tracking@ = false;
                    }
                    return Err(ReceiveTimelineError::ArithmeticOverflow);
                },
            };
            proof {
                if exact {
                    lemma_output_count_monotone(m + index, m + index + 1, rate);
                    lemma_output_count_monotone(m, m + index, rate);
                    lemma_output_count_monotone(m + index + 1, m + samples@.len(), rate);
                    if slots_ok {
                        assert(slots_representable(old(self).anchor, rate, output_count(m + index, rate),
                            output_count(m + index + 1, rate)));
                    }
                }
            }
            match self.push_sample(position, samples[index], &mut events) {
                Ok(()) => {},
                Err(e) => {
                    proof {
                        self.tracking@ = false;
                    }
                    return Err(e);
                },
            }
            proof {
                let synced = self.synced();
                self.tracking@ = self.tracking@ && synced;
                if exact {
                    let src1 = base + samples@.subrange(0, index as int + 1);
                    assert(src1 =~= src_before.push(samples@[index as int]));
                    let n0 = output_count(m + index, rate);
                    let n1 = output_count(m + index + 1, rate);
                    lemma_output_count_monotone(m + index, m + index + 1, rate);
                    lemma_output_count_monotone(m, m + index, rate);
                    assert(src_before =~= src1.subrange(0, src_before.len() as int));
                    lemma_outputs_prefix(src_before, src1, rate);
                    assert(resampled_outputs(src_before, rate).subrange(0, n0) =~= resampled_outputs(src_before, rate));
                    lemma_expected_prefix(old(self).anchor, rate, resampled_outputs(src_before, rate), resampled_outputs(src1, rate), from, n0);
                    lemma_expected_concat(old(self).anchor, rate, resampled_outputs(src1, rate), from, n0, n1);
                    lemma_events_are_append(
                        events_before,
                        expected_events(old(self).anchor, rate, resampled_outputs(src1, rate), from, n0),
                        events@.subrange(events_before.len() as int, events@.len() as int),
                        expected_events(old(self).anchor, rate, resampled_outputs(src1, rate), n0, n1),
                        old(self).process_generation,
                        old(self).stream_generation,
                    );
                    assert(events@ =~= events_before + events@.subrange(events_before.len() as int, events@.len() as int));
                }
            }
            index = index + 1;
        }
        proof {
            if exact {
                assert(samples@.subrange(0, samples@.len() as int) =~= samples@);
            }
        }
        Ok(events)
    }

    #[verifier::rlimit(100)]
    fn push_sample(&mut self, position: u64, sample: i16, events: &mut Vec<ReceiveTimelineEvent>) -> (res: Result<(), ReceiveTimelineError>)
        requires
            old(self).wf(),
            events_wf(old(events)@, old(self).process_generation, old(self).stream_generation),
        ensures
            final(self).wf(),
            final(self).same_stream(old(self)),
            final(self).tracking == old(self).tracking,
            final(self).source@ == old(self).source@.push(sample),
            events_wf(final(events)@, old(self).process_generation, old(self).stream_generation),
            res matches Err(e) ==> resampler_error(e),
            ({
                let m = old(self).source@.len() as int;
                let rate = old(self).source_rate_hz as int;
                let src = old(self).source@.push(sample);
                let from = output_count(m, rate);
                let to = output_count(m + 1, rate);
                old(self).synced() && position == old(self).anchor.position@ + m ==> {
                    &&& slots_representable(old(self).anchor, rate, from, to) ==> res is Ok
                    &&& res is Ok ==> {
                        &&& final(self).synced()
                        &&& final(events)@.len() >= old(events)@.len()
                        &&& final(events)@.subrange(0, old(events)@.len() as int) == old(events)@
                        &&& events_are(
                            final(events)@.subrange(old(events)@.len() as int, final(events)@.len() as int),
                            expected_events(old(self).anchor, rate, resampled_outputs(src, rate), from, to),
                            old(self).process_generation,
                            old(self).stream_generation,
                        )
                    }
                }
            }),
    {
        let ghost m = self.source@.len() as int;
        let ghost rate_spec = self.source_rate_hz as int;
        let ghost src = self.source@.push(sample);
        let ghost from = output_count(m, rate_spec);
        let ghost to = output_count(m + 1, rate_spec);
        let ghost full = resampled_outputs(src, rate_spec);
        let ghost exact = self.synced() && position == self.anchor.position@ + m;
        let ghost e0 = events@;
        proof {
            if exact {
                assert(output_count(m, rate_spec) <= output_count(m + 1, rate_spec)) by (nonlinear_arith)
                        requires
                            rate_spec >= 1,
                            m >= 0,
                            output_count(m, rate_spec) == (if m <= 0 { 0 } else { (m - 1) * 12_000 / rate_spec + 1 }),
                            output_count(m + 1, rate_spec) == m * 12_000 / rate_spec + 1,
                    {
                        if m > 0 {
                            vstd::arithmetic::div_mod::lemma_div_is_ordered((m - 1) * 12_000, m * 12_000, rate_spec);
                        }
                    }
                assert(self.source@ =~= src.subrange(0, m));
                lemma_outputs_prefix(self.source@, src, rate_spec);
                assert(to <= 2 * m + 1) by (nonlinear_arith)
                    requires
                        to == m * 12_000 / rate_spec + 1,
                        rate_spec >= 8_000,
                        m >= 0,
                {
                    vstd::arithmetic::div_mod::lemma_div_is_ordered_by_denominator(m * 12_000, 8_000, rate_spec);
                    vstd::arithmetic::div_mod::lemma_div_is_ordered(m * 12_000, m * 16_000, 8_000);
                    vstd::arithmetic::div_mod::lemma_div_multiples_vanish(m * 2, 8_000);
                }
                assert(resampled_outputs(self.source@, rate_spec) =~= full.subrange(0, from));
                assert(events@.subrange(0, e0.len() as int) =~= e0);
                assert(events@.subrange(e0.len() as int, events@.len() as int) =~= Seq::<ReceiveTimelineEvent>::empty());
            }
            self.source@ = src;
        }
        let position_delta = match position.checked_sub(self.anchor.position.frames()) {
            Some(d) => d,
            None => {
                return Err(ReceiveTimelineError::OutOfOrder);
            },
        };
        if self.previous.is_none() {
            self.previous = Some((position_delta, sample));
        }
        let current_source_tick: i128 = position_delta as i128 * FT8_RECEIVE_SAMPLE_RATE_HZ as i128;
        let anchor_tick: i128 = self.anchor.utc_unix_millis as i128 * OUTPUT_TICKS_PER_MILLISECOND;
        let rate: i128 = self.source_rate_hz as i128;
        let ghost start = *self;
        proof {
            if exact {
                assert(full.subrange(0, from) == resampled_outputs(old(self).source@, rate_spec));
                assert(self.next_output_tick - anchor_tick == from);
                assert(self.emitting(full.subrange(0, from)));
                assert(expected_events(old(self).anchor, rate_spec, full, from, from) =~= Seq::<ExpectedEvent>::empty());
            }
        }
        loop
            invariant
                self.wf(),
                self.same_stream(&start),
                start.same_stream(old(self)),
                self.previous is Some,
                self.source@ == src,
                src == old(self).source@.push(sample),
                m == old(self).source@.len(),
                rate_spec == old(self).source_rate_hz,
                from == output_count(m, rate_spec),
                to == output_count(m + 1, rate_spec),
                exact == (old(self).synced() && position == old(self).anchor.position@ + m),
                e0 == old(events)@,
                self.tracking == old(self).tracking,
                rate == self.source_rate_hz,
                rate_spec == rate,
                anchor_tick == self.anchor.utc_unix_millis as i128 * OUTPUT_TICKS_PER_MILLISECOND,
                0 <= current_source_tick <= u64::MAX as int * 12000,
                events_wf(events@, old(self).process_generation, old(self).stream_generation),
                exact ==> old(self).synced(),
                exact ==> position_delta == m,
                exact ==> current_source_tick == m * 12_000,
                exact ==> self.previous == (if m == 0 { Some((0u64, sample)) } else { Some(((m - 1) as u64, src[m - 1])) }),
                exact ==> anchor_tick == self.t0(),
                exact ==> ({
                    let k = self.next_output_tick - anchor_tick;
                    &&& from <= k <= to
                    &&& self.emitting(full.subrange(0, k))
                    &&& events@.len() >= e0.len()
                    &&& events@.subrange(0, e0.len() as int) == e0
                    &&& events_are(events@.subrange(e0.len() as int, events@.len() as int),
                        expected_events(old(self).anchor, rate_spec, full, from, k), old(self).process_generation, old(self).stream_generation)
                }),
                full == resampled_outputs(src, rate_spec),
                full.len() == to,
                exact ==> to <= 2 * m + 1 && m <= u64::MAX && 8_000 <= rate_spec <= 384_000,
            ensures
                exact ==> self.next_output_tick - anchor_tick == to,
            decreases current_source_tick - (self.next_output_tick - anchor_tick) + 1,
        {
            let ghost k = self.next_output_tick - anchor_tick;
            let ghost e_before = events@;
            proof {
                if exact {
                    assert(0 <= k * rate_spec <= (2 * u64::MAX + 1) * 384_000) by (nonlinear_arith)
                        requires
                            0 <= k <= 2 * m + 1,
                            m <= u64::MAX,
                            8_000 <= rate_spec <= 384_000,
                    ;
                }
            }
            let target_from_anchor = match self.next_output_tick.checked_sub(anchor_tick) {
                Some(t) => t,
                None => {
                    return Err(ReceiveTimelineError::ArithmeticOverflow);
                },
            };
            let target_source_tick = match target_from_anchor.checked_mul(rate) {
                Some(t) => t,
                None => {
                    return Err(ReceiveTimelineError::ArithmeticOverflow);
                },
            };
            if target_source_tick > current_source_tick {
                proof {
                    if exact {
                        lemma_output_step(k, m, rate_spec);
                    }
                }
                break;
            }
            proof {
                if target_from_anchor > 0 {
                    assert(target_from_anchor <= target_from_anchor * rate) by (nonlinear_arith)
                        requires
                            target_from_anchor > 0,
                            rate >= 1,
                    ;
                }
                if exact {
                    lemma_output_step(k, m, rate_spec);
                    if m >= 1 {
                        lemma_output_bounds(k, m, rate_spec);
                        lemma_ceiling(k * rate_spec, m);
                    } else {
                        assert(k == 0) by (nonlinear_arith)
                            requires
                                k * rate_spec <= 0,
                                0 <= k,
                                rate_spec >= 1,
                        ;
                        assert((0 * rate_spec + 11_999) / 12_000 == 0);
                    }
                }
            }
            let (previous_position, previous_sample) = match self.previous {
                Some(p) => p,
                None => {
                    return Err(ReceiveTimelineError::ArithmeticOverflow);
                },
            };
            let previous_source_tick: i128 = previous_position as i128 * FT8_RECEIVE_SAMPLE_RATE_HZ as i128;
            if target_source_tick < previous_source_tick {
                return Err(ReceiveTimelineError::OutOfOrder);
            }
            proof {
                if exact && m >= 1 {
                    let num = target_source_tick - previous_source_tick;
                    assert(0 < num <= 12_000);
                    assert(-65_535 * 12_000 <= (sample - previous_sample) * num <= 65_535 * 12_000) by (nonlinear_arith)
                        requires
                            0 < num <= 12_000,
                            -65_535 <= sample - previous_sample <= 65_535,
                    ;
                    assert(interpolation_defined(previous_sample, sample, num as int, 12_000));
                }
            }
            let interpolated = if position_delta == previous_position {
                previous_sample
            } else {
                match interpolate(
                    previous_sample,
                    sample,
                    target_source_tick - previous_source_tick,
                    current_source_tick - previous_source_tick,
                ) {
                    Ok(v) => v,
                    Err(e) => {
                        return Err(e);
                    },
                }
            };
            proof {
                if exact {
                    assert(interpolated == full[k]);
                    assert(full.subrange(0, k).push(interpolated) =~= full.subrange(0, k + 1));
                    assert(full.subrange(0, k + 1).subrange(0, k + 1) =~= full.subrange(0, k + 1));
                }
            }
            match self.push_output(interpolated, events, Ghost(full.subrange(0, k))) {
                Ok(()) => {},
                Err(e) => {
                    return Err(e);
                },
            }
            proof {
                if exact {
                    lemma_output_events_prefix(old(self).anchor, rate_spec, full.subrange(0, k + 1), full, k);
                    assert(events@.subrange(0, e_before.len() as int) == e_before);
                    assert(e_before.subrange(0, e0.len() as int) == e0);
                    assert(events@.subrange(0, e0.len() as int) =~= e0);
                    lemma_events_are_append(
                        e_before.subrange(e0.len() as int, e_before.len() as int),
                        expected_events(old(self).anchor, rate_spec, full, from, k),
                        events@.subrange(e_before.len() as int, events@.len() as int),
                        output_events(old(self).anchor, rate_spec, full, k),
                        old(self).process_generation,
                        old(self).stream_generation,
                    );
                    assert(events@.subrange(e0.len() as int, events@.len() as int)
                        =~= e_before.subrange(e0.len() as int, e_before.len() as int) + events@.subrange(e_before.len() as int, events@.len() as int));
                }
            }
            self.next_output_tick = match self.next_output_tick.checked_add(1) {
                Some(t) => t,
                None => {
                    return Err(ReceiveTimelineError::ArithmeticOverflow);
                },
            };
            proof {
                if exact {
                    assert(self.next_output_tick - anchor_tick == k + 1);
                    assert(from <= k + 1 <= to);
                    assert(self.holds(full.subrange(0, k + 1)));
                    assert(self.emitting(full.subrange(0, k + 1)));
                    assert(events@.subrange(0, e0.len() as int) == e0);
                    assert(expected_events(old(self).anchor, rate_spec, full, from, k + 1)
                        == expected_events(old(self).anchor, rate_spec, full, from, k) + output_events(old(self).anchor, rate_spec, full, k));
                }
            }
        }
        self.previous = Some((position_delta, sample));
        proof {
            if exact {
                assert(full.subrange(0, to) =~= full);
            }
        }
        Ok(())
    }

    fn push_output(&mut self, sample: i16, events: &mut Vec<ReceiveTimelineEvent>, out: Ghost<Seq<i16>>) -> (res: Result<(), ReceiveTimelineError>)
        requires
            old(self).wf(),
            events_wf(old(events)@, old(self).process_generation, old(self).stream_generation),
        ensures
            final(self).wf(),
            final(self).same_stream(old(self)),
            final(self).next_output_tick == old(self).next_output_tick,
            final(self).previous == old(self).previous,
            final(self).source == old(self).source,
            final(self).tracking == old(self).tracking,
            events_wf(final(events)@, old(self).process_generation, old(self).stream_generation),
            res matches Err(e) ==> resampler_error(e),
            old(self).emitting(out@) ==> ({
                let n = out@.len() as int;
                let rate = old(self).source_rate_hz as int;
                &&& (opens_slot(old(self).anchor, n) ==> slot_mapping(old(self).anchor, rate, slot_of(old(self).t0() + n)) is Some
                    && slot_of(old(self).t0() + n) / 12 <= i64::MAX) ==> res is Ok
                &&& res is Ok ==> {
                    &&& final(self).holds(out@.push(sample))
                    &&& final(events)@.len() >= old(events)@.len()
                    &&& final(events)@.subrange(0, old(events)@.len() as int) == old(events)@
                    &&& events_are(
                        final(events)@.subrange(old(events)@.len() as int, final(events)@.len() as int),
                        output_events(old(self).anchor, rate, out@.push(sample), n),
                        old(self).process_generation,
                        old(self).stream_generation,
                    )
                }
            }),
    {
        let ghost exact = self.emitting(out@);
        let ghost n = out@.len() as int;
        let ghost t0 = self.t0();
        let ghost t = t0 + n;
        let ghost rate = self.source_rate_hz as int;
        let ghost e0 = events@;
        let ghost out1 = out@.push(sample);
        proof {
            if exact {
                lemma_slot_of(t);
                if n > 0 {
                    lemma_slot_of(t - 1);
                }
            }
        }
        let slot_index = match self.next_output_tick.checked_div_euclid(OUTPUT_TICKS_PER_SLOT) {
            Some(i) => i,
            None => {
                return Err(ReceiveTimelineError::ArithmeticOverflow);
            },
        };
        let slot_tick = match slot_index.checked_mul(OUTPUT_TICKS_PER_SLOT) {
            Some(t) => t,
            None => {
                return Err(ReceiveTimelineError::ArithmeticOverflow);
            },
        };
        proof {
            if exact {
                assert(slot_tick == slot_of(t));
            }
        }
        let starts_new = match &self.active {
            Some(active) => active.slot_tick != slot_tick,
            None => true,
        };
        proof {
            if exact {
                assert(starts_new <==> opens_slot(self.anchor, n));
            }
        }
        if starts_new {
            match self.active.take() {
                Some(previous) => {
                    match previous.incomplete_event(Ghost(self.process_generation), Ghost(self.stream_generation)) {
                        Some(event) => {
                            events.push(event);
                        },
                        None => {},
                    }
                },
                None => {},
            }
            proof {
                if exact {
                    let late: Seq<ExpectedEvent> = if n > 0 && t % 180_000 == 0 && slot_of(t - 1) < t0 {
                        seq![ExpectedEvent::Late { slot_start: slot_of(t - 1) / 12, accumulated: n }]
                    } else {
                        Seq::empty()
                    };
                    assert(events@.subrange(0, e0.len() as int) =~= e0);
                    assert(events_are(events@.subrange(e0.len() as int, events@.len() as int), late,
                        self.process_generation, self.stream_generation));
                }
            }
            let mapping = match self.mapping_for_tick(slot_tick) {
                Ok(m) => m,
                Err(e) => {
                    return Err(e);
                },
            };
            let accumulator = match WindowAccumulator::new(slot_tick, self.next_output_tick, mapping) {
                Ok(a) => a,
                Err(e) => {
                    return Err(e);
                },
            };
            self.active = Some(accumulator);
        }
        let ghost e1 = events@;
        let mut active = match self.active.take() {
            Some(a) => a,
            None => {
                return Err(ReceiveTimelineError::ArithmeticOverflow);
            },
        };
        active.samples.push(sample);
        proof {
            if exact {
                let slot = slot_of(t);
                let first = if slot >= t0 { slot } else { t0 };
                assert(active.samples@ =~= out1.subrange(first - t0, n + 1));
            }
        }
        if active.samples.len() == FT8_RECEIVE_WINDOW_SAMPLES {
            let slot_start = active.slot.start_utc_unix_millis();
            match Ft8ReceiveWindow::new(
                self.process_generation,
                self.stream_generation,
                slot_start,
                active.mapping,
                active.samples,
            ) {
                Ok(window) => {
                    events.push(ReceiveTimelineEvent::Window(window));
                },
                Err(_) => {
                    return Err(ReceiveTimelineError::ArithmeticOverflow);
                },
            }
        } else {
            self.active = Some(active);
        }
        proof {
            if exact {
                let slot = slot_of(t);
                let late: Seq<ExpectedEvent> = if n > 0 && t % 180_000 == 0 && slot_of(t - 1) < t0 {
                    seq![ExpectedEvent::Late { slot_start: slot_of(t - 1) / 12, accumulated: n }]
                } else {
                    Seq::empty()
                };
                let window: Seq<ExpectedEvent> = if (t + 1) % 180_000 == 0 && slot >= t0 {
                    seq![ExpectedEvent::Window {
                        slot_start: slot / 12,
                        mapping: slot_mapping(self.anchor, rate, slot).unwrap(),
                        samples: out1.subrange(slot - t0, n + 1),
                    }]
                } else {
                    Seq::empty()
                };
                assert(output_events(self.anchor, rate, out1, n) == late + window);
                assert(events_are(events@.subrange(e1.len() as int, events@.len() as int), window,
                    self.process_generation, self.stream_generation));
                assert(events_are(e1.subrange(e0.len() as int, e1.len() as int), late,
                    self.process_generation, self.stream_generation));
                lemma_events_are_append(e1.subrange(e0.len() as int, e1.len() as int), late,
                    events@.subrange(e1.len() as int, events@.len() as int), window,
                    self.process_generation, self.stream_generation);
                assert(events@.subrange(e0.len() as int, events@.len() as int)
                    =~= e1.subrange(e0.len() as int, e1.len() as int) + events@.subrange(e1.len() as int, events@.len() as int));
                assert(events@.subrange(0, e0.len() as int) =~= e0);
            }
        }
        Ok(())
    }

    fn mapping_for_tick(&self, slot_tick: i128) -> (res: Result<CaptureTimeEvidence, ReceiveTimelineError>)
        ensures
            res matches Err(e) ==> e is ArithmeticOverflow,
            self.anchor.utc_unix_millis >= 0 && rate_ok(self.source_rate_hz) && 0 <= slot_tick <= 0x1_0000_0000_0000_0000_0000
                ==> match res {
                    Ok(m) => slot_mapping(self.anchor, self.source_rate_hz as int, slot_tick as int) == Some(evidence_view(m)),
                    Err(_) => slot_mapping(self.anchor, self.source_rate_hz as int, slot_tick as int) is None,
                },
    {
        let anchor_tick: i128 = self.anchor.utc_unix_millis as i128 * OUTPUT_TICKS_PER_MILLISECOND;
        let tick_delta = match slot_tick.checked_sub(anchor_tick) {
            Some(d) => d,
            None => {
                return Err(ReceiveTimelineError::ArithmeticOverflow);
            },
        };
        let scaled = match tick_delta.checked_mul(self.source_rate_hz as i128) {
            Some(v) => v,
            None => {
                return Err(ReceiveTimelineError::ArithmeticOverflow);
            },
        };
        let source_delta = match scaled.checked_div(FT8_RECEIVE_SAMPLE_RATE_HZ as i128) {
            Some(v) => v,
            None => {
                return Err(ReceiveTimelineError::ArithmeticOverflow);
            },
        };
        if source_delta < i64::MIN as i128 || source_delta > i64::MAX as i128 {
            return Err(ReceiveTimelineError::ArithmeticOverflow);
        }
        let anchor_frames = self.anchor.position.frames();
        let source_position = if source_delta >= 0 {
            anchor_frames.checked_add(source_delta as u64)
        } else {
            anchor_frames.checked_sub((-source_delta) as u64)
        };
        let source_position = match source_position {
            Some(p) => p,
            None => {
                // A partial first slot can begin before the first retained source
                // frame. Its mapping is diagnostic only because the slot is
                // withheld; retain the actual anchor rather than inventing a
                // negative capture position.
                return Ok(self.anchor);
            },
        };
        let slot_millis = match slot_tick.checked_div(OUTPUT_TICKS_PER_MILLISECOND) {
            Some(m) => m,
            None => {
                return Err(ReceiveTimelineError::ArithmeticOverflow);
            },
        };
        if slot_millis < i64::MIN as i128 || slot_millis > i64::MAX as i128 {
            return Err(ReceiveTimelineError::ArithmeticOverflow);
        }
        let monotonic_delta: i128 = slot_millis - self.anchor.utc_unix_millis as i128;
        let monotonic_millis: i128 = self.anchor.monotonic_millis as i128 + monotonic_delta;
        if monotonic_millis < 0 || monotonic_millis > u64::MAX as i128 {
            return Err(ReceiveTimelineError::ArithmeticOverflow);
        }
        match CaptureTimeEvidence::new(
            CapturePosition::from_frames(source_position),
            slot_millis as i64,
            monotonic_millis as u64,
        ) {
            Ok(t) => Ok(t),
            Err(_) => Err(ReceiveTimelineError::ArithmeticOverflow),
        }
    }

    fn discard_active(&mut self) -> (res: Option<IncompleteFt8Slot>)
        requires
            old(self).wf(),
        ensures
            final(self).wf(),
            final(self).active is None,
            res is Some <==> old(self).pending(),
    {
        let active = match self.active.take() {
            Some(a) => a,
            None => {
                return None;
            },
        };
        if active.samples.len() == 0 {
            return None;
        }
        Some(IncompleteFt8Slot {
            slot: active.slot,
            reason: IncompleteSlotReason::TimelineInvalidated,
            accumulated_samples: active.samples.len() as u32,
        })
    }
}


/// Abstract state of a receive timeline.
#[derive(Debug, Clone, Copy, PartialEq, Eq, Structural)]
pub struct TimelineView {
    /// Daemon-process generation of the timeline.
    pub process_generation: ProcessGeneration,
    /// Stream generation of the timeline.
    pub stream_generation: StreamGeneration,
    /// Exact configuration of the timeline.
    pub configuration: InputConfiguration,
    /// Source-frame position the next batch must start at, once one was seen.
    pub expected_position: Option<u64>,
    /// Start position of the last batch that advanced the timeline.
    pub last_batch_position: Option<u64>,
    /// Monotonic evidence of the last batch that advanced the timeline.
    pub last_monotonic_millis: Option<u64>,
    /// First-frame evidence that anchors the current mapping.
    pub anchor: Option<CaptureTimeEvidence>,
    /// Whether a resampler is running.
    pub resampling: bool,
    /// Whether the running resampler holds a partially filled slot.
    pub pending: bool,
    /// Bounded health accounting.
    pub health: ReceiveTimelineHealth,
}

/// Lateness of a batch observed at `observed`, saturating at zero.
pub open spec fn lateness(observed: u64, b: CaptureBatch) -> u64 {
    if observed >= b.spec_first_frame().monotonic_millis {
        (observed - b.spec_first_frame().monotonic_millis) as u64
    } else {
        0
    }
}

/// Generation or configuration mismatch between a timeline and a batch.
pub open spec fn identity_error(t: TimelineView, b: CaptureBatch) -> Option<ReceiveTimelineError> {
    if b.spec_process() != t.process_generation {
        Some(ReceiveTimelineError::ProcessGenerationChanged)
    } else if b.spec_stream() != t.stream_generation {
        Some(ReceiveTimelineError::StreamGenerationChanged)
    } else if b.spec_configuration() != t.configuration {
        Some(ReceiveTimelineError::ConfigurationChanged)
    } else {
        None
    }
}

/// Position mismatch between the expected position and a batch's first frame.
pub open spec fn position_error(t: TimelineView, b: CaptureBatch) -> Option<ReceiveTimelineError> {
    let actual = b.spec_first_frame().position@;
    match t.expected_position {
        None => None,
        Some(expected) => if actual == expected {
            None
        } else if actual < expected {
            if t.last_batch_position matches Some(previous) && actual < previous {
                Some(ReceiveTimelineError::OutOfOrder)
            } else {
                Some(ReceiveTimelineError::Overlap { frames: (expected - actual) as u64 })
            }
        } else {
            Some(ReceiveTimelineError::Gap { frames: (actual - expected) as u64 })
        },
    }
}

/// A discontinuity invalidates the slot unless it is the restart that opens the stream.
pub open spec fn discontinuity_error(t: TimelineView, b: CaptureBatch) -> Option<ReceiveTimelineError> {
    match b.spec_discontinuity() {
        None => None,
        Some(d) => if t.expected_position is None && d.kind == CaptureDiscontinuityKind::StreamRestart {
            None
        } else {
            Some(ReceiveTimelineError::Discontinuity(d.kind))
        },
    }
}

/// Checks a batch's first-frame evidence against the anchor of the mapping:
/// the outcome and the health after the check.
pub open spec fn mapping_outcome(
    anchor: CaptureTimeEvidence,
    last_monotonic: Option<u64>,
    rate: u32,
    f: CaptureTimeEvidence,
    h: ReceiveTimelineHealth,
) -> (Option<ReceiveTimelineError>, ReceiveTimelineHealth) {
    if (last_monotonic matches Some(l) && f.monotonic_millis < l) || f.monotonic_millis < anchor.monotonic_millis {
        (Some(ReceiveTimelineError::MonotonicRegression), h)
    } else if f.position@ < anchor.position@ {
        (Some(ReceiveTimelineError::OutOfOrder), h)
    } else if (f.position@ - anchor.position@) * 1000 > u64::MAX {
        (Some(ReceiveTimelineError::ArithmeticOverflow), h)
    } else {
        let expected = (f.position@ - anchor.position@) * 1000 / (rate as int);
        let jitter = (f.monotonic_millis - anchor.monotonic_millis) - expected;
        if jitter < i64::MIN || jitter > i64::MAX {
            (Some(ReceiveTimelineError::ArithmeticOverflow), h)
        } else {
            let seen = if magnitude(jitter) > u32::MAX { u32::MAX as int } else { magnitude(jitter) };
            let h1 = ReceiveTimelineHealth {
                max_jitter_millis: if seen > h.max_jitter_millis { seen as u32 } else { h.max_jitter_millis },
                ..h
            };
            if magnitude(jitter) > MAX_RECEIVE_JITTER_MILLIS {
                (Some(ReceiveTimelineError::ExcessiveJitter { millis: jitter as i64 }), h1)
            } else {
                let remap = (f.utc_unix_millis - f.monotonic_millis) - (anchor.utc_unix_millis - anchor.monotonic_millis);
                if remap < i64::MIN || remap > i64::MAX {
                    (Some(ReceiveTimelineError::ArithmeticOverflow), h1)
                } else if magnitude(remap) > MAX_RECEIVE_CLOCK_REMAP_MILLIS {
                    (Some(ReceiveTimelineError::ClockRemapped { millis: remap as i64 }), h1)
                } else if expected >= 1000 {
                    let ppm = trunc_div(jitter * 1_000_000, expected);
                    let h2 = ReceiveTimelineHealth { drift_parts_per_million: ppm as i32, ..h1 };
                    if magnitude(ppm) > MAX_RECEIVE_DRIFT_PARTS_PER_MILLION {
                        (Some(ReceiveTimelineError::ExcessiveDrift { parts_per_million: ppm as i32 }), h2)
                    } else {
                        (None, h2)
                    }
                } else {
                    (None, h1)
                }
            }
        }
    }
}

/// The timeline after its active slot is discarded.
pub open spec fn invalidated(t: TimelineView) -> TimelineView {
    TimelineView {
        anchor: None,
        resampling: false,
        pending: false,
        health: ReceiveTimelineHealth {
            incomplete_slot_count: if t.pending { sat_add(t.health.incomplete_slot_count, 1) } else { t.health.incomplete_slot_count },
            ..t.health
        },
        ..t
    }
}

/// The timeline after recording a batch as consumed, and whether the position
/// just after the batch was representable.
pub open spec fn advanced(t: TimelineView, b: CaptureBatch) -> (TimelineView, bool) {
    let t1 = TimelineView {
        last_batch_position: Some(b.spec_first_frame().position@),
        last_monotonic_millis: Some(b.spec_first_frame().monotonic_millis),
        ..t
    };
    match batch_end(b) {
        Some(end) => (TimelineView { expected_position: Some(end), ..t1 }, true),
        None => (t1, false),
    }
}

/// The error reported after invalidating and advancing, and the resulting state.
pub open spec fn rejected_after_advance(t: TimelineView, b: CaptureBatch, e: ReceiveTimelineError) -> Option<(ReceiveTimelineError, TimelineView)> {
    let (t2, ok) = advanced(invalidated(t), b);
    Some((if ok { e } else { ReceiveTimelineError::ArithmeticOverflow }, t2))
}

/// When a batch is refused before resampling: the error and the timeline afterwards.
pub open spec fn rejection(t: TimelineView, b: CaptureBatch, observed: u64) -> Option<(ReceiveTimelineError, TimelineView)> {
    let late = lateness(observed, b);
    if let Some(e) = identity_error(t, b) {
        Some((e, t))
    } else if late > MAX_RECEIVE_BATCH_LATENESS_MILLIS {
        let counted = TimelineView {
            health: ReceiveTimelineHealth { late_batch_count: sat_add(t.health.late_batch_count, 1), ..t.health },
            ..t
        };
        rejected_after_advance(counted, b, ReceiveTimelineError::LateData { millis: late })
    } else if let Some(e) = position_error(t, b) {
        if e is Gap {
            rejected_after_advance(t, b, e)
        } else {
            Some((e, invalidated(t)))
        }
    } else if let Some(e) = discontinuity_error(t, b) {
        rejected_after_advance(t, b, e)
    } else {
        match t.anchor {
            None => None,
            Some(a) => {
                let (outcome, health) = mapping_outcome(a, t.last_monotonic_millis, t.configuration@.0, b.spec_first_frame(), t.health);
                match outcome {
                    None => None,
                    Some(e) => rejected_after_advance(TimelineView { health, ..t }, b, e),
                }
            },
        }
    }
}

/// The timeline after an accepted batch produced `events`; whether the
/// resampler still holds a partial slot is left open.
pub open spec fn accepted(t: TimelineView, b: CaptureBatch, events: Seq<ReceiveTimelineEvent>, after: TimelineView) -> bool {
    let f = b.spec_first_frame();
    let checked = match t.anchor {
        Some(a) => mapping_outcome(a, t.last_monotonic_millis, t.configuration@.0, f, t.health).1,
        None => t.health,
    };
    &&& after.process_generation == t.process_generation
    &&& after.stream_generation == t.stream_generation
    &&& after.configuration == t.configuration
    &&& after.expected_position == batch_end(b)
    &&& batch_end(b) is Some
    &&& after.last_batch_position == Some(f.position@)
    &&& after.last_monotonic_millis == Some(f.monotonic_millis)
    &&& after.anchor == Some(match t.anchor { Some(a) => a, None => f })
    &&& after.resampling
    &&& after.health == ReceiveTimelineHealth {
        incomplete_slot_count: sat_add(checked.incomplete_slot_count, count_incomplete(events) as int),
        ..checked
    }
}

/// Pure worker-side FT8 receive timeline.
///
/// The processor owns at most one 180,000-sample canonical window plus one
/// previous source sample. It performs no device I/O, sleeping, decode,
/// persistence, client publication, output, rig, PTT, or transmit work.
pub struct Ft8ReceiveTimeline {
    process_generation: ProcessGeneration,
    stream_generation: StreamGeneration,
    configuration: InputConfiguration,
    expected_position: Option<CapturePosition>,
    last_batch_position: Option<CapturePosition>,
    last_monotonic_millis: Option<u64>,
    anchor: Option<CaptureTimeEvidence>,
    resampler: Option<RationalResampler>,
    health: ReceiveTimelineHealth,
}

impl View for Ft8ReceiveTimeline {
    type V = TimelineView;

    closed spec fn view(&self) -> TimelineView {
        TimelineView {
            process_generation: self.process_generation,
            stream_generation: self.stream_generation,
            configuration: self.configuration,
            expected_position: match self.expected_position { Some(p) => Some(p@), None => None },
            last_batch_position: match self.last_batch_position { Some(p) => Some(p@), None => None },
            last_monotonic_millis: self.last_monotonic_millis,
            anchor: self.anchor,
            resampling: self.resampler is Some,
            pending: self.resampler matches Some(r) && r.pending(),
            health: self.health,
        }
    }
}

impl Ft8ReceiveTimeline {
    #[verifier::type_invariant]
    spec fn inv(self) -> bool {
        &&& self.resampler matches Some(r) ==> {
            &&& r.valid()
            &&& r.process_generation == self.process_generation
            &&& r.stream_generation == self.stream_generation
            &&& r.source_rate_hz == self.configuration@.0
            &&& r.tracking@ ==> {
                &&& self.anchor == Some(r.anchor)
                &&& self.expected_position matches Some(p) && p@ == r.anchor.position@ + r.source@.len()
            }
        }
    }

    /// The source samples the running resampler has taken since its anchor.
    pub closed spec fn spec_source(&self) -> Seq<i16> {
        match self.resampler {
            Some(r) => r.source@,
            None => Seq::empty(),
        }
    }

    /// Whether the running resampler, if any, is exactly the canonical
    /// resampling of the source samples it has taken; with none running, no
    /// anchor is held either.
    pub closed spec fn spec_exact(&self) -> bool {
        match self.resampler {
            Some(r) => r.tracking@,
            None => self.anchor is None,
        }
    }

    /// Constructs an empty timeline for one exact capture generation.
    pub fn new(
        process_generation: ProcessGeneration,
        stream_generation: StreamGeneration,
        configuration: InputConfiguration,
    ) -> (res: Self)
        ensures
            res@ == (TimelineView {
                process_generation,
                stream_generation,
                configuration,
                expected_position: None,
                last_batch_position: None,
                last_monotonic_millis: None,
                anchor: None,
                resampling: false,
                pending: false,
                health: ReceiveTimelineHealth { max_jitter_millis: 0, drift_parts_per_million: 0, incomplete_slot_count: 0, late_batch_count: 0 },
            }),
            res.spec_exact(),
            res.spec_source().len() == 0,
    {
        Ft8ReceiveTimeline {
            process_generation,
            stream_generation,
            configuration,
            expected_position: None,
            last_batch_position: None,
            last_monotonic_millis: None,
            anchor: None,
            resampler: None,
            health: ReceiveTimelineHealth { max_jitter_millis: 0, drift_parts_per_million: 0, incomplete_slot_count: 0, late_batch_count: 0 },
        }
    }

    /// Returns latest bounded mapping and discard health.
    pub fn health(&self) -> (res: ReceiveTimelineHealth)
        ensures
            res == self@.health,
    {
        self.health
    }

    /// Consumes one owned capture batch at a supplied monotonic observation.
    ///
    /// The supplied observation makes late-data behavior deterministic under a
    /// virtual clock. No wall-clock read or sleep occurs in this processor.
    #[verifier::rlimit(60)]
    #[verifier::spinoff_prover]
    pub fn push(&mut self, batch: &CaptureBatch, observed_at_monotonic_millis: u64) -> (res: Result<Vec<ReceiveTimelineEvent>, ReceiveTimelineError>)
        ensures
            match rejection(old(self)@, *batch, observed_at_monotonic_millis) {
                Some((e, after)) => res == Err::<Vec<ReceiveTimelineEvent>, ReceiveTimelineError>(e) && final(self)@ == after,
                None => match res {
                    Ok(events) => {
                        &&& events_wf(events@, old(self)@.process_generation, old(self)@.stream_generation)
                        &&& accepted(old(self)@, *batch, events@, final(self)@)
                    },
                    Err(e) => resampler_error(e),
                },
            },
            rejection(old(self)@, *batch, observed_at_monotonic_millis) is Some && old(self).spec_exact() ==> final(self).spec_exact(),
            rejection(old(self)@, *batch, observed_at_monotonic_millis) is None ==> ({
                let f = batch.spec_first_frame();
                let anchor = match old(self)@.anchor { Some(a) => a, None => f };
                let rate = old(self)@.configuration@.0 as int;
                let source = old(self).spec_source() + batch.spec_samples();
                let from = output_count(old(self).spec_source().len() as int, rate);
                let to = output_count(source.len() as int, rate);
                old(self).spec_exact() && batch.spec_samples().len() <= MAX_CAPTURE_BATCH_FRAMES && batch_end(*batch) is Some
                    && slots_representable(anchor, rate, from, to) ==> {
                    &&& res matches Ok(events) && events_are(events@, expected_events(anchor, rate, resampled_outputs(source, rate), from, to),
                        old(self)@.process_generation, old(self)@.stream_generation)
                    &&& final(self).spec_exact()
                    &&& final(self).spec_source() == source
                }
            }),
    {
        proof {
            use_type_invariant(&*self);
        }
        match self.validate_identity(batch) {
            Ok(()) => {},
            Err(e) => {
                return Err(e);
            },
        }
        let first = batch.first_frame;
        let lateness: u64 = if observed_at_monotonic_millis >= first.monotonic_millis {
            observed_at_monotonic_millis - first.monotonic_millis
        } else {
            0
        };
        if lateness > MAX_RECEIVE_BATCH_LATENESS_MILLIS {
            self.health.late_batch_count = self.health.late_batch_count.saturating_add(1);
            self.invalidate_active();
            match self.advance_expected(batch) {
                Ok(()) => {},
                Err(e) => {
                    return Err(e);
                },
            }
            return Err(ReceiveTimelineError::LateData { millis: lateness });
        }
        match self.validate_position(batch) {
            Ok(()) => {},
            Err(error) => {
                self.invalidate_active();
                if let ReceiveTimelineError::Gap { .. } = error {
                    match self.advance_expected(batch) {
                        Ok(()) => {},
                        Err(e) => {
                            return Err(e);
                        },
                    }
                }
                return Err(error);
            },
        }
        if let Some(discontinuity) = batch.discontinuity {
            let initial_restart = self.expected_position.is_none()
                && discontinuity.kind == CaptureDiscontinuityKind::StreamRestart;
            if !initial_restart {
                self.invalidate_active();
                match self.advance_expected(batch) {
                    Ok(()) => {},
                    Err(e) => {
                        return Err(e);
                    },
                }
                return Err(ReceiveTimelineError::Discontinuity(discontinuity.kind));
            }
        }
        match self.anchor {
            Some(anchor) => {
                match self.validate_mapping(anchor, batch) {
                    Ok(()) => {},
                    Err(error) => {
                        self.invalidate_active();
                        match self.advance_expected(batch) {
                            Ok(()) => {},
                            Err(e) => {
                                return Err(e);
                            },
                        }
                        return Err(error);
                    },
                }
            },
            None => {
                self.anchor = Some(first);
            },
        }
        let ghost checked = self@;
        proof {
            use_type_invariant(&*self);
        }
        let mut taken: Option<RationalResampler> = None;
        std::mem::swap(&mut taken, &mut self.resampler);
        let mut resampler = match taken {
            Some(r) => r,
            None => RationalResampler::new(
                first,
                self.configuration.sample_rate_hz(),
                self.process_generation,
                self.stream_generation,
            ),
        };
        proof {
            if self.anchor != Some(resampler.anchor) || batch.spec_samples().len() > u32::MAX {
                resampler.tracking@ = false;
            }
            let anchor_spec = match old(self)@.anchor { Some(a) => a, None => first };
            let rate_spec = old(self)@.configuration@.0 as int;
            let from = output_count(old(self).spec_source().len() as int, rate_spec);
            let to = output_count((old(self).spec_source() + batch.spec_samples()).len() as int, rate_spec);
            if old(self).spec_exact() && batch.spec_samples().len() <= MAX_CAPTURE_BATCH_FRAMES && batch_end(*batch) is Some
                && slots_representable(anchor_spec, rate_spec, from, to) {
                assert(resampler.anchor == anchor_spec);
                assert(resampler.source@ == old(self).spec_source());
                assert(resampler.source_rate_hz == rate_spec);
                assert(resampler.tracking@);
                assert(batch.spec_first_frame().position@ == resampler.anchor.position@ + resampler.source@.len());
            }
        }
        let pushed = resampler.push(batch);
        let events = match pushed {
            Ok(events) => events,
            Err(e) => {
                self.resampler = Some(resampler);
                return Err(e);
            },
        };
        let mut incomplete: u64 = 0;
        let mut index: usize = 0;
        while index < events.len()
            invariant
                index <= events@.len(),
                incomplete == count_incomplete(events@.subrange(0, index as int)),
                incomplete <= index,
            decreases events@.len() - index,
        {
            proof {
                assert(events@.subrange(0, index as int + 1).drop_last() == events@.subrange(0, index as int));
            }
            if let ReceiveTimelineEvent::Incomplete(_) = &events[index] {
                incomplete = incomplete + 1;
            }
            index = index + 1;
        }
        proof {
            assert(events@.subrange(0, events@.len() as int) == events@);
        }
        self.health.incomplete_slot_count = self.health.incomplete_slot_count.saturating_add(incomplete);
        match self.advance_expected(batch) {
            Ok(()) => {},
            Err(e) => {
                proof {
                    resampler.tracking@ = false;
                }
                self.resampler = Some(resampler);
                return Err(e);
            },
        }
        self.resampler = Some(resampler);
        Ok(events)
    }

    fn validate_identity(&self, batch: &CaptureBatch) -> (res: Result<(), ReceiveTimelineError>)
        ensures
            match identity_error(self@, *batch) {
                Some(e) => res == Err::<(), ReceiveTimelineError>(e),
                None => res is Ok,
            },
    {
        if batch.process_generation != self.process_generation {
            return Err(ReceiveTimelineError::ProcessGenerationChanged);
        }
        if batch.stream_generation != self.stream_generation {
            return Err(ReceiveTimelineError::StreamGenerationChanged);
        }
        if batch.configuration != self.configuration {
            return Err(ReceiveTimelineError::ConfigurationChanged);
        }
        Ok(())
    }

    fn validate_position(&self, batch: &CaptureBatch) -> (res: Result<(), ReceiveTimelineError>)
        ensures
            match position_error(self@, *batch) {
                Some(e) => res == Err::<(), ReceiveTimelineError>(e),
                None => res is Ok,
            },
    {
        let expected = match self.expected_position {
            Some(p) => p.frames(),
            None => {
                return Ok(());
            },
        };
        let actual = batch.first_frame.position.frames();
        if actual == expected {
            return Ok(());
        }
        if actual < expected {
            let out_of_order = match self.last_batch_position {
                Some(previous) => actual < previous.frames(),
                None => false,
            };
            if out_of_order {
                return Err(ReceiveTimelineError::OutOfOrder);
            }
            return Err(ReceiveTimelineError::Overlap { frames: expected - actual });
        }
        Err(ReceiveTimelineError::Gap { frames: actual - expected })
    }

    fn validate_mapping(&mut self, anchor: CaptureTimeEvidence, batch: &CaptureBatch) -> (res: Result<(), ReceiveTimelineError>)
        ensures
            ({
                let (outcome, health) = mapping_outcome(anchor, old(self)@.last_monotonic_millis, old(self)@.configuration@.0,
                    batch.spec_first_frame(), old(self)@.health);
                &&& final(self)@ == TimelineView { health, ..old(self)@ }
                &&& final(self).resampler == old(self).resampler
                &&& final(self).anchor == old(self).anchor
                &&& final(self).expected_position == old(self).expected_position
                &&& match outcome {
                    Some(e) => res == Err::<(), ReceiveTimelineError>(e),
                    None => res is Ok,
                }
            }),
    {
        proof {
            use_type_invariant(&*self);
        }
        let first = batch.first_frame;
        let regressed = match self.last_monotonic_millis {
            Some(previous) => first.monotonic_millis < previous,
            None => false,
        };
        if regressed || first.monotonic_millis < anchor.monotonic_millis {
            return Err(ReceiveTimelineError::MonotonicRegression);
        }
        let frame_delta = match first.position.frames().checked_sub(anchor.position.frames()) {
            Some(d) => d,
            None => {
                return Err(ReceiveTimelineError::OutOfOrder);
            },
        };
        let scaled = match frame_delta.checked_mul(1_000) {
            Some(v) => v,
            None => {
                return Err(ReceiveTimelineError::ArithmeticOverflow);
            },
        };
        let rate = self.configuration.sample_rate_hz();
        let expected_millis: u64 = scaled / rate as u64;
        let observed_millis: u64 = first.monotonic_millis - anchor.monotonic_millis;
        let jitter_wide: i128 = observed_millis as i128 - expected_millis as i128;
        if jitter_wide < i64::MIN as i128 || jitter_wide > i64::MAX as i128 {
            return Err(ReceiveTimelineError::ArithmeticOverflow);
        }
        let jitter: i64 = jitter_wide as i64;
        let jitter_abs: u64 = if jitter >= 0 { jitter as u64 } else { ((-(jitter + 1)) as u64) + 1 };
        let seen: u32 = if jitter_abs > u32::MAX as u64 { u32::MAX } else { jitter_abs as u32 };
        if seen > self.health.max_jitter_millis {
            self.health.max_jitter_millis = seen;
        }
        if jitter_abs > MAX_RECEIVE_JITTER_MILLIS as u64 {
            return Err(ReceiveTimelineError::ExcessiveJitter { millis: jitter });
        }
        let anchor_offset: i128 = anchor.utc_unix_millis as i128 - anchor.monotonic_millis as i128;
        let current_offset: i128 = first.utc_unix_millis as i128 - first.monotonic_millis as i128;
        let remap_wide: i128 = current_offset - anchor_offset;
        if remap_wide < i64::MIN as i128 || remap_wide > i64::MAX as i128 {
            return Err(ReceiveTimelineError::ArithmeticOverflow);
        }
        let remap: i64 = remap_wide as i64;
        let remap_abs: u64 = if remap >= 0 { remap as u64 } else { ((-(remap + 1)) as u64) + 1 };
        if remap_abs > MAX_RECEIVE_CLOCK_REMAP_MILLIS as u64 {
            return Err(ReceiveTimelineError::ClockRemapped { millis: remap });
        }
        if expected_millis >= 1_000 {
            let error_scaled: i128 = jitter_wide * 1_000_000;
            let ppm_wide: i128 = match error_scaled.checked_div(expected_millis as i128) {
                Some(v) => v,
                None => {
                    return Err(ReceiveTimelineError::ArithmeticOverflow);
                },
            };
            proof {
                assert(magnitude(ppm_wide as int) <= 50_000) by (nonlinear_arith)
                    requires
                        magnitude(jitter_wide as int) <= 50,
                        expected_millis >= 1000,
                        error_scaled == jitter_wide * 1_000_000,
                        ppm_wide == trunc_div(error_scaled as int, expected_millis as int),
                {
                    if error_scaled >= 0 {
                        vstd::arithmetic::div_mod::lemma_div_is_ordered_by_denominator(error_scaled as int, 1000, expected_millis as int);
                        vstd::arithmetic::div_mod::lemma_div_is_ordered(error_scaled as int, 50_000_000, 1000);
                    } else {
                        vstd::arithmetic::div_mod::lemma_div_is_ordered_by_denominator(-error_scaled as int, 1000, expected_millis as int);
                        vstd::arithmetic::div_mod::lemma_div_is_ordered(-error_scaled as int, 50_000_000, 1000);
                    }
                }
            }
            let ppm: i32 = ppm_wide as i32;
            self.health.drift_parts_per_million = ppm;
            let ppm_abs: u32 = if ppm >= 0 { ppm as u32 } else { (-ppm) as u32 };
            if ppm_abs > MAX_RECEIVE_DRIFT_PARTS_PER_MILLION as u32 {
                return Err(ReceiveTimelineError::ExcessiveDrift { parts_per_million: ppm });
            }
        }
        Ok(())
    }

    fn advance_expected(&mut self, batch: &CaptureBatch) -> (res: Result<(), ReceiveTimelineError>)
        requires
            old(self).resampler is None,
        ensures
            final(self).resampler is None,
            final(self).anchor == old(self).anchor,
            final(self)@ == advanced(old(self)@, *batch).0,
            res is Ok <==> advanced(old(self)@, *batch).1,
            res matches Err(e) ==> e is ArithmeticOverflow,
    {
        proof {
            use_type_invariant(&*self);
        }
        self.last_batch_position = Some(batch.first_frame.position);
        self.last_monotonic_millis = Some(batch.first_frame.monotonic_millis);
        match batch.end_position() {
            Ok(end) => {
                self.expected_position = Some(end);
                Ok(())
            },
            Err(_) => Err(ReceiveTimelineError::ArithmeticOverflow),
        }
    }

    fn invalidate_active(&mut self)
        ensures
            final(self)@ == invalidated(old(self)@),
            final(self).resampler is None,
            final(self).anchor is None,
    {
        proof {
            use_type_invariant(&*self);
        }
        let mut taken: Option<RationalResampler> = None;
        std::mem::swap(&mut taken, &mut self.resampler);
        let discarded = match taken {
            Some(mut resampler) => resampler.discard_active().is_some(),
            None => false,
        };
        if discarded {
            self.health.incomplete_slot_count = self.health.incomplete_slot_count.saturating_add(1);
        }
        self.anchor = None;
        self.resampler = None;
    }
}

} // verus!
