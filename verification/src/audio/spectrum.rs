//! Bounded receive-only spectrum and waterfall model.
//!
//! The integer model here owns sequencing, capacity, timing, bin geometry, and
//! publication coalescing. The windowed transform and its magnitudes come from
//! a `SpectrumAnalyzer` supplied by the caller.
use vstd::prelude::*;
use crate::audio::{FT8_RECEIVE_SAMPLE_RATE_HZ, FT8_RECEIVE_WINDOW_SAMPLES, Ft8ReceiveWindow, ProcessGeneration, StreamGeneration};
use crate::audio::timeline::Ft8ReceiveSlot;

verus! {

/// Smallest supported FFT length.
pub const MIN_SPECTRUM_FFT_SIZE: usize = 256;
/// Largest supported FFT length.
pub const MAX_SPECTRUM_FFT_SIZE: usize = 4_096;
/// Default FFT length.
pub const DEFAULT_SPECTRUM_FFT_SIZE: usize = 1_024;
/// Default 50 percent overlap in canonical samples.
pub const DEFAULT_SPECTRUM_OVERLAP_SAMPLES: usize = 512;
/// Default upper passband edge.
pub const DEFAULT_SPECTRUM_MAX_FREQUENCY_HZ: u32 = 5_000;
/// Default retained waterfall capacity.
pub const DEFAULT_WATERFALL_ROWS: usize = 60;
/// Maximum retained waterfall capacity.
pub const MAX_WATERFALL_ROWS: usize = 120;
/// Maximum number of positive-frequency bins in one row.
pub const MAX_SPECTRUM_BINS: usize = 2_049;
/// Maximum canonical samples accepted by one worker-side push.
pub const MAX_SPECTRUM_CHUNK_SAMPLES: usize = 4_096;
/// Maximum FFT rows computed by one worker-side push.
pub const MAX_SPECTRUM_ROWS_PER_PUSH: usize = 64;
/// Default minimum interval between publication tokens.
pub const DEFAULT_SPECTRUM_PUBLICATION_MILLIS: u32 = 250;
/// Shortest publication cadence.
pub const MIN_PUBLICATION_MILLIS: u32 = 50;
/// Longest publication cadence.
pub const MAX_PUBLICATION_MILLIS: u32 = 2_000;
/// Conservative allocation bound of one model.
pub const MAX_MODEL_BYTES: usize = 2_097_152;
/// Magnitude reported for silent bins, in milli-dBFS.
pub const MAGNITUDE_FLOOR_MILLIDECIBELS: i32 = -120_000;

/// Checked model construction or processing failure.
#[derive(Debug, Clone, Copy, PartialEq, Eq, Structural)]
pub enum SpectrumModelError {
    /// FFT length is outside the supported power-of-two range.
    InvalidFftSize,
    /// Overlap is not less than the FFT or exceeds 75 percent.
    InvalidOverlap,
    /// Passband is empty or exceeds the canonical Nyquist frequency.
    InvalidPassband,
    /// Retained row capacity is zero or too large.
    InvalidRowCapacity,
    /// Publication cadence is outside the bounded range.
    InvalidPublicationCadence,
    /// Configuration would exceed the per-push FFT work bound.
    CpuBoundExceeded,
    /// Configuration would exceed the conservative allocation bound.
    MemoryBoundExceeded,
    /// The transform requested more scratch than the adapter permits.
    DependencyScratchExceeded,
    /// A worker-side chunk contained no samples.
    EmptyChunk,
    /// A worker-side chunk exceeded the fixed sample bound.
    ChunkTooLarge,
    /// A worker-side chunk extended outside its declared slot.
    ChunkOutsideSlot,
    /// Checked time, size, or sequence arithmetic overflowed.
    ArithmeticOverflow,
}

/// Window applied before each FFT.
#[derive(Debug, Clone, Copy, PartialEq, Eq, Hash, Structural)]
pub enum SpectrumWindow {
    /// Periodic Hann window, `0.5 - 0.5 cos(2πn/N)`.
    Hann,
}

/// Exact center frequency of one spectrum bin.
#[derive(Debug, Clone, Copy, PartialEq, Eq, Hash, PartialOrd, Ord, Structural)]
pub struct SpectrumFrequency(u32);

impl View for SpectrumFrequency {
    type V = u32;

    closed spec fn view(&self) -> u32 {
        self.0
    }
}

impl SpectrumFrequency {
    /// Returns center frequency in integer millihertz.
    pub fn millihertz(self) -> (res: u32)
        ensures
            res == self@,
    {
        self.0
    }
}

/// Full-scale-relative magnitude with a documented -120 dBFS floor.
#[derive(Debug, Clone, Copy, PartialEq, Eq, Hash, PartialOrd, Ord, Structural)]
pub struct SpectrumMagnitude(i32);

impl View for SpectrumMagnitude {
    type V = i32;

    closed spec fn view(&self) -> i32 {
        self.0
    }
}

impl SpectrumMagnitude {
    /// Returns magnitude in integer millidecibels relative to full scale.
    pub fn millidecibels_full_scale(self) -> (res: i32)
        ensures
            res == self@,
    {
        self.0
    }
}

/// One owned positive-frequency spectrum bin.
#[derive(Debug, Clone, Copy, PartialEq, Eq, Structural)]
pub struct SpectrumBin {
    /// Zero-based FFT bin index.
    pub index: u16,
    /// Exact rounded bin-center frequency.
    pub frequency: SpectrumFrequency,
    /// Coherent-gain-corrected peak magnitude.
    pub magnitude: SpectrumMagnitude,
}

/// Reset evidence attached to the first row after invalidation.
#[derive(Debug, Clone, Copy, PartialEq, Eq, Hash, Structural)]
pub enum SpectrumDiscontinuity {
    /// Daemon process generation changed.
    ProcessGenerationChanged,
    /// Input stream/device generation changed.
    StreamGenerationChanged,
    /// Canonical sample position was non-contiguous.
    TimelineDiscontinuity,
    /// Independent clock health became unusable.
    ClockHealthLost,
}

/// The powers of two from 256 to 4,096.
pub open spec fn valid_fft_size(n: int) -> bool {
    n == 256 || n == 512 || n == 1_024 || n == 2_048 || n == 4_096
}

/// Ceiling of `a / b` for positive `b`.
pub open spec fn div_ceil(a: int, b: int) -> int {
    (a + b - 1) / b
}

/// The derived geometry of a checked policy: first bin, last bin, and the
/// conservative allocation estimate.
pub open spec fn spectrum_config_outcome(
    fft: usize,
    overlap: usize,
    min_hz: u32,
    max_hz: u32,
    rows: usize,
    publication: u32,
) -> Result<(int, int, int), SpectrumModelError> {
    let first = div_ceil(min_hz * fft, FT8_RECEIVE_SAMPLE_RATE_HZ as int);
    let last = (max_hz * fft) / (FT8_RECEIVE_SAMPLE_RATE_HZ as int);
    let bins = last - first + 1;
    let hop = fft - overlap;
    let estimate = rows * (bins * 16 + 128) + fft * 64;
    if !valid_fft_size(fft as int) {
        Err(SpectrumModelError::InvalidFftSize)
    } else if overlap >= fft || overlap > fft * 3 / 4 {
        Err(SpectrumModelError::InvalidOverlap)
    } else if min_hz >= max_hz || max_hz > FT8_RECEIVE_SAMPLE_RATE_HZ / 2 {
        Err(SpectrumModelError::InvalidPassband)
    } else if !(1 <= rows <= MAX_WATERFALL_ROWS) {
        Err(SpectrumModelError::InvalidRowCapacity)
    } else if !(MIN_PUBLICATION_MILLIS <= publication <= MAX_PUBLICATION_MILLIS) {
        Err(SpectrumModelError::InvalidPublicationCadence)
    } else if last < first || bins > MAX_SPECTRUM_BINS {
        Err(SpectrumModelError::InvalidPassband)
    } else if div_ceil(MAX_SPECTRUM_CHUNK_SAMPLES as int, hop) > MAX_SPECTRUM_ROWS_PER_PUSH {
        Err(SpectrumModelError::CpuBoundExceeded)
    } else if estimate > MAX_MODEL_BYTES {
        Err(SpectrumModelError::MemoryBoundExceeded)
    } else {
        Ok((first, last, estimate))
    }
}

/// Checked bounded spectrum/waterfall policy.
#[derive(Debug, Clone, Copy, PartialEq, Eq, Structural)]
pub struct SpectrumConfig {
    fft_size: usize,
    overlap_samples: usize,
    first_bin: usize,
    last_bin: usize,
    waterfall_rows: usize,
    publication_millis: u32,
    estimated_model_bytes: usize,
}

/// Abstract policy: FFT size, overlap, first and last bin, row capacity,
/// publication cadence, and allocation estimate.
pub struct SpectrumConfigView {
    pub fft_size: usize,
    pub overlap_samples: usize,
    pub first_bin: usize,
    pub last_bin: usize,
    pub waterfall_rows: usize,
    pub publication_millis: u32,
    pub estimated_model_bytes: usize,
}

impl View for SpectrumConfig {
    type V = SpectrumConfigView;

    closed spec fn view(&self) -> SpectrumConfigView {
        SpectrumConfigView {
            fft_size: self.fft_size,
            overlap_samples: self.overlap_samples,
            first_bin: self.first_bin,
            last_bin: self.last_bin,
            waterfall_rows: self.waterfall_rows,
            publication_millis: self.publication_millis,
            estimated_model_bytes: self.estimated_model_bytes,
        }
    }
}

/// Whether a policy view is one that `SpectrumConfig::new` accepts.
pub open spec fn config_wf(c: SpectrumConfigView) -> bool {
    &&& valid_fft_size(c.fft_size as int)
    &&& c.overlap_samples < c.fft_size
    &&& c.overlap_samples <= c.fft_size * 3 / 4
    &&& c.first_bin <= c.last_bin < c.fft_size
    &&& c.last_bin - c.first_bin + 1 <= MAX_SPECTRUM_BINS
    &&& 1 <= c.waterfall_rows <= MAX_WATERFALL_ROWS
    &&& MIN_PUBLICATION_MILLIS <= c.publication_millis <= MAX_PUBLICATION_MILLIS
    &&& div_ceil(MAX_SPECTRUM_CHUNK_SAMPLES as int, c.fft_size - c.overlap_samples) <= MAX_SPECTRUM_ROWS_PER_PUSH
}

impl SpectrumConfig {
    #[verifier::type_invariant]
    spec fn inv(self) -> bool {
        config_wf(self@)
    }

    /// Every policy value is one the constructor accepts.
    pub fn lemma_wf(self)
        ensures
            config_wf(self@),
    {
        proof {
            use_type_invariant(&self);
        }
    }

    /// Constructs a checked receive spectrum policy.
    pub fn new(
        fft_size: usize,
        overlap_samples: usize,
        min_frequency_hz: u32,
        max_frequency_hz: u32,
        waterfall_rows: usize,
        publication_millis: u32,
    ) -> (res: Result<Self, SpectrumModelError>)
        ensures
            match spectrum_config_outcome(fft_size, overlap_samples, min_frequency_hz, max_frequency_hz, waterfall_rows, publication_millis) {
                Ok((first, last, estimate)) => res matches Ok(c) && c@.fft_size == fft_size && c@.overlap_samples == overlap_samples
                    && c@.first_bin == first && c@.last_bin == last && c@.waterfall_rows == waterfall_rows
                    && c@.publication_millis == publication_millis && c@.estimated_model_bytes == estimate,
                Err(e) => res == Err::<SpectrumConfig, SpectrumModelError>(e),
            },
    {
        if !(fft_size == 256 || fft_size == 512 || fft_size == 1_024 || fft_size == 2_048 || fft_size == 4_096) {
            return Err(SpectrumModelError::InvalidFftSize);
        }
        if overlap_samples >= fft_size || overlap_samples > fft_size * 3 / 4 {
            return Err(SpectrumModelError::InvalidOverlap);
        }
        if min_frequency_hz >= max_frequency_hz || max_frequency_hz > FT8_RECEIVE_SAMPLE_RATE_HZ / 2 {
            return Err(SpectrumModelError::InvalidPassband);
        }
        if waterfall_rows < 1 || waterfall_rows > MAX_WATERFALL_ROWS {
            return Err(SpectrumModelError::InvalidRowCapacity);
        }
        if publication_millis < MIN_PUBLICATION_MILLIS || publication_millis > MAX_PUBLICATION_MILLIS {
            return Err(SpectrumModelError::InvalidPublicationCadence);
        }
        assert(min_frequency_hz * fft_size <= 6_000 * 4_096 && max_frequency_hz * fft_size <= 6_000 * 4_096) by (nonlinear_arith)
            requires
                min_frequency_hz < max_frequency_hz <= 6_000,
                fft_size <= 4_096,
        ;
        let rate = FT8_RECEIVE_SAMPLE_RATE_HZ as usize;
        let first_bin: usize = (min_frequency_hz as usize * fft_size + rate - 1) / rate;
        let last_bin: usize = max_frequency_hz as usize * fft_size / rate;
        if last_bin < first_bin {
            return Err(SpectrumModelError::InvalidPassband);
        }
        let bin_count = last_bin - first_bin + 1;
        if bin_count > MAX_SPECTRUM_BINS {
            return Err(SpectrumModelError::InvalidPassband);
        }
        let hop = fft_size - overlap_samples;
        if (MAX_SPECTRUM_CHUNK_SAMPLES + hop - 1) / hop > MAX_SPECTRUM_ROWS_PER_PUSH {
            return Err(SpectrumModelError::CpuBoundExceeded);
        }
        assert(waterfall_rows * (bin_count * 16 + 128) <= 120 * (2_049 * 16 + 128)) by (nonlinear_arith)
            requires
                waterfall_rows <= 120,
                bin_count <= 2_049,
        ;
        let estimated_model_bytes = waterfall_rows * (bin_count * 16 + 128) + fft_size * 64;
        if estimated_model_bytes > MAX_MODEL_BYTES {
            return Err(SpectrumModelError::MemoryBoundExceeded);
        }
        assert(last_bin < fft_size) by (nonlinear_arith)
            requires
                last_bin == max_frequency_hz * fft_size / 12_000,
                max_frequency_hz <= 6_000,
                fft_size >= 256,
        ;
        Ok(SpectrumConfig {
            fft_size,
            overlap_samples,
            first_bin,
            last_bin,
            waterfall_rows,
            publication_millis,
            estimated_model_bytes,
        })
    }

    /// Returns the FFT length in canonical samples.
    pub fn fft_size(self) -> (res: usize)
        ensures
            res == self@.fft_size,
    {
        self.fft_size
    }

    /// Returns overlap between adjacent rows in canonical samples.
    pub fn overlap_samples(self) -> (res: usize)
        ensures
            res == self@.overlap_samples,
    {
        self.overlap_samples
    }

    /// Returns the row-to-row hop in canonical samples.
    pub fn hop_samples(self) -> (res: usize)
        ensures
            res == self@.fft_size - self@.overlap_samples,
            res > 0,
    {
        proof {
            use_type_invariant(&self);
        }
        self.fft_size - self.overlap_samples
    }

    /// Returns the number of retained positive-frequency bins.
    pub fn bin_count(self) -> (res: usize)
        ensures
            res == self@.last_bin - self@.first_bin + 1,
    {
        proof {
            use_type_invariant(&self);
        }
        self.last_bin - self.first_bin + 1
    }

    /// Returns retained waterfall capacity.
    pub fn waterfall_rows(self) -> (res: usize)
        ensures
            res == self@.waterfall_rows,
    {
        self.waterfall_rows
    }

    /// Returns minimum publication-token cadence in milliseconds.
    pub fn publication_millis(self) -> (res: u32)
        ensures
            res == self@.publication_millis,
    {
        self.publication_millis
    }

    /// Returns the conservative checked allocation estimate.
    pub fn estimated_model_bytes(self) -> (res: usize)
        ensures
            res == self@.estimated_model_bytes,
    {
        self.estimated_model_bytes
    }
}

impl Default for SpectrumConfig {
    fn default() -> (res: Self)
        ensures
            res@.fft_size == DEFAULT_SPECTRUM_FFT_SIZE,
            res@.overlap_samples == DEFAULT_SPECTRUM_OVERLAP_SAMPLES,
            res@.first_bin == 0,
            res@.last_bin == 426,
            res@.waterfall_rows == DEFAULT_WATERFALL_ROWS,
            res@.publication_millis == DEFAULT_SPECTRUM_PUBLICATION_MILLIS,
    {
        match SpectrumConfig::new(
            DEFAULT_SPECTRUM_FFT_SIZE,
            DEFAULT_SPECTRUM_OVERLAP_SAMPLES,
            0,
            DEFAULT_SPECTRUM_MAX_FREQUENCY_HZ,
            DEFAULT_WATERFALL_ROWS,
            DEFAULT_SPECTRUM_PUBLICATION_MILLIS,
        ) {
            Ok(c) => c,
            Err(_) => SpectrumConfig {
                fft_size: DEFAULT_SPECTRUM_FFT_SIZE,
                overlap_samples: DEFAULT_SPECTRUM_OVERLAP_SAMPLES,
                first_bin: 0,
                last_bin: 426,
                waterfall_rows: DEFAULT_WATERFALL_ROWS,
                publication_millis: DEFAULT_SPECTRUM_PUBLICATION_MILLIS,
                estimated_model_bytes: 483_136,
            },
        }
    }
}

/// The outcome of checking a chunk's size and extent within its slot.
pub open spec fn chunk_check(start_offset: u32, len: nat) -> Result<(), SpectrumModelError> {
    if len == 0 {
        Err(SpectrumModelError::EmptyChunk)
    } else if len > MAX_SPECTRUM_CHUNK_SAMPLES {
        Err(SpectrumModelError::ChunkTooLarge)
    } else if start_offset + len > usize::MAX {
        Err(SpectrumModelError::ArithmeticOverflow)
    } else if start_offset + len > FT8_RECEIVE_WINDOW_SAMPLES {
        Err(SpectrumModelError::ChunkOutsideSlot)
    } else {
        Ok(())
    }
}

/// One bounded owned canonical sample chunk for visualization.
#[derive(Debug, PartialEq, Eq)]
pub struct CanonicalSpectrumChunk {
    /// Daemon-process generation.
    pub process_generation: ProcessGeneration,
    /// Input-stream/device generation.
    pub stream_generation: StreamGeneration,
    /// Exact FT8 slot containing every sample.
    pub slot: Ft8ReceiveSlot,
    /// Zero-based canonical sample offset within the slot.
    pub start_sample_offset: u32,
    /// Explicit upstream invalidation, if present.
    pub discontinuity: Option<SpectrumDiscontinuity>,
    samples: Vec<i16>,
}

impl Clone for CanonicalSpectrumChunk {
    fn clone(&self) -> (c: Self)
        ensures
            c.spec_process() == self.spec_process(),
            c.spec_stream() == self.spec_stream(),
            c.spec_slot() == self.spec_slot(),
            c.spec_start() == self.spec_start(),
            c.spec_discontinuity() == self.spec_discontinuity(),
            c.spec_samples() == self.spec_samples(),
    {
        proof {
            use_type_invariant(self);
        }
        CanonicalSpectrumChunk {
            process_generation: self.process_generation,
            stream_generation: self.stream_generation,
            slot: self.slot,
            start_sample_offset: self.start_sample_offset,
            discontinuity: self.discontinuity,
            samples: self.samples.clone(),
        }
    }
}

impl CanonicalSpectrumChunk {
    #[verifier::type_invariant]
    spec fn inv(self) -> bool {
        chunk_check(self.start_sample_offset, self.samples@.len()) == Ok::<(), SpectrumModelError>(())
    }

    /// The canonical samples of the chunk.
    pub closed spec fn spec_samples(&self) -> Seq<i16> {
        self.samples@
    }

    /// The process generation of the chunk.
    pub closed spec fn spec_process(&self) -> ProcessGeneration {
        self.process_generation
    }

    /// The stream generation of the chunk.
    pub closed spec fn spec_stream(&self) -> StreamGeneration {
        self.stream_generation
    }

    /// The slot of the chunk.
    pub closed spec fn spec_slot(&self) -> Ft8ReceiveSlot {
        self.slot
    }

    /// The offset of the chunk's first sample within its slot.
    pub closed spec fn spec_start(&self) -> u32 {
        self.start_sample_offset
    }

    /// The discontinuity carried by the chunk.
    pub closed spec fn spec_discontinuity(&self) -> Option<SpectrumDiscontinuity> {
        self.discontinuity
    }

    /// Constructs one bounded 12 kHz mono worker-side chunk.
    pub fn new(
        process_generation: ProcessGeneration,
        stream_generation: StreamGeneration,
        slot: Ft8ReceiveSlot,
        start_sample_offset: u32,
        discontinuity: Option<SpectrumDiscontinuity>,
        samples: Vec<i16>,
    ) -> (res: Result<Self, SpectrumModelError>)
        ensures
            match res {
                Ok(c) => chunk_check(start_sample_offset, samples@.len()) == Ok::<(), SpectrumModelError>(())
                    && c.spec_process() == process_generation && c.spec_stream() == stream_generation
                    && c.spec_slot() == slot && c.spec_start() == start_sample_offset && c.spec_discontinuity() == discontinuity
                    && c.spec_samples() == samples@,
                Err(e) => chunk_check(start_sample_offset, samples@.len()) == Err::<(), SpectrumModelError>(e),
            },
    {
        if samples.len() == 0 {
            return Err(SpectrumModelError::EmptyChunk);
        }
        if samples.len() > MAX_SPECTRUM_CHUNK_SAMPLES {
            return Err(SpectrumModelError::ChunkTooLarge);
        }
        let end = match (start_sample_offset as usize).checked_add(samples.len()) {
            Some(e) => e,
            None => {
                return Err(SpectrumModelError::ArithmeticOverflow);
            },
        };
        if end > FT8_RECEIVE_WINDOW_SAMPLES {
            return Err(SpectrumModelError::ChunkOutsideSlot);
        }
        Ok(CanonicalSpectrumChunk { process_generation, stream_generation, slot, start_sample_offset, discontinuity, samples })
    }

    /// Copies a bounded range from one owned canonical FT8 window.
    pub fn from_window(
        window: &Ft8ReceiveWindow,
        start_sample_offset: u32,
        sample_count: u32,
        discontinuity: Option<SpectrumDiscontinuity>,
    ) -> (res: Result<Self, SpectrumModelError>)
        ensures
            ({
                let end = start_sample_offset + sample_count;
                if end > window.spec_samples().len() {
                    res == Err::<CanonicalSpectrumChunk, SpectrumModelError>(SpectrumModelError::ChunkOutsideSlot)
                } else {
                    match chunk_check(start_sample_offset, sample_count as nat) {
                        Ok(_) => res matches Ok(c) && c.spec_process() == window.spec_process()
                            && c.spec_stream() == window.spec_stream() && c.spec_slot()@ == window.spec_slot_start()
                            && c.spec_start() == start_sample_offset && c.spec_discontinuity() == discontinuity
                            && c.spec_samples() == window.spec_samples().subrange(start_sample_offset as int, end),
                        Err(e) => res == Err::<CanonicalSpectrumChunk, SpectrumModelError>(e),
                    }
                }
            }),
    {
        let source = window.samples();
        let start = start_sample_offset as usize;
        let count = sample_count as usize;
        if count > source.len() || start > source.len() - count {
            return Err(SpectrumModelError::ChunkOutsideSlot);
        }
        let end = start + count;
        let mut samples: Vec<i16> = Vec::new();
        let mut i: usize = start;
        while i < end
            invariant
                start <= i <= end <= source@.len(),
                samples@ == source@.subrange(start as int, i as int),
            decreases end - i,
        {
            samples.push(source[i]);
            i = i + 1;
            assert(samples@ =~= source@.subrange(start as int, i as int));
        }
        CanonicalSpectrumChunk::new(
            window.process_generation,
            window.stream_generation,
            window.slot(),
            start_sample_offset,
            discontinuity,
            samples,
        )
    }

    /// Returns canonical mono signed-16-bit samples.
    pub fn samples(&self) -> (res: &[i16])
        ensures
            res@ == self.spec_samples(),
            chunk_check(self.spec_start(), res@.len()) == Ok::<(), SpectrumModelError>(()),
    {
        proof {
            use_type_invariant(self);
        }
        self.samples.as_slice()
    }
}

/// Center frequency of bin `index` in millihertz, rounded half up, when it fits.
pub open spec fn bin_frequency(index: int, fft_size: int) -> Option<u32> {
    let f = (index * 12_000_000 + fft_size / 2) / fft_size;
    if index * 12_000_000 + fft_size / 2 > usize::MAX || f > u32::MAX { None } else { Some(f as u32) }
}

/// Returns the rounded center frequency of one bin in millihertz.
pub fn bin_frequency_millihertz(index: usize, fft_size: usize) -> (res: Result<u32, SpectrumModelError>)
    requires
        fft_size > 0,
    ensures
        match bin_frequency(index as int, fft_size as int) {
            Some(f) => res == Ok::<u32, SpectrumModelError>(f),
            None => res == Err::<u32, SpectrumModelError>(SpectrumModelError::ArithmeticOverflow),
        },
{
    let scaled = match index.checked_mul(12_000_000) {
        Some(v) => v,
        None => {
            return Err(SpectrumModelError::ArithmeticOverflow);
        },
    };
    let numerator = match scaled.checked_add(fft_size / 2) {
        Some(v) => v,
        None => {
            return Err(SpectrumModelError::ArithmeticOverflow);
        },
    };
    let value = numerator / fft_size;
    if value > u32::MAX as usize {
        return Err(SpectrumModelError::ArithmeticOverflow);
    }
    Ok(value as u32)
}

/// UTC start in microseconds of the sample at `offset` within a slot, when it fits.
pub open spec fn row_start(slot_millis: i64, offset: u32) -> Option<i64> {
    let micros = slot_millis * 1_000 + offset * 1_000_000 / 12_000;
    if micros < i64::MIN || micros > i64::MAX { None } else { Some(micros as i64) }
}

/// Returns the exact UTC start of a row in integer microseconds.
pub fn row_start_utc_micros(slot: Ft8ReceiveSlot, sample_offset: u32) -> (res: Result<i64, SpectrumModelError>)
    ensures
        match row_start(slot@, sample_offset) {
            Some(m) => res == Ok::<i64, SpectrumModelError>(m),
            None => res == Err::<i64, SpectrumModelError>(SpectrumModelError::ArithmeticOverflow),
        },
{
    let slot_micros: i128 = slot.start_utc_unix_millis() as i128 * 1_000;
    let sample_micros: i128 = sample_offset as i128 * 1_000_000 / 12_000;
    let total: i128 = slot_micros + sample_micros;
    if total < i64::MIN as i128 || total > i64::MAX as i128 {
        return Err(SpectrumModelError::ArithmeticOverflow);
    }
    Ok(total as i64)
}


/// One deterministic bounded waterfall row.
#[derive(Debug, Clone, PartialEq, Eq)]
pub struct SpectrumRow {
    /// Monotonic model-local row sequence.
    pub sequence: u64,
    /// Daemon-process generation.
    pub process_generation: ProcessGeneration,
    /// Input-stream/device generation.
    pub stream_generation: StreamGeneration,
    /// Exact containing FT8 slot.
    pub slot: Ft8ReceiveSlot,
    /// First canonical sample represented by the FFT.
    pub start_sample_offset: u32,
    /// Exact row start in integer UTC microseconds.
    pub start_utc_unix_micros: i64,
    /// Window applied before the FFT.
    pub window: SpectrumWindow,
    /// Explicit reset evidence on the first row after invalidation.
    pub discontinuity: Option<SpectrumDiscontinuity>,
    /// Ordered owned passband bins.
    pub bins: Vec<SpectrumBin>,
}

/// Latest bounded producer status.
#[derive(Debug, Clone, Copy, PartialEq, Eq, Structural)]
pub struct SpectrumPushResult {
    /// Rows computed by this push.
    pub produced_rows: u16,
    /// Rows currently retained by the model.
    pub retained_rows: u16,
    /// Whether a consumer snapshot token is pending.
    pub publication_pending: bool,
    /// Total due publications coalesced behind a slow/absent consumer.
    pub coalesced_publications: u64,
    /// Total oldest rows evicted by the fixed-capacity model.
    pub evicted_rows: u64,
}

/// Consumer-side copy of the latest bounded waterfall state.
#[derive(Debug, Clone, PartialEq, Eq)]
pub struct WaterfallSnapshot {
    /// Configuration that produced every row.
    pub config: SpectrumConfig,
    /// Oldest-to-newest retained rows.
    pub rows: Vec<SpectrumRow>,
    /// Total due publications coalesced before this snapshot.
    pub coalesced_publications: u64,
    /// Total fixed-capacity row evictions before this snapshot.
    pub evicted_rows: u64,
}

/// Windowed transform of one canonical frame and the magnitudes of its bins.
pub trait SpectrumAnalyzer {
    /// Transforms one Hann-windowed frame of canonical samples.
    fn transform(&mut self, frame: &[i16]);

    /// Magnitude of one bin of the last transform, in milli-dBFS with the
    /// documented floor.
    fn magnitude_millidecibels(&self, bin: usize) -> i32;
}

/// Whether a row has the policy's bin geometry and exact timing.
pub open spec fn row_wf(r: SpectrumRow, c: SpectrumConfigView) -> bool {
    &&& r.bins@.len() == c.last_bin - c.first_bin + 1
    &&& forall|i: int| 0 <= i < r.bins@.len() ==> {
        &&& (#[trigger] r.bins@[i]).index == c.first_bin + i
        &&& bin_frequency(c.first_bin + i, c.fft_size as int) == Some(r.bins@[i].frequency@)
    }
    &&& row_start(r.slot@, r.start_sample_offset) == Some(r.start_utc_unix_micros)
    &&& r.window == SpectrumWindow::Hann
}

/// Whether every row of a sequence is well formed.
pub open spec fn rows_wf(rows: Seq<SpectrumRow>, c: SpectrumConfigView) -> bool {
    forall|i: int| 0 <= i < rows.len() ==> row_wf(#[trigger] rows[i], c)
}

#[derive(Debug, Clone, Copy, PartialEq, Eq, Structural)]
struct ChunkCursor {
    process_generation: ProcessGeneration,
    stream_generation: StreamGeneration,
    slot: Ft8ReceiveSlot,
    next_sample_offset: u32,
}

/// Pure worker-side bounded spectrum and waterfall producer.
///
/// `push` performs bounded worker-side work and never opens a device, blocks
/// on a client, decodes, persists, renders, schedules, controls a rig, or
/// transmits.
pub struct SpectrumModel<A> {
    config: SpectrumConfig,
    analyzer: Option<A>,
    pending_samples: Vec<i16>,
    pending_start_offset: u32,
    cursor: Option<ChunkCursor>,
    rows: Vec<SpectrumRow>,
    pending_discontinuity: Option<SpectrumDiscontinuity>,
    next_sequence: u64,
    last_publication_utc_micros: Option<i64>,
    publication_pending: bool,
    coalesced_publications: u64,
    evicted_rows: u64,
}

impl<A> SpectrumModel<A> {
    #[verifier::type_invariant]
    spec fn inv(self) -> bool {
        &&& self.rows@.len() <= self.config@.waterfall_rows
        &&& rows_wf(self.rows@, self.config@)
        &&& self.pending_samples@.len() < self.config@.fft_size
    }

    /// The checked policy of the model.
    pub closed spec fn spec_config(&self) -> SpectrumConfig {
        self.config
    }

    /// Retained rows, oldest first.
    pub closed spec fn spec_rows(&self) -> Seq<SpectrumRow> {
        self.rows@
    }

    /// Samples awaiting a complete frame.
    pub closed spec fn spec_pending(&self) -> Seq<i16> {
        self.pending_samples@
    }

    /// The generations, slot, and next expected offset of the last chunk.
    pub closed spec fn spec_cursor(&self) -> Option<(ProcessGeneration, StreamGeneration, Ft8ReceiveSlot, u32)> {
        match self.cursor {
            Some(c) => Some((c.process_generation, c.stream_generation, c.slot, c.next_sample_offset)),
            None => None,
        }
    }

    /// The reset reason to attach to the next row.
    pub closed spec fn spec_pending_discontinuity(&self) -> Option<SpectrumDiscontinuity> {
        self.pending_discontinuity
    }

    /// UTC of the last row that raised a publication token.
    pub closed spec fn spec_last_publication(&self) -> Option<i64> {
        self.last_publication_utc_micros
    }

    /// Whether a snapshot token is pending.
    pub closed spec fn spec_publication_pending(&self) -> bool {
        self.publication_pending
    }

    /// Total publications coalesced behind a slow consumer.
    pub closed spec fn spec_coalesced(&self) -> u64 {
        self.coalesced_publications
    }

    /// Total rows evicted by the fixed capacity.
    pub closed spec fn spec_evicted(&self) -> u64 {
        self.evicted_rows
    }

}

/// Rows a pending run of `n` samples yields: one per full frame, a hop apart.
pub open spec fn rows_for(n: int, fft: int, hop: int) -> nat {
    if n >= fft && hop > 0 { ((n - fft) / hop + 1) as nat } else { 0 }
}

/// Whether a chunk continues the model's pending samples and rows as they are:
/// no discontinuity, and no cursor or a cursor at exactly this chunk.
pub closed spec fn chunk_continues<A>(m: SpectrumModel<A>, c: CanonicalSpectrumChunk) -> bool {
    &&& c.discontinuity is None
    &&& match m.cursor {
        None => true,
        Some(k) => k.process_generation == c.process_generation && k.stream_generation == c.stream_generation
            && k.slot == c.slot && k.next_sample_offset == c.start_sample_offset,
    }
}

/// Whether a chunk starts the slot after a completed one, in the same generations.
pub closed spec fn chunk_rolls_over<A>(m: SpectrumModel<A>, c: CanonicalSpectrumChunk) -> bool {
    &&& c.discontinuity is None
    &&& m.cursor matches Some(k) && k.process_generation == c.process_generation
        && k.stream_generation == c.stream_generation
        && !(k.slot == c.slot && k.next_sample_offset == c.start_sample_offset)
        && k.slot@ + crate::audio::FT8_RECEIVE_SLOT_MILLIS <= i64::MAX
        && k.next_sample_offset == FT8_RECEIVE_WINDOW_SAMPLES && c.start_sample_offset == 0
        && c.slot@ == k.slot@ + crate::audio::FT8_RECEIVE_SLOT_MILLIS
}

/// Whether checking a chunk against the cursor overflows the next slot's start.
pub closed spec fn chunk_check_overflows<A>(m: SpectrumModel<A>, c: CanonicalSpectrumChunk) -> bool {
    &&& c.discontinuity is None
    &&& m.cursor matches Some(k) && k.process_generation == c.process_generation
        && k.stream_generation == c.stream_generation
        && !(k.slot == c.slot && k.next_sample_offset == c.start_sample_offset)
        && k.slot@ + crate::audio::FT8_RECEIVE_SLOT_MILLIS > i64::MAX
}

/// Pending samples kept before a chunk's samples are appended; every other
/// case starts a fresh frame.
pub closed spec fn kept_pending<A>(m: SpectrumModel<A>, c: CanonicalSpectrumChunk) -> nat {
    if chunk_continues(m, c) { m.pending_samples@.len() } else { 0 }
}

/// Retained rows kept before the chunk's rows are added: a continuation or a
/// slot rollover keeps them, every reset clears them.
pub closed spec fn kept_rows<A>(m: SpectrumModel<A>, c: CanonicalSpectrumChunk) -> nat {
    if chunk_continues(m, c) || chunk_rolls_over(m, c) { m.rows@.len() } else { 0 }
}

/// Sample offset of the first frame this chunk completes.
pub closed spec fn first_row_offset<A>(m: SpectrumModel<A>, c: CanonicalSpectrumChunk) -> int {
    if kept_pending(m, c) > 0 { m.pending_start_offset as int } else { c.start_sample_offset as int }
}

/// Number of rows a chunk completes.
pub closed spec fn chunk_rows<A>(m: SpectrumModel<A>, c: CanonicalSpectrumChunk) -> nat {
    rows_for((kept_pending(m, c) + c.samples@.len()) as int, m.config@.fft_size as int,
        m.config@.fft_size - m.config@.overlap_samples)
}

/// Whether producing the chunk's row `i` overflows: a bin frequency, the row
/// sequence, the row's UTC start or the following offset does not fit, or the
/// transform is absent.
pub closed spec fn chunk_row_overflows<A>(m: SpectrumModel<A>, c: CanonicalSpectrumChunk, i: int) -> bool {
    let hop = m.config@.fft_size - m.config@.overlap_samples;
    let offset = first_row_offset(m, c) + i * hop;
    ||| exists|k: int| m.config@.first_bin <= k <= m.config@.last_bin && #[trigger] bin_frequency(k, m.config@.fft_size as int) is None
    ||| m.next_sequence + i == u64::MAX
    ||| offset > u32::MAX
    ||| row_start(c.slot@, offset as u32) is None
    ||| offset + hop > u32::MAX
    ||| m.analyzer is None
}

/// Whether one of the rows attempted for a chunk overflows.
pub closed spec fn chunk_rows_overflow<A>(m: SpectrumModel<A>, c: CanonicalSpectrumChunk) -> bool {
    exists|i: int| 0 <= i < chunk_rows(m, c) && i < MAX_SPECTRUM_ROWS_PER_PUSH && #[trigger] chunk_row_overflows(m, c, i)
}

/// A run of `total` samples still holds a full frame after `i` hops exactly
/// when fewer than `rows_for(total)` rows were taken from it.
proof fn lemma_rows_for(total: int, fft: int, hop: int, i: int)
    requires
        0 <= i,
        0 < hop,
        0 < fft,
    ensures
        (total - i * hop >= fft) <==> (i < rows_for(total, fft, hop)),
{
    if total >= fft {
        let q = (total - fft) / hop;
        assert(q * hop <= total - fft < (q + 1) * hop) by (nonlinear_arith)
            requires
                q == (total - fft) / hop,
                hop > 0,
                total - fft >= 0,
        ;
        assert((i <= q) <==> (i * hop <= total - fft)) by (nonlinear_arith)
            requires
                q * hop <= total - fft < (q + 1) * hop,
                hop > 0,
                i >= 0,
        ;
    } else {
        assert(i * hop >= 0) by (nonlinear_arith)
            requires
                i >= 0,
                hop > 0,
        ;
    }
}

/// Whether two models hold the same transform.
pub closed spec fn same_analyzer<A>(a: SpectrumModel<A>, b: SpectrumModel<A>) -> bool {
    a.analyzer == b.analyzer
}

/// The next row sequence of a model.
pub closed spec fn next_sequence_of<A>(m: SpectrumModel<A>) -> u64 {
    m.next_sequence
}

/// Whether producing the next row from a model overflows: a retained bin's
/// center frequency, the row sequence, the row's UTC start or the next hop's
/// offset does not fit, or the transform is absent.
spec fn row_overflows<A>(m: SpectrumModel<A>, slot: Ft8ReceiveSlot) -> bool {
    ||| exists|k: int| m.config@.first_bin <= k <= m.config@.last_bin && #[trigger] bin_frequency(k, m.config@.fft_size as int) is None
    ||| m.next_sequence == u64::MAX
    ||| row_start(slot@, m.pending_start_offset) is None
    ||| m.pending_start_offset + (m.config@.fft_size - m.config@.overlap_samples) > u32::MAX
    ||| m.analyzer is None
}

/// Whether `r` is the row a model produces next for the given generations and slot.
spec fn next_row<A>(r: SpectrumRow, m: SpectrumModel<A>, p: ProcessGeneration, g: StreamGeneration, slot: Ft8ReceiveSlot) -> bool {
    &&& row_wf(r, m.config@)
    &&& r.sequence == m.next_sequence
    &&& r.process_generation == p
    &&& r.stream_generation == g
    &&& r.slot == slot
    &&& r.start_sample_offset == m.pending_start_offset
    &&& r.discontinuity == m.pending_discontinuity
}

/// The first `n` pending samples, the frame handed to the transform.
fn frame_of(pending: &Vec<i16>, n: usize) -> (res: Vec<i16>)
    requires
        n <= pending@.len(),
    ensures
        res@ == pending@.take(n as int),
{
    let mut frame: Vec<i16> = Vec::new();
    let mut i: usize = 0;
    while i < n
        invariant
            i <= n <= pending@.len(),
            frame@ == pending@.take(i as int),
        decreases n - i,
    {
        frame.push(pending[i]);
        i = i + 1;
        assert(frame@ =~= pending@.take(i as int));
    }
    frame
}

/// The samples left after one hop.
fn after_hop(pending: &Vec<i16>, hop: usize) -> (res: Vec<i16>)
    requires
        hop <= pending@.len(),
    ensures
        res@ == pending@.subrange(hop as int, pending@.len() as int),
{
    let mut rest: Vec<i16> = Vec::new();
    let mut r: usize = hop;
    while r < pending.len()
        invariant
            hop <= r <= pending@.len(),
            rest@ == pending@.subrange(hop as int, r as int),
        decreases pending@.len() - r,
    {
        rest.push(pending[r]);
        r = r + 1;
        assert(rest@ =~= pending@.subrange(hop as int, r as int));
    }
    rest
}

impl<A: SpectrumAnalyzer> SpectrumModel<A> {
    /// Allocates one bounded model around a transform.
    pub fn new(config: SpectrumConfig, analyzer: A) -> (res: Self)
        ensures
            res.spec_config() == config,
            res.spec_rows().len() == 0,
            res.spec_pending().len() == 0,
            res.spec_cursor() is None,
            res.spec_pending_discontinuity() is None,
            res.spec_last_publication() is None,
            !res.spec_publication_pending(),
            res.spec_coalesced() == 0,
            res.spec_evicted() == 0,
    {
        proof {
            use_type_invariant(&config);
        }
        SpectrumModel {
            config,
            analyzer: Some(analyzer),
            pending_samples: Vec::new(),
            pending_start_offset: 0,
            cursor: None,
            rows: Vec::new(),
            pending_discontinuity: None,
            next_sequence: 0,
            last_publication_utc_micros: None,
            publication_pending: false,
            coalesced_publications: 0,
            evicted_rows: 0,
        }
    }

    /// Returns the exact checked model policy.
    pub fn config(&self) -> (res: SpectrumConfig)
        ensures
            res == self.spec_config(),
    {
        self.config
    }

    /// Every retained row is well formed and within capacity.
    pub fn lemma_wf(&self)
        ensures
            self.spec_rows().len() <= self.spec_config()@.waterfall_rows,
            rows_wf(self.spec_rows(), self.spec_config()@),
            self.spec_pending().len() < self.spec_config()@.fft_size,
    {
        proof {
            use_type_invariant(self);
        }
    }

    /// Invalidates overlap/history and preserves the reason for the next row.
    pub fn reset(&mut self, reason: SpectrumDiscontinuity)
        ensures
            final(self).spec_config() == old(self).spec_config(),
            final(self).spec_pending().len() == 0,
            final(self).spec_cursor() is None,
            final(self).spec_rows().len() == 0,
            final(self).spec_pending_discontinuity() == Some(reason),
            final(self).spec_last_publication() is None,
            !final(self).spec_publication_pending(),
            final(self).spec_coalesced() == old(self).spec_coalesced(),
            final(self).spec_evicted() == old(self).spec_evicted(),
            next_sequence_of(*final(self)) == next_sequence_of(*old(self)),
            same_analyzer(*final(self), *old(self)),
    {
        proof {
            use_type_invariant(&*self);
            use_type_invariant(&self.config);
        }
        self.pending_samples = Vec::new();
        self.cursor = None;
        self.rows = Vec::new();
        self.pending_discontinuity = Some(reason);
        self.last_publication_utc_micros = None;
        self.publication_pending = false;
    }

    /// Takes the latest bounded snapshot only when a publication token is due.
    ///
    /// A slow or absent consumer causes tokens to coalesce; producer-side work
    /// never waits for this method to be called.
    pub fn take_snapshot(&mut self) -> (res: Option<WaterfallSnapshot>)
        ensures
            !final(self).spec_publication_pending(),
            final(self).spec_rows() == old(self).spec_rows(),
            final(self).spec_config() == old(self).spec_config(),
            match res {
                Some(s) => old(self).spec_publication_pending() && s.config == old(self).spec_config()
                    && s.rows@.len() == old(self).spec_rows().len()
                    && s.rows@.len() <= s.config@.waterfall_rows
                    && final(self).spec_pending() == old(self).spec_pending()
                    && final(self).spec_cursor() == old(self).spec_cursor()
                    && final(self).spec_coalesced() == old(self).spec_coalesced()
                    && final(self).spec_evicted() == old(self).spec_evicted()
                    && (forall|j: int| 0 <= j < s.rows@.len() ==> same_row(#[trigger] s.rows@[j], old(self).spec_rows()[j]))
                    && s.coalesced_publications == old(self).spec_coalesced()
                    && s.evicted_rows == old(self).spec_evicted(),
                None => !old(self).spec_publication_pending() && *final(self) == *old(self),
            },
    {
        proof {
            use_type_invariant(&*self);
        }
        if !self.publication_pending {
            return None;
        }
        self.publication_pending = false;
        let mut rows: Vec<SpectrumRow> = Vec::new();
        let mut i: usize = 0;
        while i < self.rows.len()
            invariant
                i <= self.rows@.len(),
                rows@.len() == i,
                forall|j: int| 0 <= j < i ==> same_row(#[trigger] rows@[j], self.rows@[j]),
            decreases self.rows@.len() - i,
        {
            rows.push(clone_row(&self.rows[i]));
            i = i + 1;
        }
        Some(WaterfallSnapshot {
            config: self.config,
            rows,
            coalesced_publications: self.coalesced_publications,
            evicted_rows: self.evicted_rows,
        })
    }

    /// Processes one bounded canonical chunk outside the real-time callback.
    ///
    /// The chunk's samples are appended to the pending frame, kept only when
    /// the chunk continues the previous one, and one row is produced per full
    /// frame, a hop apart. Oldest rows are evicted at capacity.
    pub fn push(&mut self, chunk: CanonicalSpectrumChunk) -> (res: Result<SpectrumPushResult, SpectrumModelError>)
        ensures
            final(self).spec_config() == old(self).spec_config(),
            res is Ok <==> !chunk_check_overflows(*old(self), chunk) && !chunk_rows_overflow(*old(self), chunk)
                && chunk_rows(*old(self), chunk) <= MAX_SPECTRUM_ROWS_PER_PUSH,
            res == Err::<SpectrumPushResult, SpectrumModelError>(SpectrumModelError::CpuBoundExceeded)
                <==> !chunk_check_overflows(*old(self), chunk) && !chunk_rows_overflow(*old(self), chunk)
                && chunk_rows(*old(self), chunk) > MAX_SPECTRUM_ROWS_PER_PUSH,
            match res {
                Ok(r) => {
                    let k = chunk_rows(*old(self), chunk);
                    let cap = old(self).spec_config()@.waterfall_rows;
                    let hop = old(self).spec_config()@.fft_size - old(self).spec_config()@.overlap_samples;
                    let rows = final(self).spec_rows();
                    &&& r.produced_rows == k
                    &&& r.retained_rows == final(self).spec_rows().len()
                    &&& r.retained_rows == vstd::math::min(cap as int, (kept_rows(*old(self), chunk) + k) as int)
                    &&& r.publication_pending == final(self).spec_publication_pending()
                    &&& (chunk_continues(*old(self), chunk) || chunk_rolls_over(*old(self), chunk))
                        && old(self).spec_publication_pending() ==> r.publication_pending
                    &&& r.publication_pending ==> k > 0 || ((chunk_continues(*old(self), chunk)
                        || chunk_rolls_over(*old(self), chunk)) && old(self).spec_publication_pending())
                    &&& k > 0 && (old(self).spec_last_publication() is None
                        || !(chunk_continues(*old(self), chunk) || chunk_rolls_over(*old(self), chunk))) ==> r.publication_pending
                    &&& r.coalesced_publications == final(self).spec_coalesced()
                    &&& r.evicted_rows == final(self).spec_evicted()
                    &&& r.evicted_rows == vstd::math::min(u64::MAX as int, old(self).spec_evicted()
                        + vstd::math::max(0, kept_rows(*old(self), chunk) + k - cap))
                    &&& final(self).spec_pending().len() == kept_pending(*old(self), chunk) + chunk.spec_samples().len() - k * hop
                    &&& final(self).spec_pending().len() < old(self).spec_config()@.fft_size
                    &&& next_sequence_of(*final(self)) == next_sequence_of(*old(self)) + k
                    &&& final(self).spec_cursor() == Some((chunk.spec_process(), chunk.spec_stream(), chunk.spec_slot(),
                        (chunk.spec_start() + chunk.spec_samples().len()) as u32))
                    &&& forall|j: int| 0 <= j < k && k - j <= rows.len() ==> {
                        let row = #[trigger] rows[rows.len() - (k - j)];
                        &&& row.sequence == next_sequence_of(*old(self)) + j
                        &&& row.start_sample_offset == first_row_offset(*old(self), chunk) + j * hop
                        &&& row.process_generation == chunk.spec_process()
                        &&& row.stream_generation == chunk.spec_stream()
                        &&& row.slot == chunk.spec_slot()
                    }
                },
                Err(e) => e == SpectrumModelError::ArithmeticOverflow || e == SpectrumModelError::CpuBoundExceeded,
            },
    {
        proof {
            use_type_invariant(&*self);
            use_type_invariant(&self.config);
            use_type_invariant(&chunk);
        }
        let ghost m = *self;
        match self.prepare_chunk(&chunk) {
            Ok(()) => {},
            Err(e) => {
                return Err(e);
            },
        }
        proof {
            use_type_invariant(&*self);
        }
        let ghost n0 = self.pending_samples@.len();
        let ghost raised0 = self.publication_pending;
        let ghost last0 = self.last_publication_utc_micros;
        let mut pending = Vec::new();
        std::mem::swap(&mut pending, &mut self.pending_samples);
        if pending.len() == 0 {
            self.pending_start_offset = chunk.start_sample_offset;
        }
        let ghost s1 = *self;
        let ghost off0 = self.pending_start_offset as int;
        let ghost seq0 = self.next_sequence as int;
        let ghost r0 = self.rows@.len() as int;
        let ghost e0 = self.evicted_rows as int;
        let incoming = chunk.samples();
        let ghost total = n0 + incoming@.len();
        let mut i: usize = 0;
        while i < incoming.len()
            invariant
                i <= incoming@.len() <= MAX_SPECTRUM_CHUNK_SAMPLES,
                n0 <= MAX_SPECTRUM_FFT_SIZE,
                pending@.len() == n0 + i,
                *self == s1,
            decreases incoming@.len() - i,
        {
            pending.push(incoming[i]);
            i = i + 1;
        }
        let fft_size = self.config.fft_size();
        let hop = self.config.hop_samples();
        let ghost k = chunk_rows(m, chunk);
        proof {
            assert(k == rows_for(total as int, fft_size as int, hop as int));
        }
        let mut produced: usize = 0;
        while pending.len() >= fft_size
            invariant
                fft_size == self.config@.fft_size,
                hop == self.config@.fft_size - self.config@.overlap_samples,
                hop > 0,
                config_wf(self.config@),
                self.config == m.config,
                m == *old(self),
                !chunk_check_overflows(m, chunk),
                produced <= MAX_SPECTRUM_ROWS_PER_PUSH,
                produced <= k,
                k == rows_for(total as int, fft_size as int, hop as int),
                k == chunk_rows(m, chunk),
                self.pending_samples@.len() == 0,
                pending@.len() == total - produced * hop,
                self.next_sequence == seq0 + produced,
                self.pending_start_offset == off0 + produced * hop,
                seq0 == m.next_sequence,
                off0 == first_row_offset(m, chunk),
                r0 == kept_rows(m, chunk),
                e0 == m.evicted_rows,
                produced == 0 ==> self.analyzer == m.analyzer,
                produced > 0 ==> self.analyzer is Some,
                raised0 ==> self.publication_pending,
                self.publication_pending ==> raised0 || produced > 0,
                produced == 0 ==> self.last_publication_utc_micros == last0 && self.publication_pending == raised0,
                produced > 0 && last0 is None ==> self.publication_pending,
                forall|j: int| 0 <= j < produced ==> !#[trigger] chunk_row_overflows(m, chunk, j),
                self.rows@.len() == vstd::math::min(m.config@.waterfall_rows as int, r0 + produced),
                self.evicted_rows == vstd::math::min(u64::MAX as int, e0 + vstd::math::max(0, r0 + produced - m.config@.waterfall_rows)),
                forall|j: int| 0 <= j < produced && produced - j <= self.rows@.len() ==> {
                    let row = #[trigger] self.rows@[self.rows@.len() - (produced - j)];
                    &&& row.sequence == seq0 + j
                    &&& row.start_sample_offset == off0 + j * hop
                    &&& row.process_generation == chunk.process_generation
                    &&& row.stream_generation == chunk.stream_generation
                    &&& row.slot == chunk.slot
                },
            decreases pending@.len(),
        {
            proof {
                lemma_rows_for(total as int, fft_size as int, hop as int, produced as int);
            }
            if produced >= MAX_SPECTRUM_ROWS_PER_PUSH {
                proof {
                    assert(produced < k);
                    assert forall|i: int| 0 <= i < chunk_rows(m, chunk) && i < MAX_SPECTRUM_ROWS_PER_PUSH implies !#[trigger] chunk_row_overflows(m, chunk, i) by {
                        assert(i < produced);
                    }
                    assert(!chunk_rows_overflow(m, chunk));
                }
                return Err(SpectrumModelError::CpuBoundExceeded);
            }
            let ghost before = *self;
            let ghost before_pending = pending@;
            proof {
                if produced > 0 {
                    assert(!chunk_row_overflows(m, chunk, 0));
                }
                assert(row_overflows(before, chunk.slot) == chunk_row_overflows(m, chunk, produced as int));
            }
            match self.produce_row(&mut pending, chunk.process_generation, chunk.stream_generation, chunk.slot) {
                Ok(()) => {},
                Err(e) => {
                    return Err(e);
                },
            }
            proof {
                assert((produced + 1) * hop == produced * hop + hop) by (nonlinear_arith);
                let p = produced as int;
                let cap = m.config@.waterfall_rows as int;
                assert forall|j: int| 0 <= j < p + 1 && p + 1 - j <= self.rows@.len() implies {
                    let row = #[trigger] self.rows@[self.rows@.len() - (p + 1 - j)];
                    &&& row.sequence == seq0 + j
                    &&& row.start_sample_offset == off0 + j * hop
                    &&& row.process_generation == chunk.process_generation
                    &&& row.stream_generation == chunk.stream_generation
                    &&& row.slot == chunk.slot
                } by {
                    if j < p {
                        let full = before.rows@.len() == cap;
                        let kept = if full { before.rows@.drop_first() } else { before.rows@ };
                        assert(self.rows@.drop_last() == kept);
                        assert(self.rows@[self.rows@.len() - (p + 1 - j)] == kept[kept.len() - (p - j)]);
                        if full {
                            assert(kept[kept.len() - (p - j)] == before.rows@[before.rows@.len() - (p - j)]);
                        }
                    }
                }
            }
            produced = produced + 1;
        }
        proof {
            lemma_rows_for(total as int, fft_size as int, hop as int, produced as int);
        }
        let end = match (chunk.start_sample_offset as usize).checked_add(incoming.len()) {
            Some(e) => e,
            None => {
                return Err(SpectrumModelError::ArithmeticOverflow);
            },
        };
        if end > u32::MAX as usize {
            return Err(SpectrumModelError::ArithmeticOverflow);
        }
        proof {
            use_type_invariant(&*self);
        }
        self.pending_samples = pending;
        self.cursor = Some(ChunkCursor {
            process_generation: chunk.process_generation,
            stream_generation: chunk.stream_generation,
            slot: chunk.slot,
            next_sample_offset: end as u32,
        });
        Ok(SpectrumPushResult {
            produced_rows: produced as u16,
            retained_rows: self.rows.len() as u16,
            publication_pending: self.publication_pending,
            coalesced_publications: self.coalesced_publications,
            evicted_rows: self.evicted_rows,
        })
    }

    fn prepare_chunk(&mut self, chunk: &CanonicalSpectrumChunk) -> (res: Result<(), SpectrumModelError>)
        ensures
            final(self).config == old(self).config,
            final(self).next_sequence == old(self).next_sequence,
            final(self).evicted_rows == old(self).evicted_rows,
            final(self).analyzer == old(self).analyzer,
            res is Err <==> chunk_check_overflows(*old(self), *chunk),
            res matches Err(e) ==> e == SpectrumModelError::ArithmeticOverflow,
            res is Ok ==> final(self).pending_samples@.len() == kept_pending(*old(self), *chunk)
                && final(self).rows@.len() == kept_rows(*old(self), *chunk)
                && (kept_pending(*old(self), *chunk) > 0 ==> final(self).pending_start_offset == old(self).pending_start_offset),
            res is Ok ==> if chunk_continues(*old(self), *chunk) || chunk_rolls_over(*old(self), *chunk) {
                &&& final(self).publication_pending == old(self).publication_pending
                &&& final(self).last_publication_utc_micros == old(self).last_publication_utc_micros
            } else {
                &&& !final(self).publication_pending
                &&& final(self).last_publication_utc_micros is None
            },
    {
        match chunk.discontinuity {
            Some(reason) => {
                self.reset(reason);
            },
            None => {},
        }
        let cursor = match self.cursor {
            Some(c) => c,
            None => {
                return Ok(());
            },
        };
        if cursor.process_generation != chunk.process_generation {
            self.reset(SpectrumDiscontinuity::ProcessGenerationChanged);
            return Ok(());
        }
        if cursor.stream_generation != chunk.stream_generation {
            self.reset(SpectrumDiscontinuity::StreamGenerationChanged);
            return Ok(());
        }
        if cursor.slot == chunk.slot && cursor.next_sample_offset == chunk.start_sample_offset {
            return Ok(());
        }
        let next_slot = match cursor.slot.start_utc_unix_millis().checked_add(crate::audio::FT8_RECEIVE_SLOT_MILLIS) {
            Some(n) => n,
            None => {
                return Err(SpectrumModelError::ArithmeticOverflow);
            },
        };
        if cursor.next_sample_offset as usize == FT8_RECEIVE_WINDOW_SAMPLES && chunk.start_sample_offset == 0
            && chunk.slot.start_utc_unix_millis() == next_slot {
            proof {
                use_type_invariant(&*self);
            }
            self.pending_samples = Vec::new();
            self.pending_start_offset = 0;
            return Ok(());
        }
        self.reset(SpectrumDiscontinuity::TimelineDiscontinuity);
        Ok(())
    }

    fn produce_row(
        &mut self,
        pending: &mut Vec<i16>,
        process_generation: ProcessGeneration,
        stream_generation: StreamGeneration,
        slot: Ft8ReceiveSlot,
    ) -> (res: Result<(), SpectrumModelError>)
        requires
            old(pending)@.len() >= old(self).config@.fft_size,
            old(self).pending_samples@.len() == 0,
        ensures
            final(self).config == old(self).config,
            final(self).pending_samples@.len() == 0,
            final(self).rows@.len() <= final(self).config@.waterfall_rows,
            rows_wf(final(self).rows@, final(self).config@),
            res is Err <==> row_overflows(*old(self), slot),
            res matches Err(e) ==> e == SpectrumModelError::ArithmeticOverflow && *final(self) == *old(self)
                && final(pending)@ == old(pending)@,
            res is Ok ==> {
                let hop = old(self).config@.fft_size - old(self).config@.overlap_samples;
                let full = old(self).rows@.len() == old(self).config@.waterfall_rows;
                let kept = if full { old(self).rows@.drop_first() } else { old(self).rows@ };
                &&& final(pending)@ == old(pending)@.subrange(hop, old(pending)@.len() as int)
                &&& final(self).pending_start_offset == old(self).pending_start_offset + hop
                &&& final(self).next_sequence == old(self).next_sequence + 1
                &&& final(self).pending_discontinuity is None
                &&& final(self).rows@.len() == kept.len() + 1
                &&& final(self).rows@.drop_last() == kept
                &&& next_row(final(self).rows@.last(), *old(self), process_generation, stream_generation, slot)
                &&& final(self).evicted_rows == if full { if old(self).evicted_rows == u64::MAX { u64::MAX } else { (old(self).evicted_rows + 1) as u64 } } else { old(self).evicted_rows }
                &&& final(self).cursor == old(self).cursor
                &&& final(self).analyzer is Some
                &&& final(self).publication_pending == (old(self).publication_pending || publication_due(
                    old(self).last_publication_utc_micros, final(self).rows@.last().start_utc_unix_micros,
                    old(self).config@.publication_millis))
            },
    {
        proof {
            use_type_invariant(&*self);
            use_type_invariant(&self.config);
        }
        let fft_size = self.config.fft_size();
        let first = self.config.first_bin;
        let last = self.config.last_bin;
        let mut frequencies: Vec<u32> = Vec::new();
        let mut index: usize = first;
        while index <= last
            invariant
                first <= index <= last + 1,
                last < fft_size,
                valid_fft_size(fft_size as int),
                frequencies@.len() == index - first,
                forall|k: int| 0 <= k < frequencies@.len() ==> bin_frequency(first + k, fft_size as int) == Some(#[trigger] frequencies@[k]),
                forall|k: int| first <= k < index ==> #[trigger] bin_frequency(k, fft_size as int) is Some,
                first == self.config@.first_bin,
                last == self.config@.last_bin,
                fft_size == self.config@.fft_size,
                *self == *old(self),
                self.pending_samples@.len() == 0,
                self.rows@.len() <= self.config@.waterfall_rows,
                rows_wf(self.rows@, self.config@),
            decreases last + 1 - index,
        {
            let frequency = match bin_frequency_millihertz(index, fft_size) {
                Ok(f) => f,
                Err(e) => {
                    assert(bin_frequency(index as int, fft_size as int) is None);
                    return Err(e);
                },
            };
            frequencies.push(frequency);
            index = index + 1;
        }
        let sequence = self.next_sequence;
        let next_sequence = match self.next_sequence.checked_add(1) {
            Some(n) => n,
            None => {
                return Err(SpectrumModelError::ArithmeticOverflow);
            },
        };
        let start_utc_unix_micros = match row_start_utc_micros(slot, self.pending_start_offset) {
            Ok(m) => m,
            Err(e) => {
                return Err(e);
            },
        };
        let hop = self.config.hop_samples();
        let next_start = match self.pending_start_offset.checked_add(hop as u32) {
            Some(n) => n,
            None => {
                return Err(SpectrumModelError::ArithmeticOverflow);
            },
        };
        if self.analyzer.is_none() {
            return Err(SpectrumModelError::ArithmeticOverflow);
        }
        let frame = frame_of(pending, fft_size);
        let mut taken: Option<A> = None;
        std::mem::swap(&mut taken, &mut self.analyzer);
        let mut bins: Vec<SpectrumBin> = Vec::new();
        match taken {
            Some(mut analyzer) => {
                analyzer.transform(frame.as_slice());
                let mut k: usize = 0;
                while k < frequencies.len()
                    invariant
                        k <= frequencies@.len(),
                        frequencies@.len() == last - first + 1,
                        last < fft_size <= 4_096,
                        bins@.len() == k,
                        forall|j: int| 0 <= j < bins@.len() ==> {
                            &&& (#[trigger] bins@[j]).index == first + j
                            &&& bins@[j].frequency@ == frequencies@[j]
                        },
                    decreases frequencies@.len() - k,
                {
                    let magnitude = analyzer.magnitude_millidecibels(first + k);
                    bins.push(SpectrumBin {
                        index: (first + k) as u16,
                        frequency: SpectrumFrequency(frequencies[k]),
                        magnitude: SpectrumMagnitude(magnitude),
                    });
                    k = k + 1;
                }
                let mut restored = Some(analyzer);
                std::mem::swap(&mut restored, &mut self.analyzer);
            },
            None => {
                return Err(SpectrumModelError::ArithmeticOverflow);
            },
        }
        let row = SpectrumRow {
            sequence,
            process_generation,
            stream_generation,
            slot,
            start_sample_offset: self.pending_start_offset,
            start_utc_unix_micros,
            window: SpectrumWindow::Hann,
            discontinuity: self.pending_discontinuity,
            bins,
        };
        assert(row_wf(row, self.config@));
        self.next_sequence = next_sequence;
        self.pending_discontinuity = None;
        let mut rows = Vec::new();
        std::mem::swap(&mut rows, &mut self.rows);
        if rows.len() == self.config.waterfall_rows() {
            let ghost before = rows@;
            rows.remove(0);
            assert forall|k: int| 0 <= k < rows@.len() implies row_wf(#[trigger] rows@[k], self.config@) by {
                assert(rows@[k] == before[k + 1]);
            }
            self.evicted_rows = self.evicted_rows.saturating_add(1);
        }
        let ghost kept = rows@;
        rows.push(row);
        assert forall|k: int| 0 <= k < rows@.len() implies row_wf(#[trigger] rows@[k], self.config@) by {
            if k < kept.len() {
                assert(rows@[k] == kept[k]);
            }
        }
        self.rows = rows;
        self.mark_publication(start_utc_unix_micros);
        let rest = after_hop(pending, hop);
        *pending = rest;
        self.pending_start_offset = next_start;
        Ok(())
    }

    fn mark_publication(&mut self, row_utc_micros: i64)
        ensures
            final(self).config == old(self).config,
            final(self).rows == old(self).rows,
            final(self).pending_samples == old(self).pending_samples,
            final(self).next_sequence == old(self).next_sequence,
            final(self).pending_start_offset == old(self).pending_start_offset,
            final(self).evicted_rows == old(self).evicted_rows,
            final(self).cursor == old(self).cursor,
            final(self).analyzer == old(self).analyzer,
            final(self).pending_discontinuity == old(self).pending_discontinuity,
            final(self).publication_pending == (old(self).publication_pending || publication_due(
                old(self).last_publication_utc_micros, row_utc_micros, old(self).config@.publication_millis)),
    {
        proof {
            use_type_invariant(&*self);
        }
        let due = match self.last_publication_utc_micros {
            None => true,
            Some(previous) => {
                let elapsed: i128 = row_utc_micros as i128 - previous as i128;
                let elapsed: i64 = if elapsed > i64::MAX as i128 {
                    i64::MAX
                } else if elapsed < i64::MIN as i128 {
                    i64::MIN
                } else {
                    elapsed as i64
                };
                elapsed >= self.config.publication_millis() as i64 * 1_000
            },
        };
        if due {
            if self.publication_pending {
                self.coalesced_publications = self.coalesced_publications.saturating_add(1);
            }
            self.publication_pending = true;
            self.last_publication_utc_micros = Some(row_utc_micros);
        }
    }
}

/// Whether a row at `row_utc` raises a publication token after the last one.
pub open spec fn publication_due(last: Option<i64>, row_utc: i64, cadence_millis: u32) -> bool {
    match last {
        None => true,
        Some(previous) => {
            let elapsed = row_utc - previous;
            let clamped = if elapsed > i64::MAX { i64::MAX as int } else if elapsed < i64::MIN { i64::MIN as int } else { elapsed };
            clamped >= cadence_millis * 1_000
        },
    }
}

/// Whether two rows carry the same values.
pub open spec fn same_row(a: SpectrumRow, b: SpectrumRow) -> bool {
    &&& a.sequence == b.sequence
    &&& a.process_generation == b.process_generation
    &&& a.stream_generation == b.stream_generation
    &&& a.slot == b.slot
    &&& a.start_sample_offset == b.start_sample_offset
    &&& a.start_utc_unix_micros == b.start_utc_unix_micros
    &&& a.window == b.window
    &&& a.discontinuity == b.discontinuity
    &&& a.bins@ == b.bins@
}

fn clone_row(row: &SpectrumRow) -> (res: SpectrumRow)
    ensures
        same_row(res, *row),
{
    let mut bins: Vec<SpectrumBin> = Vec::new();
    let mut i: usize = 0;
    while i < row.bins.len()
        invariant
            i <= row.bins@.len(),
            bins@ == row.bins@.subrange(0, i as int),
        decreases row.bins@.len() - i,
    {
        bins.push(row.bins[i]);
        i = i + 1;
        assert(bins@ =~= row.bins@.subrange(0, i as int));
    }
    assert(row.bins@.subrange(0, row.bins@.len() as int) == row.bins@);
    SpectrumRow {
        sequence: row.sequence,
        process_generation: row.process_generation,
        stream_generation: row.stream_generation,
        slot: row.slot,
        start_sample_offset: row.start_sample_offset,
        start_utc_unix_micros: row.start_utc_unix_micros,
        window: row.window,
        discontinuity: row.discontinuity,
        bins,
    }
}

} // verus!
