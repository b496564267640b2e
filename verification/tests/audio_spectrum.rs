use std::sync::Arc;

use rustfft::num_complex::Complex;
use rustfft::{Fft, FftPlanner};
use slotpilot::audio::spectrum::{
    CanonicalSpectrumChunk, SpectrumAnalyzer, SpectrumBin, SpectrumConfig, SpectrumDiscontinuity, SpectrumModel,
    SpectrumModelError, SpectrumRow, MAX_SPECTRUM_CHUNK_SAMPLES, MAX_SPECTRUM_ROWS_PER_PUSH,
};
use slotpilot::audio::timeline::Ft8ReceiveSlot;
use slotpilot::audio::{ProcessGeneration, StreamGeneration, FT8_RECEIVE_SAMPLE_RATE_HZ};

const MAGNITUDE_FLOOR_MILLIDECIBELS: i32 = -120_000;

struct HannFft {
    fft: Arc<dyn Fft<f32>>,
    window: Vec<f32>,
    window_sum: f32,
    buffer: Vec<Complex<f32>>,
    scratch: Vec<Complex<f32>>,
}

impl HannFft {
    fn new(size: usize) -> Self {
        let fft = FftPlanner::<f32>::new().plan_fft_forward(size);
        let window: Vec<f32> = (0..size)
            .map(|index| 0.5 - 0.5 * (2.0 * std::f32::consts::PI * index as f32 / size as f32).cos())
            .collect();
        let window_sum = window.iter().sum();
        let scratch = vec![Complex::new(0.0, 0.0); fft.get_inplace_scratch_len()];
        Self { fft, window, window_sum, buffer: vec![Complex::new(0.0, 0.0); size], scratch }
    }
}

impl SpectrumAnalyzer for HannFft {
    fn transform(&mut self, frame: &[i16]) {
        for (index, (sample, weight)) in frame.iter().zip(self.window.iter()).enumerate() {
            self.buffer[index] = Complex::new(f32::from(*sample) / 32_768.0 * weight, 0.0);
        }
        self.fft.process_with_scratch(&mut self.buffer, &mut self.scratch);
    }

    fn magnitude_millidecibels(&self, bin: usize) -> i32 {
        let edge_bin = bin == 0 || bin == self.buffer.len() / 2;
        let scale = if edge_bin { 1.0 } else { 2.0 };
        let amplitude = self.buffer[bin].norm() * scale / self.window_sum;
        if amplitude <= 0.0 {
            MAGNITUDE_FLOOR_MILLIDECIBELS
        } else {
            (20.0 * amplitude.log10() * 1_000.0).round().clamp(MAGNITUDE_FLOOR_MILLIDECIBELS as f32, i32::MAX as f32) as i32
        }
    }
}

fn model(config: SpectrumConfig) -> SpectrumModel<HannFft> {
    SpectrumModel::new(config, HannFft::new(config.fft_size()))
}

fn samples_for_tones(tones: &[(f32, f32)], count: usize, start: usize) -> Vec<i16> {
    (start..start + count)
        .map(|sample| {
            let time = sample as f32 / FT8_RECEIVE_SAMPLE_RATE_HZ as f32;
            let value = tones
                .iter()
                .map(|(frequency, amplitude)| amplitude * (2.0 * std::f32::consts::PI * frequency * time).sin())
                .sum::<f32>()
                .clamp(-1.0, 1.0);
            (value * f32::from(i16::MAX)).round() as i16
        })
        .collect()
}

fn chunk(stream: u64, offset: u32, discontinuity: Option<SpectrumDiscontinuity>, samples: Vec<i16>) -> CanonicalSpectrumChunk {
    CanonicalSpectrumChunk::new(
        ProcessGeneration::new(1).unwrap(),
        StreamGeneration::new(stream).unwrap(),
        Ft8ReceiveSlot::new(30_000).unwrap(),
        offset,
        discontinuity,
        samples,
    )
    .unwrap()
}

fn bin_at(row: &SpectrumRow, frequency_hz: u32) -> SpectrumBin {
    row.bins
        .iter()
        .copied()
        .min_by_key(|bin| bin.frequency.millihertz().abs_diff(frequency_hz.saturating_mul(1_000)))
        .unwrap()
}

#[test]
fn configuration_rejects_unbounded_or_ambiguous_shapes() {
    assert_eq!(SpectrumConfig::new(1_000, 500, 0, 5_000, 60, 250), Err(SpectrumModelError::InvalidFftSize));
    let maximum_overlap = SpectrumConfig::new(256, 192, 0, 5_000, 60, 250).unwrap();
    assert_eq!(MAX_SPECTRUM_CHUNK_SAMPLES.div_ceil(maximum_overlap.hop_samples()), MAX_SPECTRUM_ROWS_PER_PUSH);
    assert_eq!(SpectrumConfig::new(1_024, 1_024, 0, 5_000, 60, 250), Err(SpectrumModelError::InvalidOverlap));
    assert_eq!(SpectrumConfig::new(1_024, 512, 5_000, 6_001, 60, 250), Err(SpectrumModelError::InvalidPassband));
    assert_eq!(SpectrumConfig::new(1_024, 512, 0, 5_000, 0, 250), Err(SpectrumModelError::InvalidRowCapacity));
    assert_eq!(SpectrumConfig::new(1_024, 512, 0, 5_000, 60, 49), Err(SpectrumModelError::InvalidPublicationCadence));
    assert_eq!(SpectrumConfig::new(4_096, 2_048, 0, 6_000, 120, 250), Err(SpectrumModelError::MemoryBoundExceeded));
}

#[test]
fn silence_is_exact_floor_with_explicit_units_and_cadence() {
    let config = SpectrumConfig::default();
    let mut model = model(config);
    let result = model.push(chunk(1, 0, None, vec![0; MAX_SPECTRUM_CHUNK_SAMPLES])).unwrap();
    assert_eq!(result.produced_rows, 7);
    let snapshot = model.take_snapshot().unwrap();
    assert_eq!(snapshot.rows.len(), 7);
    assert_eq!(snapshot.rows[0].start_utc_unix_micros, 30_000_000);
    assert_eq!(snapshot.rows[1].start_sample_offset, 512);
    assert_eq!(snapshot.rows[1].start_utc_unix_micros, 30_042_666);
    assert_eq!(snapshot.rows[0].bins.len(), config.bin_count());
    assert!(snapshot
        .rows
        .iter()
        .all(|row| row.bins.iter().all(|bin| bin.magnitude.millidecibels_full_scale() == MAGNITUDE_FLOOR_MILLIDECIBELS)));
}

#[test]
fn aligned_tone_has_deterministic_frequency_and_dbfs() {
    let mut model = model(SpectrumConfig::default());
    model.push(chunk(1, 0, None, samples_for_tones(&[(1_500.0, 0.5)], MAX_SPECTRUM_CHUNK_SAMPLES, 0))).unwrap();
    let row = &model.take_snapshot().unwrap().rows[0];
    let tone = bin_at(row, 1_500);
    assert_eq!(tone.index, 128);
    assert_eq!(tone.frequency.millihertz(), 1_500_000);
    assert!(tone.magnitude.millidecibels_full_scale().abs_diff(-6_021) <= 2);
    assert!(row
        .bins
        .iter()
        .filter(|bin| bin.index.abs_diff(tone.index) > 1)
        .all(|bin| bin.magnitude.millidecibels_full_scale() < -70_000));
}

#[test]
fn multiple_tones_retain_independent_owned_peaks() {
    let mut model = model(SpectrumConfig::default());
    model
        .push(chunk(1, 0, None, samples_for_tones(&[(750.0, 0.25), (2_250.0, 0.5)], MAX_SPECTRUM_CHUNK_SAMPLES, 0)))
        .unwrap();
    let row = &model.take_snapshot().unwrap().rows[0];
    assert!(bin_at(row, 750).magnitude.millidecibels_full_scale().abs_diff(-12_041) <= 3);
    assert!(bin_at(row, 2_250).magnitude.millidecibels_full_scale().abs_diff(-6_021) <= 3);
}

#[test]
fn fixed_capacity_and_single_pending_token_bound_slow_consumers() {
    let config = SpectrumConfig::new(1_024, 512, 0, 3_000, 2, 50).unwrap();
    let mut model = model(config);
    let first = model.push(chunk(1, 0, None, vec![0; MAX_SPECTRUM_CHUNK_SAMPLES])).unwrap();
    assert_eq!(first.retained_rows, 2);
    assert!(first.evicted_rows > 0);
    assert!(first.coalesced_publications > 0);
    let snapshot = model.take_snapshot().unwrap();
    assert_eq!(snapshot.rows.len(), 2);
    assert!(model.take_snapshot().is_none());
}

#[test]
fn generation_timeline_and_clock_resets_remain_visible() {
    let mut model = model(SpectrumConfig::default());
    model.push(chunk(1, 0, None, vec![0; 1_024])).unwrap();
    model.push(chunk(2, 0, None, vec![0; 1_024])).unwrap();
    let snapshot = model.take_snapshot().unwrap();
    assert_eq!(snapshot.rows.len(), 1);
    assert_eq!(snapshot.rows[0].discontinuity, Some(SpectrumDiscontinuity::StreamGenerationChanged));

    model.push(chunk(2, 4_000, None, vec![0; 1_024])).unwrap();
    assert_eq!(model.take_snapshot().unwrap().rows[0].discontinuity, Some(SpectrumDiscontinuity::TimelineDiscontinuity));

    model.reset(SpectrumDiscontinuity::ClockHealthLost);
    model.push(chunk(2, 5_024, None, vec![0; 1_024])).unwrap();
    assert_eq!(model.take_snapshot().unwrap().rows[0].discontinuity, Some(SpectrumDiscontinuity::ClockHealthLost));
}

#[test]
fn one_push_cannot_exceed_the_documented_fft_work_bound() {
    let config = SpectrumConfig::new(256, 128, 0, 5_000, 1, 50).unwrap();
    let mut model = model(config);
    let result = model.push(chunk(1, 0, None, vec![0; MAX_SPECTRUM_CHUNK_SAMPLES])).unwrap();
    assert!(usize::from(result.produced_rows) <= MAX_SPECTRUM_ROWS_PER_PUSH);
}

#[test]
fn chunk_bounds_are_typed() {
    let slot = Ft8ReceiveSlot::new(30_000).unwrap();
    let p = ProcessGeneration::new(1).unwrap();
    let s = StreamGeneration::new(1).unwrap();
    assert_eq!(CanonicalSpectrumChunk::new(p, s, slot, 0, None, Vec::new()), Err(SpectrumModelError::EmptyChunk));
    assert_eq!(
        CanonicalSpectrumChunk::new(p, s, slot, 0, None, vec![0; MAX_SPECTRUM_CHUNK_SAMPLES + 1]),
        Err(SpectrumModelError::ChunkTooLarge)
    );
    assert_eq!(CanonicalSpectrumChunk::new(p, s, slot, 179_999, None, vec![0; 2]), Err(SpectrumModelError::ChunkOutsideSlot));
}

#[test]
fn rows_follow_full_hops_across_continued_chunks() {
    let config = SpectrumConfig::new(1_024, 512, 0, 3_000, 3, 50).unwrap();
    let mut model = model(config);
    let first = model.push(chunk(1, 0, None, vec![0; 1_000])).unwrap();
    assert_eq!(first.produced_rows, 0);
    assert!(model.take_snapshot().is_none());
    let second = model.push(chunk(1, 1_000, None, vec![0; 1_100])).unwrap();
    assert_eq!(second.produced_rows, 3);
    assert_eq!(second.retained_rows, 3);
    assert_eq!(second.evicted_rows, 0);
    let third = model.push(chunk(1, 2_100, None, vec![0; 1_000])).unwrap();
    assert_eq!(third.produced_rows, 2);
    assert_eq!(third.retained_rows, 3);
    assert_eq!(third.evicted_rows, 2);
    let snapshot = model.take_snapshot().unwrap();
    let sequences: Vec<u64> = snapshot.rows.iter().map(|row| row.sequence).collect();
    let offsets: Vec<u32> = snapshot.rows.iter().map(|row| row.start_sample_offset).collect();
    assert_eq!(sequences, vec![2, 3, 4]);
    assert_eq!(offsets, vec![1_024, 1_536, 2_048]);
    assert!(model.take_snapshot().is_none());
}
