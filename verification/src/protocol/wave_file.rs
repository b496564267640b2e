//! Bounded in-memory RIFF/WAVE serialization and parsing.
use vstd::prelude::*;
use crate::protocol::{
    pcm_buffer_check, pcm_duration_of, pcm_format_check, PcmBuffer, PcmError, PcmFormat, PcmSampleFormat,
    MAX_OFFLINE_PCM_SAMPLES,
};

verus! {

/// Size of the RIFF header: tag, size, and form type.
pub const HEADER_BYTES: usize = 12;
/// Size of one chunk header: tag and size.
pub const CHUNK_HEADER_BYTES: usize = 8;

/// Failure reading or writing an in-memory RIFF/WAVE file.
#[derive(Debug, Clone, Copy, PartialEq, Eq, Structural)]
pub enum PcmWaveError {
    /// The bytes end before a declared structure does.
    Truncated,
    /// The RIFF/WAVE framing is malformed.
    InvalidStructure,
    /// A size exceeds the supported representation or offline bound.
    FileTooLarge,
    /// The format or data chunk is absent or repeated.
    MissingOrDuplicateChunk,
    /// The format is not 16-bit integer PCM with consistent rates.
    UnsupportedFormat,
    /// The decoded samples do not form a valid offline buffer.
    Pcm(PcmError),
}

/// Byte `v / shift % 256` of a value: little-endian byte at `shift = 256^k`.
pub open spec fn le_byte(v: int, shift: int) -> u8 {
    ((v / shift) % 256) as u8
}

/// Two's-complement bits of a signed sample.
pub open spec fn sample_bits(s: i16) -> u16 {
    if s >= 0 { s as u16 } else { (s + 65536) as u16 }
}

/// The signed sample whose little-endian bytes are `lo`, `hi`.
pub open spec fn sample_of_bytes(lo: u8, hi: u8) -> i16 {
    let u = lo + 256 * hi;
    if u >= 32768 { (u - 65536) as i16 } else { u as i16 }
}

/// The 44-byte canonical header of a 16-bit PCM file holding `count` samples.
pub open spec fn wave_header(rate: u32, channels: u16, count: nat) -> Seq<u8> {
    let riff: int = 36 + 2 * count as int;
    let data: int = 2 * count as int;
    let byte_rate: int = rate * channels * 2;
    let align: int = channels * 2;
    seq![
        0x52u8, 0x49u8, 0x46u8, 0x46u8,
        le_byte(riff, 1), le_byte(riff, 256), le_byte(riff, 65536), le_byte(riff, 16777216),
        0x57u8, 0x41u8, 0x56u8, 0x45u8,
        0x66u8, 0x6du8, 0x74u8, 0x20u8,
        16u8, 0u8, 0u8, 0u8,
        1u8, 0u8,
        le_byte(channels as int, 1), le_byte(channels as int, 256),
        le_byte(rate as int, 1), le_byte(rate as int, 256), le_byte(rate as int, 65536), le_byte(rate as int, 16777216),
        le_byte(byte_rate, 1), le_byte(byte_rate, 256), le_byte(byte_rate, 65536), le_byte(byte_rate, 16777216),
        le_byte(align, 1), le_byte(align, 256),
        16u8, 0u8,
        0x64u8, 0x61u8, 0x74u8, 0x61u8,
        le_byte(data, 1), le_byte(data, 256), le_byte(data, 65536), le_byte(data, 16777216),
    ]
}

/// Interleaved samples as consecutive little-endian 16-bit values.
pub open spec fn sample_bytes(samples: Seq<i16>) -> Seq<u8> {
    Seq::new(2 * samples.len(), |k: int| le_byte(sample_bits(samples[k / 2]) as int, if k % 2 == 0 { 1 } else { 256 }))
}

/// The complete canonical file for a format and its samples.
pub open spec fn wave_bytes(format: (u32, u16, PcmSampleFormat), samples: Seq<i16>) -> Seq<u8> {
    wave_header(format.0, format.1, samples.len()) + sample_bytes(samples)
}

/// Little-endian 16-bit value at `i`.
pub open spec fn u16_at(b: Seq<u8>, i: int) -> int {
    b[i] + 256 * b[i + 1]
}

/// Little-endian 32-bit value at `i`.
pub open spec fn u32_at(b: Seq<u8>, i: int) -> int {
    b[i] + 256 * b[i + 1] + 65536 * b[i + 2] + 16777216 * b[i + 3]
}

/// Whether the four bytes at `i` are the given tag.
pub open spec fn has_tag(b: Seq<u8>, i: int, t0: u8, t1: u8, t2: u8, t3: u8) -> bool {
    b[i] == t0 && b[i + 1] == t1 && b[i + 2] == t2 && b[i + 3] == t3
}

/// The format described by a `fmt ` chunk of `len` bytes at `start`.
pub open spec fn format_outcome(b: Seq<u8>, start: int, len: int) -> Result<(u32, u16, PcmSampleFormat), PcmWaveError> {
    if len < 16 {
        Err(PcmWaveError::Truncated)
    } else {
        let encoding = u16_at(b, start);
        let channels = u16_at(b, start + 2);
        let rate = u32_at(b, start + 4);
        let byte_rate = u32_at(b, start + 8);
        let align = u16_at(b, start + 12);
        let bits = u16_at(b, start + 14);
        if channels * 2 > u16::MAX || rate * (channels * 2) > u32::MAX {
            Err(PcmWaveError::UnsupportedFormat)
        } else if encoding != 1 || bits != 16 || align != channels * 2 || byte_rate != rate * (channels * 2) {
            Err(PcmWaveError::UnsupportedFormat)
        } else {
            match pcm_format_check(rate as u32, channels as u16) {
                Err(e) => Err(PcmWaveError::Pcm(e)),
                Ok(_) => Ok((rate as u32, channels as u16, PcmSampleFormat::Signed16LittleEndian)),
            }
        }
    }
}

/// One chunk at `offset` of the RIFF body: the offset of the next chunk and
/// the format and data range collected so far, or the error.
pub open spec fn chunk_step(
    b: Seq<u8>,
    riff: int,
    offset: int,
    format: Option<(u32, u16, PcmSampleFormat)>,
    data: Option<(int, int)>,
) -> Result<(int, Option<(u32, u16, PcmSampleFormat)>, Option<(int, int)>), PcmWaveError> {
    if offset + 8 > usize::MAX {
        Err(PcmWaveError::InvalidStructure)
    } else if offset + 8 > riff {
        Err(PcmWaveError::Truncated)
    } else {
        let size = u32_at(b, offset + 4);
        let start = offset + 8;
        let end = start + size;
        if end > usize::MAX {
            Err(PcmWaveError::FileTooLarge)
        } else if end > riff {
            Err(PcmWaveError::Truncated)
        } else {
            let collected: Result<(Option<(u32, u16, PcmSampleFormat)>, Option<(int, int)>), PcmWaveError> =
                if has_tag(b, offset, 0x66, 0x6d, 0x74, 0x20) {
                    if format is Some {
                        Err(PcmWaveError::MissingOrDuplicateChunk)
                    } else {
                        match format_outcome(b, start, end - start) {
                            Ok(f) => Ok((Some(f), data)),
                            Err(e) => Err(e),
                        }
                    }
                } else if has_tag(b, offset, 0x64, 0x61, 0x74, 0x61) {
                    if data is Some {
                        Err(PcmWaveError::MissingOrDuplicateChunk)
                    } else {
                        Ok((format, Some((start, end))))
                    }
                } else {
                    Ok((format, data))
                };
            match collected {
                Err(e) => Err(e),
                Ok((f2, d2)) => {
                    let next = end + size % 2;
                    if next > usize::MAX {
                        Err(PcmWaveError::FileTooLarge)
                    } else if next > riff {
                        Err(PcmWaveError::Truncated)
                    } else {
                        Ok((next, f2, d2))
                    }
                },
            }
        }
    }
}

/// Walks the chunks from `offset` to the end of the RIFF body, collecting the
/// format and the byte range of the data chunk.
pub open spec fn chunk_walk(
    b: Seq<u8>,
    riff: int,
    offset: int,
    format: Option<(u32, u16, PcmSampleFormat)>,
    data: Option<(int, int)>,
) -> Result<(Option<(u32, u16, PcmSampleFormat)>, Option<(int, int)>), PcmWaveError>
    decreases riff - offset,
{
    if offset >= riff {
        Ok((format, data))
    } else {
        match chunk_step(b, riff, offset, format, data) {
            Err(e) => Err(e),
            Ok((next, f2, d2)) => chunk_walk(b, riff, next, f2, d2),
        }
    }
}

/// A data range moved `l` bytes later.
pub open spec fn shifted_range(d: Option<(int, int)>, l: int) -> Option<(int, int)> {
    match d {
        Some((start, end)) => Some((start + l, end + l)),
        None => None,
    }
}

spec fn range_within(d: Option<(int, int)>, lo: int, hi: int) -> bool {
    d matches Some((start, end)) ==> lo <= start <= end <= hi
}

spec fn shifted_step(
    r: Result<(int, Option<(u32, u16, PcmSampleFormat)>, Option<(int, int)>), PcmWaveError>,
    l: int,
) -> Result<(int, Option<(u32, u16, PcmSampleFormat)>, Option<(int, int)>), PcmWaveError> {
    match r {
        Ok((next, f, d)) => Ok((next + l, f, shifted_range(d, l))),
        Err(e) => Err(e),
    }
}

spec fn shifted_walk(
    r: Result<(Option<(u32, u16, PcmSampleFormat)>, Option<(int, int)>), PcmWaveError>,
    l: int,
) -> Result<(Option<(u32, u16, PcmSampleFormat)>, Option<(int, int)>), PcmWaveError> {
    match r {
        Ok((f, d)) => Ok((f, shifted_range(d, l))),
        Err(e) => Err(e),
    }
}

proof fn lemma_step_shift(
    b: Seq<u8>,
    b2: Seq<u8>,
    riff: int,
    l: int,
    offset: int,
    format: Option<(u32, u16, PcmSampleFormat)>,
    data: Option<(int, int)>,
)
    requires
        0 <= l,
        12 <= offset < riff,
        riff <= b.len(),
        b2.len() == b.len() + l,
        forall|k: int| 12 + l <= k < b2.len() ==> #[trigger] b2[k] == b[k - l],
        riff + l + u32::MAX + 17 <= usize::MAX,
        range_within(data, 12, riff),
    ensures
        chunk_step(b2, riff + l, offset + l, format, shifted_range(data, l))
            == shifted_step(chunk_step(b, riff, offset, format, data), l),
        chunk_step(b, riff, offset, format, data) matches Ok((next, f2, d2)) ==> offset < next <= riff && range_within(d2, 12, riff),
{
    if offset + 8 <= riff {
        assert(u32_at(b2, offset + l + 4) == u32_at(b, offset + 4)) by {
            assert(b2[offset + l + 4] == b[offset + 4]);
            assert(b2[offset + l + 5] == b[offset + 5]);
            assert(b2[offset + l + 6] == b[offset + 6]);
            assert(b2[offset + l + 7] == b[offset + 7]);
        }
        assert(b2[offset + l] == b[offset]);
        assert(b2[offset + l + 1] == b[offset + 1]);
        assert(b2[offset + l + 2] == b[offset + 2]);
        assert(b2[offset + l + 3] == b[offset + 3]);
        let size = u32_at(b, offset + 4);
        let start = offset + 8;
        let end = start + size;
        if end <= riff && end - start >= 16 {
            assert(format_outcome(b2, start + l, end - start) == format_outcome(b, start, end - start)) by {
                assert(b2[start + l + 0] == b[start + 0]);
                assert(b2[start + l + 1] == b[start + 1]);
                assert(b2[start + l + 2] == b[start + 2]);
                assert(b2[start + l + 3] == b[start + 3]);
                assert(b2[start + l + 4] == b[start + 4]);
                assert(b2[start + l + 5] == b[start + 5]);
                assert(b2[start + l + 6] == b[start + 6]);
                assert(b2[start + l + 7] == b[start + 7]);
                assert(b2[start + l + 8] == b[start + 8]);
                assert(b2[start + l + 9] == b[start + 9]);
                assert(b2[start + l + 10] == b[start + 10]);
                assert(b2[start + l + 11] == b[start + 11]);
                assert(b2[start + l + 12] == b[start + 12]);
                assert(b2[start + l + 13] == b[start + 13]);
                assert(b2[start + l + 14] == b[start + 14]);
                assert(b2[start + l + 15] == b[start + 15]);
            }
        }
        assert(u32_at(b, offset + 4) <= u32::MAX);
    }
}

proof fn lemma_walk_shift(
    b: Seq<u8>,
    b2: Seq<u8>,
    riff: int,
    l: int,
    offset: int,
    format: Option<(u32, u16, PcmSampleFormat)>,
    data: Option<(int, int)>,
)
    requires
        0 <= l,
        12 <= offset,
        riff <= b.len(),
        b2.len() == b.len() + l,
        forall|k: int| 12 + l <= k < b2.len() ==> #[trigger] b2[k] == b[k - l],
        riff + l + u32::MAX + 17 <= usize::MAX,
        range_within(data, 12, riff),
    ensures
        chunk_walk(b2, riff + l, offset + l, format, shifted_range(data, l))
            == shifted_walk(chunk_walk(b, riff, offset, format, data), l),
        chunk_walk(b, riff, offset, format, data) matches Ok((f2, d2)) ==> range_within(d2, 12, riff),
    decreases riff - offset,
{
    if offset < riff {
        lemma_step_shift(b, b2, riff, l, offset, format, data);
        match chunk_step(b, riff, offset, format, data) {
            Ok((next, f2, d2)) => {
                lemma_walk_shift(b, b2, riff, l, next, f2, d2);
            },
            Err(_) => {},
        }
    }
}

/// Law: a chunk the decoder does not know, of any size, is skipped together
/// with the pad byte that follows an odd-sized chunk. Inserting such a chunk
/// of `size` bytes, plus its pad byte when `size` is odd, right after the
/// RIFF header, and growing the RIFF size by the same `8 + size + size % 2`
/// bytes, leaves what the file decodes to unchanged, whether a buffer or an
/// error. The RIFF size must hold at least the form type, and the sizes must
/// stay within the address space.
pub proof fn law_unknown_chunk_is_skipped_with_its_pad(b: Seq<u8>, b2: Seq<u8>, size: int)
    requires
        b.len() >= HEADER_BYTES,
        u32_at(b, 4) >= 4,
        0 <= size <= u32::MAX,
        b2.len() == b.len() + 8 + size + size % 2,
        forall|k: int| 0 <= k < 4 ==> #[trigger] b2[k] == b[k],
        forall|k: int| 8 <= k < 12 ==> #[trigger] b2[k] == b[k],
        u32_at(b2, 4) == u32_at(b, 4) + 8 + size + size % 2,
        !has_tag(b2, 12, 0x66, 0x6d, 0x74, 0x20),
        !has_tag(b2, 12, 0x64, 0x61, 0x74, 0x61),
        u32_at(b2, 16) == size,
        forall|k: int| 12 <= k < b.len() ==> #[trigger] b2[k + 8 + size + size % 2] == b[k],
        u32_at(b2, 4) + u32::MAX + 25 <= usize::MAX,
    ensures
        wave_decode(b2) == wave_decode(b),
{
    let l = 8 + size + size % 2;
    let riff = u32_at(b, 4) + 8;
    assert(has_tag(b2, 0, 0x52, 0x49, 0x46, 0x46) == has_tag(b, 0, 0x52, 0x49, 0x46, 0x46)) by {
        assert(b2[0] == b[0] && b2[1] == b[1] && b2[2] == b[2] && b2[3] == b[3]);
    }
    assert(has_tag(b2, 8, 0x57, 0x41, 0x56, 0x45) == has_tag(b, 8, 0x57, 0x41, 0x56, 0x45)) by {
        assert(b2[8] == b[8] && b2[9] == b[9] && b2[10] == b[10] && b2[11] == b[11]);
    }
    assert forall|k: int| 12 + l <= k < b2.len() implies #[trigger] b2[k] == b[k - l] by {
        assert(b2[(k - l) + 8 + size + size % 2] == b[k - l]);
    }
    if riff <= b.len() {
        assert(chunk_step(b2, riff + l, 12, None, None) == Ok::<(int, Option<(u32, u16, PcmSampleFormat)>, Option<(int, int)>), PcmWaveError>((12 + l, None, None)));
        lemma_walk_shift(b, b2, riff, l, 12, None, None);
        assert(chunk_walk(b2, riff + l, 12, None, None) == chunk_walk(b2, riff + l, 12 + l, None, None));
        match chunk_walk(b, riff, 12, None, None) {
            Ok((Some(f), Some((start, end)))) => {
                let n = end - start;
                if n % 2 == 0 {
                    assert(decoded_samples(b2, start + l, n / 2) =~= decoded_samples(b, start, n / 2)) by {
                        assert forall|i: int| 0 <= i < n / 2 implies
                            #[trigger] decoded_samples(b2, start + l, n / 2)[i] == decoded_samples(b, start, n / 2)[i] by {
                            assert(b2[start + 2 * i + l] == b[start + 2 * i]);
                            assert(b2[start + 2 * i + 1 + l] == b[start + 2 * i + 1]);
                        }
                    }
                }
            },
            _ => {},
        }
    }
}

/// The samples encoded as `count` little-endian values from `start`.
pub open spec fn decoded_samples(b: Seq<u8>, start: int, count: int) -> Seq<i16> {
    Seq::new(count as nat, |i: int| sample_of_bytes(b[start + 2 * i], b[start + 2 * i + 1]))
}

/// What parsing a byte string as an in-memory RIFF/WAVE file yields: the
/// format and samples, or the error.
pub open spec fn wave_decode(b: Seq<u8>) -> Result<((u32, u16, PcmSampleFormat), Seq<i16>), PcmWaveError> {
    if b.len() < HEADER_BYTES {
        Err(PcmWaveError::Truncated)
    } else if !has_tag(b, 0, 0x52, 0x49, 0x46, 0x46) || !has_tag(b, 8, 0x57, 0x41, 0x56, 0x45) {
        Err(PcmWaveError::InvalidStructure)
    } else {
        let riff = u32_at(b, 4) + 8;
        if riff > usize::MAX {
            Err(PcmWaveError::FileTooLarge)
        } else if riff > b.len() {
            Err(PcmWaveError::Truncated)
        } else if riff < HEADER_BYTES {
            Err(PcmWaveError::InvalidStructure)
        } else {
            match chunk_walk(b, riff, HEADER_BYTES as int, None, None) {
                Err(e) => Err(e),
                Ok((None, _)) => Err(PcmWaveError::MissingOrDuplicateChunk),
                Ok((Some(_), None)) => Err(PcmWaveError::MissingOrDuplicateChunk),
                Ok((Some(f), Some((start, end)))) => {
                    let n = end - start;
                    if n % 2 != 0 || n / 2 > MAX_OFFLINE_PCM_SAMPLES {
                        Err(PcmWaveError::FileTooLarge)
                    } else {
                        match pcm_buffer_check((n / 2) as nat, f.1) {
                            Err(e) => Err(PcmWaveError::Pcm(e)),
                            Ok(_) => Ok((f, decoded_samples(b, start, n / 2))),
                        }
                    }
                },
            }
        }
    }
}

fn u32_le_byte(v: u32, shift: u32) -> (res: u8)
    requires
        shift > 0,
    ensures
        res == le_byte(v as int, shift as int),
{
    ((v / shift) % 256) as u8
}

/// Encodes a checked PCM buffer as an in-memory RIFF/WAVE file.
///
/// This helper performs no file, device, playback, or permission operation.
pub fn encode_pcm_wave(buffer: &PcmBuffer) -> (res: Result<Vec<u8>, PcmWaveError>)
    ensures
        res matches Ok(bytes) && bytes@ == wave_bytes(buffer@.0, buffer@.2),
{
    buffer.lemma_wf();
    let samples = buffer.samples();
    let format = buffer.format();
    let channels = format.channels();
    let rate = format.sample_rate_hz();
    let count: u32 = samples.len() as u32;
    let data_size: u32 = count * 2;
    let riff_size: u32 = 36 + data_size;
    let block_align: u16 = channels * 2;
    assert(rate * block_align <= 384_000 * 16) by (nonlinear_arith)
        requires
            rate <= 384_000,
            block_align <= 16,
    ;
    let byte_rate: u32 = rate * block_align as u32;
    assert(byte_rate == rate * channels * 2) by (nonlinear_arith)
        requires
            byte_rate == rate * (channels * 2),
    ;
    let header: [u8; 44] = [
        0x52, 0x49, 0x46, 0x46,
        u32_le_byte(riff_size, 1), u32_le_byte(riff_size, 256), u32_le_byte(riff_size, 65536), u32_le_byte(riff_size, 16777216),
        0x57, 0x41, 0x56, 0x45,
        0x66, 0x6d, 0x74, 0x20,
        16, 0, 0, 0,
        1, 0,
        u32_le_byte(channels as u32, 1), u32_le_byte(channels as u32, 256),
        u32_le_byte(rate, 1), u32_le_byte(rate, 256), u32_le_byte(rate, 65536), u32_le_byte(rate, 16777216),
        u32_le_byte(byte_rate, 1), u32_le_byte(byte_rate, 256), u32_le_byte(byte_rate, 65536), u32_le_byte(byte_rate, 16777216),
        u32_le_byte(block_align as u32, 1), u32_le_byte(block_align as u32, 256),
        16, 0,
        0x64, 0x61, 0x74, 0x61,
        u32_le_byte(data_size, 1), u32_le_byte(data_size, 256), u32_le_byte(data_size, 65536), u32_le_byte(data_size, 16777216),
    ];
    let ghost expected_header = wave_header(rate, channels, samples@.len());
    assert(header@ =~= expected_header);
    let mut bytes: Vec<u8> = Vec::new();
    let mut i: usize = 0;
    while i < 44
        invariant
            i <= 44,
            header@.len() == 44,
            bytes@ == header@.subrange(0, i as int),
        decreases 44 - i,
    {
        bytes.push(header[i]);
        i = i + 1;
        assert(bytes@ =~= header@.subrange(0, i as int));
    }
    assert(header@.subrange(0, 44) == header@);
    let mut k: usize = 0;
    while k < samples.len()
        invariant
            k <= samples@.len(),
            samples@.len() <= MAX_OFFLINE_PCM_SAMPLES,
            bytes@ == expected_header + sample_bytes(samples@.subrange(0, k as int)),
        decreases samples@.len() - k,
    {
        let s = samples[k];
        let bits: u32 = if s >= 0 { s as u32 } else { (s as i32 + 65536) as u32 };
        assert(bits == sample_bits(s));
        let lo = u32_le_byte(bits, 1);
        let hi = u32_le_byte(bits, 256);
        let ghost before = bytes@;
        bytes.push(lo);
        bytes.push(hi);
        k = k + 1;
        proof {
            let prefix = samples@.subrange(0, k as int);
            let shorter = samples@.subrange(0, k - 1);
            assert forall|j: int| 0 <= j < 2 * prefix.len() implies #[trigger] sample_bytes(prefix)[j]
                == (sample_bytes(shorter) + seq![lo, hi])[j] by {
                if j < 2 * shorter.len() {
                    assert(prefix[j / 2] == shorter[j / 2]);
                } else {
                    assert(j / 2 == k - 1);
                }
            }
            assert(sample_bytes(prefix) =~= sample_bytes(shorter) + seq![lo, hi]);
            assert(bytes@ =~= expected_header + sample_bytes(prefix));
        }
    }
    assert(samples@.subrange(0, samples@.len() as int) == samples@);
    Ok(bytes)
}

fn read_u16(bytes: &[u8], offset: usize) -> (res: u16)
    requires
        offset + 2 <= bytes@.len(),
    ensures
        res == u16_at(bytes@, offset as int),
{
    (bytes[offset] as u32 + 256 * bytes[offset + 1] as u32) as u16
}

fn read_u32(bytes: &[u8], offset: usize) -> (res: u32)
    requires
        offset + 4 <= bytes@.len(),
    ensures
        res == u32_at(bytes@, offset as int),
{
    (bytes[offset] as u64 + 256 * bytes[offset + 1] as u64 + 65536 * bytes[offset + 2] as u64
        + 16777216 * bytes[offset + 3] as u64) as u32
}

fn has_tag_at(bytes: &[u8], offset: usize, t0: u8, t1: u8, t2: u8, t3: u8) -> (res: bool)
    requires
        offset + 4 <= bytes@.len(),
    ensures
        res == has_tag(bytes@, offset as int, t0, t1, t2, t3),
{
    bytes[offset] == t0 && bytes[offset + 1] == t1 && bytes[offset + 2] == t2 && bytes[offset + 3] == t3
}

fn parse_format(bytes: &[u8], start: usize, end: usize) -> (res: Result<PcmFormat, PcmWaveError>)
    requires
        start <= end <= bytes@.len(),
    ensures
        match format_outcome(bytes@, start as int, end - start) {
            Ok(f) => res matches Ok(p) && p@ == f,
            Err(e) => res == Err::<PcmFormat, PcmWaveError>(e),
        },
{
    if end - start < 16 {
        return Err(PcmWaveError::Truncated);
    }
    let encoding = read_u16(bytes, start);
    let channels = read_u16(bytes, start + 2);
    let sample_rate = read_u32(bytes, start + 4);
    let byte_rate = read_u32(bytes, start + 8);
    let block_align = read_u16(bytes, start + 12);
    let bits_per_sample = read_u16(bytes, start + 14);
    let expected_align = match channels.checked_mul(2) {
        Some(a) => a,
        None => {
            return Err(PcmWaveError::UnsupportedFormat);
        },
    };
    let expected_rate = match sample_rate.checked_mul(expected_align as u32) {
        Some(r) => r,
        None => {
            return Err(PcmWaveError::UnsupportedFormat);
        },
    };
    if encoding != 1 || bits_per_sample != 16 || block_align != expected_align || byte_rate != expected_rate {
        return Err(PcmWaveError::UnsupportedFormat);
    }
    match PcmFormat::new(sample_rate, channels, PcmSampleFormat::Signed16LittleEndian) {
        Ok(f) => Ok(f),
        Err(e) => Err(PcmWaveError::Pcm(e)),
    }
}

/// The view of an optional parsed format.
pub open spec fn format_view(f: Option<PcmFormat>) -> Option<(u32, u16, PcmSampleFormat)> {
    match f {
        Some(p) => Some(p@),
        None => None,
    }
}

/// The view of an optional byte range.
pub open spec fn range_view(d: Option<(usize, usize)>) -> Option<(int, int)> {
    match d {
        Some((s, e)) => Some((s as int, e as int)),
        None => None,
    }
}

/// Reads the chunk at `offset`.
fn read_chunk(
    bytes: &[u8],
    riff_size: usize,
    offset: usize,
    parsed_format: Option<PcmFormat>,
    data: Option<(usize, usize)>,
) -> (res: Result<(usize, Option<PcmFormat>, Option<(usize, usize)>), PcmWaveError>)
    requires
        offset < riff_size <= bytes@.len(),
        data matches Some((s, e)) ==> s <= e <= riff_size,
    ensures
        match chunk_step(bytes@, riff_size as int, offset as int, format_view(parsed_format), range_view(data)) {
            Ok((next, f2, d2)) => res matches Ok((n, f, d)) && n == next && format_view(f) == f2 && range_view(d) == d2
                && offset < n <= riff_size && (d matches Some((s, e)) ==> s <= e <= riff_size),
            Err(e) => res == Err::<(usize, Option<PcmFormat>, Option<(usize, usize)>), PcmWaveError>(e),
        },
{
    let header_end = match offset.checked_add(CHUNK_HEADER_BYTES) {
        Some(h) => h,
        None => {
            return Err(PcmWaveError::InvalidStructure);
        },
    };
    if header_end > riff_size {
        return Err(PcmWaveError::Truncated);
    }
    let chunk_size = read_u32(bytes, offset + 4) as usize;
    let chunk_start = header_end;
    let chunk_end = match chunk_start.checked_add(chunk_size) {
        Some(e) => e,
        None => {
            return Err(PcmWaveError::FileTooLarge);
        },
    };
    if chunk_end > riff_size {
        return Err(PcmWaveError::Truncated);
    }
    let mut format = parsed_format;
    let mut data = data;
    if has_tag_at(bytes, offset, 0x66, 0x6d, 0x74, 0x20) {
        if format.is_some() {
            return Err(PcmWaveError::MissingOrDuplicateChunk);
        }
        match parse_format(bytes, chunk_start, chunk_end) {
            Ok(f) => {
                format = Some(f);
            },
            Err(e) => {
                return Err(e);
            },
        }
    } else if has_tag_at(bytes, offset, 0x64, 0x61, 0x74, 0x61) {
        if data.is_some() {
            return Err(PcmWaveError::MissingOrDuplicateChunk);
        }
        data = Some((chunk_start, chunk_end));
    }
    let next = match chunk_end.checked_add(chunk_size % 2) {
        Some(n) => n,
        None => {
            return Err(PcmWaveError::FileTooLarge);
        },
    };
    if next > riff_size {
        return Err(PcmWaveError::Truncated);
    }
    Ok((next, format, data))
}

/// Parses bounded signed 16-bit PCM from an in-memory RIFF/WAVE file.
///
/// Unknown chunks are skipped according to their declared size. This helper
/// performs no file, device, capture, playback, or permission operation.
pub fn decode_pcm_wave(bytes: &[u8]) -> (res: Result<PcmBuffer, PcmWaveError>)
    ensures
        match wave_decode(bytes@) {
            Ok((f, samples)) => res matches Ok(b) && b@ == (f, pcm_duration_of(samples.len(), f), samples),
            Err(e) => res == Err::<PcmBuffer, PcmWaveError>(e),
        },
{
    if bytes.len() < HEADER_BYTES {
        return Err(PcmWaveError::Truncated);
    }
    if !has_tag_at(bytes, 0, 0x52, 0x49, 0x46, 0x46) || !has_tag_at(bytes, 8, 0x57, 0x41, 0x56, 0x45) {
        return Err(PcmWaveError::InvalidStructure);
    }
    let riff_size = match (read_u32(bytes, 4) as usize).checked_add(8) {
        Some(r) => r,
        None => {
            return Err(PcmWaveError::FileTooLarge);
        },
    };
    if riff_size > bytes.len() {
        return Err(PcmWaveError::Truncated);
    }
    if riff_size < HEADER_BYTES {
        return Err(PcmWaveError::InvalidStructure);
    }
    let mut offset: usize = HEADER_BYTES;
    let mut parsed_format: Option<PcmFormat> = None;
    let mut data: Option<(usize, usize)> = None;
    while offset < riff_size
        invariant
            HEADER_BYTES <= offset <= riff_size,
            riff_size <= bytes@.len(),
            HEADER_BYTES <= riff_size,
            riff_size == u32_at(bytes@, 4) + 8,
            has_tag(bytes@, 0, 0x52, 0x49, 0x46, 0x46),
            has_tag(bytes@, 8, 0x57, 0x41, 0x56, 0x45),
            chunk_walk(bytes@, riff_size as int, HEADER_BYTES as int, None, None)
                == chunk_walk(bytes@, riff_size as int, offset as int, format_view(parsed_format), range_view(data)),
            data matches Some((s, e)) ==> s <= e <= riff_size,
        decreases riff_size - offset,
    {
        match read_chunk(bytes, riff_size, offset, parsed_format, data) {
            Ok((next, f, d)) => {
                offset = next;
                parsed_format = f;
                data = d;
            },
            Err(e) => {
                assert(chunk_walk(bytes@, riff_size as int, offset as int, format_view(parsed_format), range_view(data))
                    == Err::<(Option<(u32, u16, PcmSampleFormat)>, Option<(int, int)>), PcmWaveError>(e));
                return Err(e);
            },
        }
    }
    let format = match parsed_format {
        Some(f) => f,
        None => {
            return Err(PcmWaveError::MissingOrDuplicateChunk);
        },
    };
    let (start, end) = match data {
        Some(d) => d,
        None => {
            return Err(PcmWaveError::MissingOrDuplicateChunk);
        },
    };
    let length = end - start;
    if length % 2 != 0 || length / 2 > MAX_OFFLINE_PCM_SAMPLES {
        return Err(PcmWaveError::FileTooLarge);
    }
    let count = length / 2;
    let mut samples: Vec<i16> = Vec::new();
    let mut i: usize = 0;
    while i < count
        invariant
            i <= count,
            count * 2 == end - start,
            start <= end <= bytes@.len(),
            samples@ == decoded_samples(bytes@, start as int, i as int),
        decreases count - i,
    {
        let lo = bytes[start + 2 * i];
        let hi = bytes[start + 2 * i + 1];
        let u: u32 = lo as u32 + 256 * hi as u32;
        let value: i16 = if u >= 32768 { (u as i32 - 65536) as i16 } else { u as i16 };
        samples.push(value);
        i = i + 1;
        assert(samples@ =~= decoded_samples(bytes@, start as int, i as int));
    }
    match PcmBuffer::new(format, samples) {
        Ok(b) => Ok(b),
        Err(e) => Err(PcmWaveError::Pcm(e)),
    }
}


proof fn lemma_le16(v: int)
    requires
        0 <= v < 65536,
    ensures
        le_byte(v, 1) + 256 * le_byte(v, 256) == v,
{
    vstd::arithmetic::div_mod::lemma_fundamental_div_mod(v, 256);
    assert(v / 256 < 256);
    vstd::arithmetic::div_mod::lemma_small_mod((v / 256) as nat, 256);
    assert(v / 1 == v);
}

proof fn lemma_le32(v: int)
    requires
        0 <= v < 0x1_0000_0000,
    ensures
        le_byte(v, 1) + 256 * le_byte(v, 256) + 65536 * le_byte(v, 65536) + 16777216 * le_byte(v, 16777216) == v,
{
    let q1 = v / 256;
    let q2 = q1 / 256;
    let q3 = q2 / 256;
    vstd::arithmetic::div_mod::lemma_fundamental_div_mod(v, 256);
    vstd::arithmetic::div_mod::lemma_fundamental_div_mod(q1, 256);
    vstd::arithmetic::div_mod::lemma_fundamental_div_mod(q2, 256);
    vstd::arithmetic::div_mod::lemma_div_denominator(v, 256, 256);
    vstd::arithmetic::div_mod::lemma_div_denominator(v, 65536, 256);
    assert(q3 < 256);
    vstd::arithmetic::div_mod::lemma_small_mod(q3 as nat, 256);
    assert(v / 1 == v);
}

proof fn lemma_sample_bytes_round_trip(s: i16)
    ensures
        sample_of_bytes(le_byte(sample_bits(s) as int, 1), le_byte(sample_bits(s) as int, 256)) == s,
{
    lemma_le16(sample_bits(s) as int);
}

/// The fields a reader finds in the canonical header.
proof fn lemma_header_fields(rate: u32, channels: u16, count: nat)
    requires
        1 <= rate <= 384_000,
        1 <= channels <= 8,
        count <= MAX_OFFLINE_PCM_SAMPLES,
    ensures
        ({
            let h = wave_header(rate, channels, count);
            &&& h.len() == 44
            &&& has_tag(h, 0, 0x52, 0x49, 0x46, 0x46)
            &&& has_tag(h, 8, 0x57, 0x41, 0x56, 0x45)
            &&& has_tag(h, 12, 0x66, 0x6d, 0x74, 0x20)
            &&& has_tag(h, 36, 0x64, 0x61, 0x74, 0x61)
            &&& u32_at(h, 4) == 36 + 2 * count
            &&& u32_at(h, 16) == 16
            &&& u16_at(h, 20) == 1
            &&& u16_at(h, 22) == channels
            &&& u32_at(h, 24) == rate
            &&& u32_at(h, 28) == rate * (channels * 2)
            &&& u16_at(h, 32) == channels * 2
            &&& u16_at(h, 34) == 16
            &&& u32_at(h, 40) == 2 * count
        }),
{
    lemma_le32(36 + 2 * count as int);
    lemma_le32(2 * count as int);
    lemma_le16(channels as int);
    lemma_le16(channels * 2);
    lemma_le32(rate as int);
    assert(rate * channels * 2 <= 384_000 * 16 && rate * (channels * 2) == rate * channels * 2) by (nonlinear_arith)
        requires
            rate <= 384_000,
            channels <= 8,
    ;
    lemma_le32(rate * channels * 2);
}

/// Decoding the canonical encoding of a valid buffer gives back exactly its
/// format and samples: the in-memory RIFF/WAVE round trip is lossless.
#[verifier::spinoff_prover]
#[verifier::rlimit(40)]
pub proof fn law_wave_round_trip(format: (u32, u16, PcmSampleFormat), samples: Seq<i16>)
    requires
        pcm_format_check(format.0, format.1) == Ok::<(), PcmError>(()),
        pcm_buffer_check(samples.len(), format.1) == Ok::<(), PcmError>(()),
    ensures
        wave_decode(wave_bytes(format, samples)) == Ok::<((u32, u16, PcmSampleFormat), Seq<i16>), PcmWaveError>((format, samples)),
{
    let (rate, channels, kind) = format;
    let n: int = samples.len() as int;
    let h = wave_header(rate, channels, samples.len());
    let body = sample_bytes(samples);
    let w = wave_bytes(format, samples);
    let riff: int = 44 + 2 * n;
    lemma_header_fields(rate, channels, samples.len());
    assert(w.len() == riff);
    assert forall|k: int| 0 <= k < 44 implies #[trigger] w[k] == h[k] by {}
    assert(u32_at(w, 4) == 36 + 2 * n);
    assert(u32_at(w, 16) == 16);
    assert(u32_at(w, 40) == 2 * n);
    assert(u16_at(w, 20) == 1);
    assert(u16_at(w, 22) == channels);
    assert(u32_at(w, 24) == rate);
    assert(u32_at(w, 28) == rate * (channels * 2));
    assert(u16_at(w, 32) == channels * 2);
    assert(u16_at(w, 34) == 16);
    assert(has_tag(w, 0, 0x52, 0x49, 0x46, 0x46));
    assert(has_tag(w, 8, 0x57, 0x41, 0x56, 0x45));
    assert(has_tag(w, 12, 0x66, 0x6d, 0x74, 0x20));
    assert(has_tag(w, 36, 0x64, 0x61, 0x74, 0x61));
    assert(kind == PcmSampleFormat::Signed16LittleEndian);
    assert(format_outcome(w, 20, 16) == Ok::<(u32, u16, PcmSampleFormat), PcmWaveError>(format));
    assert(chunk_step(w, riff, 12, None, None) == Ok::<(int, Option<(u32, u16, PcmSampleFormat)>, Option<(int, int)>), PcmWaveError>((36, Some(format), None)));
    assert(chunk_step(w, riff, 36, Some(format), None) == Ok::<(int, Option<(u32, u16, PcmSampleFormat)>, Option<(int, int)>), PcmWaveError>((riff, Some(format), Some((44, riff)))));
    assert(chunk_walk(w, riff, riff, Some(format), Some((44, riff))) == Ok::<(Option<(u32, u16, PcmSampleFormat)>, Option<(int, int)>), PcmWaveError>((Some(format), Some((44, riff)))));
    assert(chunk_walk(w, riff, 36, Some(format), None) == chunk_walk(w, riff, riff, Some(format), Some((44, riff))));
    assert(chunk_walk(w, riff, 12, None, None) == chunk_walk(w, riff, 36, Some(format), None));
    assert forall|i: int| 0 <= i < n implies #[trigger] decoded_samples(w, 44, n)[i] == samples[i] by {
        assert(w[44 + 2 * i] == body[2 * i]);
        assert(w[44 + 2 * i + 1] == body[2 * i + 1]);
        assert((2 * i) / 2 == i);
        assert((2 * i + 1) / 2 == i);
        assert((2 * i) % 2 == 0);
        assert((2 * i + 1) % 2 == 1);
        lemma_sample_bytes_round_trip(samples[i]);
    }
    assert(decoded_samples(w, 44, n) =~= samples);
}

} // verus!
