//! Conversion layer between the pinned FT8 message codec of `mfsk-core`
//! and the owned message types: packing resolved messages, classifying
//! unpacked payloads, and planning offline synthesis.
//!
//! Known calls populate only the private hash-resolution context. Nothing here
//! opens a device, performs I/O, or grants operating or transmit authority.
use vstd::prelude::*;
use mfsk_core::msg::CallsignHashTable;
use crate::domain::callsign::{full_result, FullCallsign};
use crate::protocol::{
    AmbiguousFt8Message, ClassifiedFt8Message, Ft8CodecError, Ft8DecodeBitsRequest, Ft8EncodeRequest,
    Ft8MessageClass, Ft8MessageCodec, Ft8WaveformError, Ft8WaveformPlacement, Ft8WaveformRequest,
    FreeTextFt8Message, PackedFt8Bits, PcmBuffer, PcmError, ResolvedFt8Message, UnresolvedHashFt8Message,
    UnsupportedFt8Message, pcm_buffer_check, pcm_duration_of, text_ok, MAX_CANONICAL_TEXT_BYTES,
    Ft8Decode, decode_le, decodes_sorted, decode_le_exec, lemma_decode_le_order,
};
use crate::text::{ascii_string, split_words, utf8, words, words_from, bytes_eq};

verus! {

// ----- the outside codec -----

/// `mfsk_core::msg::CallsignHashTable`: the callsign-hash resolution context.
#[verifier::external_type_specification]
#[verifier::external_body]
pub struct ExCallsignHashTable(CallsignHashTable);

/// The calls inserted into a hash table, oldest first. The table's state, and
/// so every lookup through it, is determined by this sequence.
pub uninterp spec fn table_calls(table: CallsignHashTable) -> Seq<Seq<char>>;

/// What `mfsk_core::msg::wsjt77::unpack77_with_hash` renders for a payload
/// given a table built from `calls`.
pub uninterp spec fn unpacked_text(bits: Seq<u8>, calls: Seq<Seq<char>>) -> Option<Seq<char>>;

/// What `mfsk_core::msg::wsjt77::pack77` packs for `call1 call2 report`.
pub uninterp spec fn packed_standard(call1: Seq<char>, call2: Seq<char>, report: Seq<char>) -> Option<Seq<u8>>;

/// What `mfsk_core::msg::wsjt77::pack77_type1` packs for `call1 call2 grid`.
pub uninterp spec fn packed_grid(call1: Seq<char>, call2: Seq<char>, grid: Seq<char>) -> Option<Seq<u8>>;

/// What `mfsk_core::msg::wsjt77::pack77_type4` packs.
pub uninterp spec fn packed_nonstandard(nonstd: Seq<char>, std_call: Seq<char>, report: Seq<char>, is_cq: bool) -> Option<Seq<u8>>;

/// What `mfsk_core::msg::hash_table::ihashcall` computes for a call and bit width.
pub uninterp spec fn call_hash(call: Seq<char>, bits: u32) -> u32;

/// What `mfsk_core::engine::tx::message_to_tones::<Ft8>` produces for a payload.
pub uninterp spec fn ft8_tones(bits: Seq<u8>) -> Seq<u8>;

/// An optional packed payload as a byte sequence.
pub open spec fn payload_view(p: Option<[u8; 77]>) -> Option<Seq<u8>> {
    match p {
        Some(b) => Some(b@),
        None => None,
    }
}

/// `CallsignHashTable::new`: an empty table.
#[verifier::external_body]
fn empty_table() -> (res: CallsignHashTable)
    ensures
        table_calls(res) == Seq::<Seq<char>>::empty(),
{
    CallsignHashTable::new()
}

/// `CallsignHashTable::insert`: registers one call; the table afterwards is the
/// one built from its calls with `call` appended.
#[verifier::external_body]
fn table_insert(table: &mut CallsignHashTable, call: &str)
    ensures
        table_calls(*final(table)) == table_calls(*old(table)).push(call@),
{
    table.insert(call)
}

/// `Clone` of `CallsignHashTable`, derived: the copy holds the same state.
#[verifier::external_body]
fn table_clone(table: &CallsignHashTable) -> (res: CallsignHashTable)
    ensures
        table_calls(res) == table_calls(*table),
{
    table.clone()
}

/// `unpack77_with_hash`: renders a 77-bit payload, resolving hashes through the table.
#[verifier::external_body]
fn unpack_with_table(bits: &[u8; 77], table: &CallsignHashTable) -> (res: Option<String>)
    ensures
        match res {
            Some(s) => unpacked_text(bits@, table_calls(*table)) == Some(s@),
            None => unpacked_text(bits@, table_calls(*table)) is None,
        },
{
    mfsk_core::msg::wsjt77::unpack77_with_hash(bits, table)
}

/// `pack77`: packs a standard `call1 call2 report` message, when it can.
#[verifier::external_body]
fn pack_standard(call1: &str, call2: &str, report: &str) -> (res: Option<[u8; 77]>)
    ensures
        payload_view(res) == packed_standard(call1@, call2@, report@),
{
    mfsk_core::msg::wsjt77::pack77(call1, call2, report)
}

/// `pack77_type1`: packs a standard message whose third field is a grid, when it can.
#[verifier::external_body]
fn pack_grid(call1: &str, call2: &str, grid: &str) -> (res: Option<[u8; 77]>)
    ensures
        payload_view(res) == packed_grid(call1@, call2@, grid@),
{
    mfsk_core::msg::wsjt77::pack77_type1(call1, call2, grid)
}

/// `pack77_type4`: packs a message carrying one nonstandard call, when it can.
#[verifier::external_body]
fn pack_nonstandard(nonstd: &str, std_call: &str, report: &str, is_cq: bool) -> (res: Option<[u8; 77]>)
    ensures
        payload_view(res) == packed_nonstandard(nonstd@, std_call@, report@, is_cq),
{
    mfsk_core::msg::wsjt77::pack77_type4(nonstd, std_call, report, is_cq)
}

/// `ihashcall`: the top `bits` bits of the call's hash. The crate shifts by
/// `64 - bits`, which `requires` keeps in range.
#[verifier::external_body]
fn hash_call(call: &str, bits: u32) -> (res: u32)
    requires
        1 <= bits <= 32,
    ensures
        res == call_hash(call@, bits),
{
    mfsk_core::msg::hash_table::ihashcall(call, bits)
}

/// `message_to_tones::<Ft8>`: the channel-symbol sequence of a payload.
#[verifier::external_body]
fn payload_tones(bits: &[u8; 77]) -> (res: Vec<u8>)
    ensures
        res@ == ft8_tones(bits@),
{
    mfsk_core::engine::tx::message_to_tones::<mfsk_core::ft8::Ft8>(bits)
}

// ----- payload bits -----

/// Whether every element of a payload is a single bit.
pub open spec fn bits01(bits: Seq<u8>) -> bool {
    forall|i: int| 0 <= i < bits.len() ==> #[trigger] bits[i] <= 1
}

/// The unsigned value of `len` bits from `start`, most significant first.
pub open spec fn bits_value(bits: Seq<u8>, start: int, len: nat) -> int
    decreases len,
{
    if len == 0 {
        0
    } else {
        2 * bits_value(bits, start, (len - 1) as nat) + bits[start + len - 1]
    }
}

proof fn lemma_bits_value_bound(bits: Seq<u8>, start: int, len: nat)
    requires
        bits01(bits),
        0 <= start,
        start + len <= bits.len(),
    ensures
        0 <= bits_value(bits, start, len) < vstd::arithmetic::power2::pow2(len),
    decreases len,
{
    vstd::arithmetic::power2::lemma_pow2_pos(len);
    if len > 0 {
        lemma_bits_value_bound(bits, start, (len - 1) as nat);
        vstd::arithmetic::power2::lemma_pow2_unfold(len);
        assert(bits[start + len - 1] <= 1);
    }
}

/// Reads `length` bits from `start`, most significant first.
fn read_bits(bits: &[u8; 77], start: usize, length: usize) -> (res: u32)
    requires
        bits01(bits@),
        start + length <= 77,
        length <= 32,
    ensures
        res == bits_value(bits@, start as int, length as nat),
{
    let mut value: u32 = 0;
    let mut i: usize = 0;
    while i < length
        invariant
            i <= length <= 32,
            start + length <= 77,
            bits01(bits@),
            value == bits_value(bits@, start as int, i as nat),
        decreases length - i,
    {
        proof {
            lemma_bits_value_bound(bits@, start as int, i as nat);
            vstd::arithmetic::power2::lemma_pow2_strictly_increases(i as nat, 32);
            vstd::arithmetic::power2::lemma2_to64();
            vstd::arithmetic::power2::lemma_pow2_unfold(32);
            assert(bits@[start + i] <= 1);
        }
        value = value * 2 + bits[start + i] as u32;
        i = i + 1;
    }
    value
}

/// Bit `index` of the `length`-bit big-endian rendering of `value`.
pub open spec fn value_bit(value: u32, length: int, index: int) -> u8 {
    ((value as nat / vstd::arithmetic::power2::pow2((length - 1 - index) as nat)) % 2) as u8
}

/// Writes the low `length` bits of `value` from `start`, most significant first.
fn write_bits(bits: &mut [u8; 77], start: usize, length: usize, value: u32)
    requires
        start + length <= 77,
        1 <= length <= 32,
    ensures
        forall|i: int| 0 <= i < 77 ==> #[trigger] final(bits)@[i] == if start <= i < start + length {
            value_bit(value, length as int, i - start)
        } else {
            old(bits)@[i]
        },
{
    let mut index: usize = 0;
    while index < length
        invariant
            index <= length,
            1 <= length <= 32,
            start + length <= 77,
            bits@.len() == 77,
            forall|i: int| 0 <= i < 77 ==> #[trigger] bits@[i] == if start <= i < start + index {
                value_bit(value, length as int, i - start)
            } else {
                old(bits)@[i]
            },
        decreases length - index,
    {
        let shift: u32 = (length - 1 - index) as u32;
        let shifted = value >> shift;
        let bit = shifted & 1;
        proof {
            vstd::bits::lemma_u32_shr_is_div(value, shift);
            assert(shifted & 1 == shifted % 2) by (bit_vector);
        }
        bits[start + index] = bit as u8;
        index = index + 1;
    }
}

/// The class a standard or nonstandard payload's bit fields select for a directed message.
pub open spec fn directed_class(bits: Seq<u8>, i3: int) -> Option<Ft8MessageClass> {
    if i3 == 1 || i3 == 2 {
        let grid_or_report = bits_value(bits, 59, 15);
        if grid_or_report <= 32_400 {
            Some(Ft8MessageClass::DirectedGrid)
        } else {
            let report_code = grid_or_report - 32_400;
            if bits[58] == 0 && report_code == 2 {
                Some(Ft8MessageClass::Roger)
            } else if bits[58] == 0 && report_code == 3 {
                Some(Ft8MessageClass::EndingRr73)
            } else if bits[58] == 0 && report_code == 4 {
                Some(Ft8MessageClass::Ending73)
            } else if bits[58] == 0 && report_code >= 5 {
                Some(Ft8MessageClass::SignalReport)
            } else if bits[58] == 1 && report_code >= 5 {
                Some(Ft8MessageClass::RogerSignalReport)
            } else {
                None
            }
        }
    } else if i3 == 4 && bits[73] == 0 {
        let code = bits_value(bits, 71, 2);
        if code == 1 {
            Some(Ft8MessageClass::Roger)
        } else if code == 2 {
            Some(Ft8MessageClass::EndingRr73)
        } else if code == 3 {
            Some(Ft8MessageClass::Ending73)
        } else {
            None
        }
    } else {
        None
    }
}

/// Reads the directed class straight from the payload's bit fields.
fn directed_class_from_bits(bits: &[u8; 77], i3: u32) -> (res: Option<Ft8MessageClass>)
    requires
        bits01(bits@),
    ensures
        res == directed_class(bits@, i3 as int),
{
    if i3 == 1 || i3 == 2 {
        let grid_or_report = read_bits(bits, 59, 15);
        if grid_or_report <= 32_400 {
            return Some(Ft8MessageClass::DirectedGrid);
        }
        let report_code = grid_or_report - 32_400;
        let flag = bits[58];
        if flag == 0 && report_code == 2 {
            Some(Ft8MessageClass::Roger)
        } else if flag == 0 && report_code == 3 {
            Some(Ft8MessageClass::EndingRr73)
        } else if flag == 0 && report_code == 4 {
            Some(Ft8MessageClass::Ending73)
        } else if flag == 0 && report_code >= 5 {
            Some(Ft8MessageClass::SignalReport)
        } else if flag == 1 && report_code >= 5 {
            Some(Ft8MessageClass::RogerSignalReport)
        } else {
            None
        }
    } else if i3 == 4 && bits[73] == 0 {
        let code = read_bits(bits, 71, 2);
        if code == 1 {
            Some(Ft8MessageClass::Roger)
        } else if code == 2 {
            Some(Ft8MessageClass::EndingRr73)
        } else if code == 3 {
            Some(Ft8MessageClass::Ending73)
        } else {
            None
        }
    } else {
        None
    }
}

// ----- words and payload fields -----

/// The characters of UTF-8 bytes.
pub open spec fn chars_of(bytes: Seq<u8>) -> Seq<char> {
    vstd::utf8::decode_utf8(bytes)
}

/// A token without one pair of surrounding angle brackets, when it has them.
pub open spec fn unbracket(t: Seq<u8>) -> Seq<u8> {
    if t.len() >= 2 && t[0] == 0x3c && t[t.len() - 1] == 0x3e {
        t.subrange(1, t.len() - 1)
    } else {
        t
    }
}

/// `CQ`.
pub open spec fn cq_word() -> Seq<u8> {
    seq![0x43u8, 0x51]
}

pub open spec fn is_digit_byte(b: u8) -> bool {
    0x30 <= b && b <= 0x39
}

/// A four-character Maidenhead square: two letters `A`..`R`, two digits.
pub open spec fn is_grid_word(v: Seq<u8>) -> bool {
    &&& v.len() == 4
    &&& 0x41 <= v[0] && v[0] <= 0x52
    &&& 0x41 <= v[1] && v[1] <= 0x52
    &&& is_digit_byte(v[2])
    &&& is_digit_byte(v[3])
}

/// A signed two-digit report such as `-12`.
pub open spec fn is_report_word(v: Seq<u8>) -> bool {
    &&& v.len() == 3
    &&& (v[0] == 0x2b || v[0] == 0x2d)
    &&& is_digit_byte(v[1])
    &&& is_digit_byte(v[2])
}

/// A report preceded by `R`.
pub open spec fn is_roger_report_word(v: Seq<u8>) -> bool {
    v.len() >= 1 && v[0] == 0x52 && is_report_word(v.skip(1))
}

/// The class a directed payload field names.
pub open spec fn payload_class(p: Seq<u8>) -> Option<Ft8MessageClass> {
    if p == seq![0x52u8, 0x52, 0x52] {
        Some(Ft8MessageClass::Roger)
    } else if p == seq![0x37u8, 0x33] {
        Some(Ft8MessageClass::Ending73)
    } else if p == seq![0x52u8, 0x52, 0x37, 0x33] {
        Some(Ft8MessageClass::EndingRr73)
    } else if is_grid_word(p) {
        Some(Ft8MessageClass::DirectedGrid)
    } else if is_report_word(p) {
        Some(Ft8MessageClass::SignalReport)
    } else if is_roger_report_word(p) {
        Some(Ft8MessageClass::RogerSignalReport)
    } else {
        None
    }
}

/// Whether a payload field has the shape its class requires.
pub open spec fn payload_fits(class: Ft8MessageClass, p: Seq<u8>) -> bool {
    match class {
        Ft8MessageClass::DirectedGrid => is_grid_word(p),
        Ft8MessageClass::SignalReport => is_report_word(p),
        Ft8MessageClass::RogerSignalReport => is_roger_report_word(p),
        Ft8MessageClass::Roger => p == seq![0x52u8, 0x52, 0x52],
        Ft8MessageClass::Ending73 => p == seq![0x37u8, 0x33],
        Ft8MessageClass::EndingRr73 => p == seq![0x52u8, 0x52, 0x37, 0x33],
        Ft8MessageClass::GeneralCall => false,
    }
}

fn digit(b: u8) -> (res: bool)
    ensures
        res == is_digit_byte(b),
{
    b >= 0x30 && b <= 0x39
}

fn is_cq(w: &[u8]) -> (res: bool)
    ensures
        res == (w@ == cq_word()),
{
    let r = w.len() == 2 && w[0] == 0x43 && w[1] == 0x51;
    proof {
        if r {
            assert(w@ =~= cq_word());
        }
    }
    r
}

fn is_grid(v: &[u8]) -> (res: bool)
    ensures
        res == is_grid_word(v@),
{
    v.len() == 4 && v[0] >= 0x41 && v[0] <= 0x52 && v[1] >= 0x41 && v[1] <= 0x52 && digit(v[2]) && digit(v[3])
}

fn is_report_at(v: &[u8], start: usize) -> (res: bool)
    requires
        start <= v@.len(),
    ensures
        res == is_report_word(v@.skip(start as int)),
{
    v.len() - start == 3 && (v[start] == 0x2b || v[start] == 0x2d) && digit(v[start + 1]) && digit(v[start + 2])
}

fn is_roger_report(v: &[u8]) -> (res: bool)
    ensures
        res == is_roger_report_word(v@),
{
    v.len() >= 1 && v[0] == 0x52 && is_report_at(v, 1)
}

fn bytes_are(v: &[u8], expected: &[u8]) -> (res: bool)
    ensures
        res == (v@ == expected@),
{
    bytes_eq(v, expected)
}

/// Classifies a directed payload field by its text.
fn classify_payload(payload: &[u8]) -> (res: Option<Ft8MessageClass>)
    ensures
        res == payload_class(payload@),
{
    proof {
        assert(payload@.skip(0) =~= payload@);
    }
    let rrr: [u8; 3] = [0x52, 0x52, 0x52];
    let seventy_three: [u8; 2] = [0x37, 0x33];
    let rr73: [u8; 4] = [0x52, 0x52, 0x37, 0x33];
    proof {
        assert(rrr@ =~= seq![0x52u8, 0x52, 0x52]);
        assert(seventy_three@ =~= seq![0x37u8, 0x33]);
        assert(rr73@ =~= seq![0x52u8, 0x52, 0x37, 0x33]);
    }
    if bytes_are(payload, &rrr) {
        Some(Ft8MessageClass::Roger)
    } else if bytes_are(payload, &seventy_three) {
        Some(Ft8MessageClass::Ending73)
    } else if bytes_are(payload, &rr73) {
        Some(Ft8MessageClass::EndingRr73)
    } else if is_grid(payload) {
        Some(Ft8MessageClass::DirectedGrid)
    } else if is_report_at(payload, 0) {
        Some(Ft8MessageClass::SignalReport)
    } else if is_roger_report(payload) {
        Some(Ft8MessageClass::RogerSignalReport)
    } else {
        None
    }
}

/// Whether a payload field has the shape its class requires.
fn payload_matches(class: Ft8MessageClass, payload: &[u8]) -> (res: bool)
    ensures
        res == payload_fits(class, payload@),
{
    proof {
        assert(payload@.skip(0) =~= payload@);
    }
    let rrr: [u8; 3] = [0x52, 0x52, 0x52];
    let seventy_three: [u8; 2] = [0x37, 0x33];
    let rr73: [u8; 4] = [0x52, 0x52, 0x37, 0x33];
    proof {
        assert(rrr@ =~= seq![0x52u8, 0x52, 0x52]);
        assert(seventy_three@ =~= seq![0x37u8, 0x33]);
        assert(rr73@ =~= seq![0x52u8, 0x52, 0x37, 0x33]);
    }
    match class {
        Ft8MessageClass::DirectedGrid => is_grid(payload),
        Ft8MessageClass::SignalReport => is_report_at(payload, 0),
        Ft8MessageClass::RogerSignalReport => is_roger_report(payload),
        Ft8MessageClass::Roger => bytes_are(payload, &rrr),
        Ft8MessageClass::Ending73 => bytes_are(payload, &seventy_three),
        Ft8MessageClass::EndingRr73 => bytes_are(payload, &rr73),
        Ft8MessageClass::GeneralCall => false,
    }
}

/// A token without its angle brackets.
fn unbracketed(t: &[u8]) -> (res: Vec<u8>)
    ensures
        res@ == unbracket(t@),
{
    let n = t.len();
    let (start, end) = if n >= 2 && t[0] == 0x3c && t[n - 1] == 0x3e { (1, n - 1) } else { (0, n) };
    let mut out: Vec<u8> = Vec::new();
    let mut i: usize = start;
    while i < end
        invariant
            start <= i <= end <= n == t@.len(),
            out@ == t@.subrange(start as int, i as int),
        decreases end - i,
    {
        out.push(t[i]);
        i = i + 1;
    }
    proof {
        assert(t@.subrange(0, n as int) =~= t@);
    }
    out
}

/// Whether a token names exactly the given full callsign, brackets aside.
fn same_identity(token: &[u8], expected: &FullCallsign) -> (res: bool)
    ensures
        res == (unbracket(token@) == utf8(expected@.0)),
{
    let inner = unbracketed(token);
    bytes_eq(inner.as_slice(), expected.original().as_bytes())
}

/// Parses a token, brackets aside, as a full callsign.
fn parse_identity(token: &[u8]) -> (res: Result<FullCallsign, ()>)
    requires
        forall|i: int| 0 <= i < token@.len() ==> (#[trigger] token@[i]) < 0x80,
    ensures
        match res {
            Ok(c) => full_result(unbracket(token@)) is Ok && utf8(c@.0) == unbracket(token@),
            Err(()) => full_result(unbracket(token@)) is Err,
        },
{
    let inner = unbracketed(token);
    proof {
        assert forall|i: int| 0 <= i < inner@.len() implies crate::text::is_ascii_byte(#[trigger] inner@[i]) by {
            if token@.len() >= 2 && token@[0] == 0x3c && token@[token@.len() - 1] == 0x3e {
                assert(inner@[i] == token@[i + 1]);
            } else {
                assert(inner@[i] == token@[i]);
            }
        }
    }
    let text = ascii_string(inner.as_slice());
    match FullCallsign::parse(text.as_str()) {
        Ok(c) => Ok(c),
        Err(_) => Err(()),
    }
}

// ----- classification of unpacked text -----

pub const DETAIL_DIRECTED_CLASS: &'static str = "directed FT8 payload is outside the reviewed Phase 1 message classes";
pub const DETAIL_SHAPE: &'static str = "FT8 message shape is outside the reviewed Phase 1 message matrix";
pub const DETAIL_AMBIGUOUS: &'static str = "decoded FT8 identity cannot be mapped unambiguously to owned full callsigns";
pub const DETAIL_UNRESOLVED: &'static str = "at least one FT8 callsign hash is not present in the supplied resolution context";
pub const ADAPTER_UNSUPPORTED: &'static str = "unsupported FT8 message exceeded the owned boundary";
pub const ADAPTER_AMBIGUOUS: &'static str = "ambiguous FT8 message exceeded the owned boundary";
pub const ADAPTER_UNRESOLVED: &'static str = "unresolved FT8 message exceeded the owned boundary";
pub const ADAPTER_FREE_TEXT: &'static str = "decoded FT8 free text exceeded the owned boundary";
pub const INVALID_EMPTY_FREE_TEXT: &'static str = "empty FT8 free-text payload";
pub const INVALID_UNPACK: &'static str = "FT8 payload could not be unpacked";
pub const NOT_REPRESENTABLE_SHAPE: &'static str = "canonical text does not exactly match its owned FT8 class and identities";
pub const NOT_REPRESENTABLE_ENCODER: &'static str = "the reviewed FT8 message encoder cannot represent this message";
pub const ADAPTER_ROUND_TRIP: &'static str = "the reviewed FT8 encoder produced a payload it could not unpack";
pub const NOT_REPRESENTABLE_IDENTITY: &'static str = "encoding would normalize or discard part of the owned message identity";

/// Class of a codec failure, without its explanation.
#[derive(Debug, Clone, Copy, PartialEq, Eq, Structural)]
pub enum CodecFailureKind {
    /// The resolved message cannot be represented.
    NotRepresentable,
    /// The payload cannot be classified.
    InvalidPackedMessage,
    /// The conversion layer failed.
    Adapter,
}

/// A codec failure as its class and explanation.
pub open spec fn failure_of(e: Ft8CodecError) -> (CodecFailureKind, Seq<char>) {
    match e {
        Ft8CodecError::NotRepresentable { detail } => (CodecFailureKind::NotRepresentable, detail@),
        Ft8CodecError::InvalidPackedMessage { detail } => (CodecFailureKind::InvalidPackedMessage, detail@),
        Ft8CodecError::Adapter { detail } => (CodecFailureKind::Adapter, detail@),
    }
}

/// A classification result as plain values: each outcome with its text and
/// detail; a resolved message with its class and the spellings of its calls.
pub enum ClassificationView {
    Failed(CodecFailureKind, Seq<char>),
    Resolved(Seq<char>, Ft8MessageClass, Seq<u8>, Option<Seq<u8>>),
    UnresolvedHash(Seq<char>, Seq<char>),
    Unsupported(Seq<char>, Seq<char>),
    Ambiguous(Seq<char>, Seq<char>),
    FreeText(Seq<char>),
}

/// The plain-value view of a classification result.
pub open spec fn classification_view(res: Result<ClassifiedFt8Message, Ft8CodecError>) -> ClassificationView {
    match res {
        Ok(ClassifiedFt8Message::Resolved(m)) => ClassificationView::Resolved(
            m@.0,
            m@.3,
            utf8(m@.1@.0),
            match m@.2 {
                Some(r) => Some(utf8(r@.0)),
                None => None,
            },
        ),
        Ok(ClassifiedFt8Message::UnresolvedHash(m)) => ClassificationView::UnresolvedHash(m@.0, m@.1),
        Ok(ClassifiedFt8Message::Unsupported(m)) => ClassificationView::Unsupported(m@.0, m@.1),
        Ok(ClassifiedFt8Message::Ambiguous(m)) => ClassificationView::Ambiguous(m@.0, m@.1),
        Ok(ClassifiedFt8Message::FreeText(m)) => ClassificationView::FreeText(m@),
        Err(e) => ClassificationView::Failed(failure_of(e).0, failure_of(e).1),
    }
}

/// An unsupported outcome, or the conversion failure when its text is out of bounds.
pub open spec fn unsupported_outcome(text: Seq<char>, detail: Seq<char>) -> ClassificationView {
    if crate::protocol::text_and_detail_check(text, detail) is Ok {
        ClassificationView::Unsupported(text, detail)
    } else {
        ClassificationView::Failed(CodecFailureKind::Adapter, ADAPTER_UNSUPPORTED@)
    }
}

/// A resolved outcome when the text and both identities check, else ambiguous.
pub open spec fn resolved_outcome(
    text: Seq<char>,
    sender: Seq<u8>,
    recipient: Option<Seq<u8>>,
    class: Ft8MessageClass,
) -> ClassificationView {
    let identities_ok = full_result(unbracket(sender)) is Ok
        && (recipient matches Some(r) ==> full_result(unbracket(r)) is Ok);
    if text_ok(text, MAX_CANONICAL_TEXT_BYTES as nat) && identities_ok
        && crate::protocol::requires_recipient(class) == recipient is Some {
        ClassificationView::Resolved(
            text,
            class,
            unbracket(sender),
            match recipient {
                Some(r) => Some(unbracket(r)),
                None => None,
            },
        )
    } else if crate::protocol::text_and_detail_check(text, DETAIL_AMBIGUOUS@) is Ok {
        ClassificationView::Ambiguous(text, DETAIL_AMBIGUOUS@)
    } else {
        ClassificationView::Failed(CodecFailureKind::Adapter, ADAPTER_AMBIGUOUS@)
    }
}

/// How unpacked text is classified: by its word shape, the class the payload
/// bits select (when they select one) or else the payload's text, and whether
/// its identities parse as full callsigns.
pub open spec fn supported_outcome(text: Seq<char>, bit_class: Option<Ft8MessageClass>) -> ClassificationView {
    let w = words(utf8(text));
    if w.len() == 2 && w[0] == cq_word() {
        resolved_outcome(text, w[1], None, Ft8MessageClass::GeneralCall)
    } else if w.len() == 3 && w[0] == cq_word() && is_grid_word(w[2]) {
        resolved_outcome(text, w[1], None, Ft8MessageClass::GeneralCall)
    } else if w.len() == 3 {
        let class = if bit_class is Some { bit_class } else { payload_class(w[2]) };
        match class {
            Some(c) => resolved_outcome(text, w[0], Some(w[1]), c),
            None => unsupported_outcome(text, DETAIL_DIRECTED_CLASS@),
        }
    } else {
        unsupported_outcome(text, DETAIL_SHAPE@)
    }
}

proof fn lemma_words_ascii(s: Seq<u8>, cur: Seq<u8>)
    requires
        forall|i: int| 0 <= i < s.len() ==> (#[trigger] s[i]) < 0x80,
        forall|i: int| 0 <= i < cur.len() ==> (#[trigger] cur[i]) < 0x80,
    ensures
        forall|k: int, j: int| 0 <= k < words_from(s, cur).len() && 0 <= j < words_from(s, cur)[k].len()
            ==> (#[trigger] words_from(s, cur)[k][j]) < 0x80,
    decreases s.len(),
{
    if s.len() > 0 {
        let rest = s.drop_first();
        if crate::text::is_space(s[0]) {
            if cur.len() == 0 {
                lemma_words_ascii(rest, cur);
                assert(words_from(s, cur) == words_from(rest, cur));
            } else {
                lemma_words_ascii(rest, Seq::empty());
                let tail = words_from(rest, Seq::empty());
                assert(words_from(s, cur) == seq![cur] + tail);
                assert forall|k: int, j: int| 0 <= k < words_from(s, cur).len() && 0 <= j < words_from(s, cur)[k].len()
                    implies (#[trigger] words_from(s, cur)[k][j]) < 0x80 by {
                    if k > 0 {
                        assert(words_from(s, cur)[k] == tail[k - 1]);
                    }
                }
            }
        } else {
            let next = cur.push(s[0]);
            assert forall|i: int| 0 <= i < next.len() implies (#[trigger] next[i]) < 0x80 by {
                if i < cur.len() {
                    assert(next[i] == cur[i]);
                } else {
                    assert(next[i] == s[0]);
                }
            }
            lemma_words_ascii(rest, next);
            assert(words_from(s, cur) == words_from(rest, next));
        }
    } else if cur.len() > 0 {
        assert(words_from(s, cur) == seq![cur]);
    }
}

proof fn lemma_text_words_ascii(text: Seq<char>)
    requires
        text_ok(text, MAX_CANONICAL_TEXT_BYTES as nat),
    ensures
        forall|k: int, j: int| 0 <= k < words(utf8(text)).len() && 0 <= j < words(utf8(text))[k].len()
            ==> (#[trigger] words(utf8(text))[k][j]) < 0x80,
{
    let b = utf8(text);
    assert forall|i: int| 0 <= i < b.len() implies (#[trigger] b[i]) < 0x80 by {
        assert(crate::text::is_printable_ascii(b[i]));
    }
    lemma_words_ascii(b, Seq::empty());
}

fn adapter_error(detail: &str) -> (res: Ft8CodecError)
    ensures
        failure_of(res) == (CodecFailureKind::Adapter, detail@),
{
    Ft8CodecError::Adapter { detail: detail.to_owned() }
}

fn invalid_message(detail: &str) -> (res: Ft8CodecError)
    ensures
        failure_of(res) == (CodecFailureKind::InvalidPackedMessage, detail@),
{
    Ft8CodecError::InvalidPackedMessage { detail: detail.to_owned() }
}

fn not_representable(detail: &str) -> (res: Ft8CodecError)
    ensures
        failure_of(res) == (CodecFailureKind::NotRepresentable, detail@),
{
    Ft8CodecError::NotRepresentable { detail: detail.to_owned() }
}

fn unsupported(text: &str, detail: &str) -> (res: Result<ClassifiedFt8Message, Ft8CodecError>)
    ensures
        classification_view(res) == unsupported_outcome(text@, detail@),
{
    match UnsupportedFt8Message::new(text, detail) {
        Ok(m) => Ok(ClassifiedFt8Message::Unsupported(m)),
        Err(_) => Err(adapter_error(ADAPTER_UNSUPPORTED)),
    }
}

/// A resolved message, or `Err` when the text or an identity does not check.
fn resolved(
    text: &str,
    sender: &[u8],
    recipient: Option<&[u8]>,
    class: Ft8MessageClass,
) -> (res: Result<ResolvedFt8Message, ()>)
    requires
        text_ok(text@, MAX_CANONICAL_TEXT_BYTES as nat) ==> (forall|i: int| 0 <= i < sender@.len() ==> (#[trigger] sender@[i]) < 0x80),
        text_ok(text@, MAX_CANONICAL_TEXT_BYTES as nat) ==> (recipient matches Some(r) ==> forall|i: int| 0 <= i < r@.len() ==> (#[trigger] r@[i]) < 0x80),
    ensures
        match res {
            Ok(m) => {
                let rv = match recipient { Some(r) => Some(r@), None => None };
                resolved_outcome(text@, sender@, rv, class) == ClassificationView::Resolved(
                    m@.0,
                    m@.3,
                    utf8(m@.1@.0),
                    match m@.2 {
                        Some(c) => Some(utf8(c@.0)),
                        None => None,
                    },
                )
            },
            Err(()) => {
                let rv = match recipient { Some(r) => Some(r@), None => None };
                !(resolved_outcome(text@, sender@, rv, class) is Resolved)
            },
        },
{
    if !crate::text::is_printable_text(text, MAX_CANONICAL_TEXT_BYTES) {
        return Err(());
    }
    let sender_call = match parse_identity(sender) {
        Ok(c) => c,
        Err(()) => {
            return Err(());
        },
    };
    let recipient_call = match recipient {
        Some(r) => match parse_identity(r) {
            Ok(c) => Some(c),
            Err(()) => {
                return Err(());
            },
        },
        None => None,
    };
    match ResolvedFt8Message::new(text, sender_call, recipient_call, class) {
        Ok(m) => Ok(m),
        Err(_) => Err(()),
    }
}

fn resolved_or_ambiguous(
    text: &str,
    sender: &[u8],
    recipient: Option<&[u8]>,
    class: Ft8MessageClass,
) -> (res: Result<ClassifiedFt8Message, Ft8CodecError>)
    requires
        text_ok(text@, MAX_CANONICAL_TEXT_BYTES as nat) ==> (forall|i: int| 0 <= i < sender@.len() ==> (#[trigger] sender@[i]) < 0x80),
        text_ok(text@, MAX_CANONICAL_TEXT_BYTES as nat) ==> (recipient matches Some(r) ==> forall|i: int| 0 <= i < r@.len() ==> (#[trigger] r@[i]) < 0x80),
    ensures
        classification_view(res) == resolved_outcome(text@, sender@, match recipient { Some(r) => Some(r@), None => None }, class),
{
    match resolved(text, sender, recipient, class) {
        Ok(m) => Ok(ClassifiedFt8Message::Resolved(m)),
        Err(()) => match AmbiguousFt8Message::new(text, DETAIL_AMBIGUOUS) {
            Ok(m) => Ok(ClassifiedFt8Message::Ambiguous(m)),
            Err(_) => Err(adapter_error(ADAPTER_AMBIGUOUS)),
        },
    }
}

/// Classifies normalized unpacked text.
fn classify_supported(text: &str, bit_class: Option<Ft8MessageClass>) -> (res: Result<ClassifiedFt8Message, Ft8CodecError>)
    ensures
        classification_view(res) == supported_outcome(text@, bit_class),
{
    let parts = split_words(text.as_bytes());
    let ghost w = crate::text::words(utf8(text@));
    proof {
        if text_ok(text@, MAX_CANONICAL_TEXT_BYTES as nat) {
            lemma_text_words_ascii(text@);
        }
    }
    if parts.len() == 2 && is_cq(parts[0].as_slice()) {
        proof {
            assert(parts@[1]@ == w[1]);
        }
        resolved_or_ambiguous(text, parts[1].as_slice(), None, Ft8MessageClass::GeneralCall)
    } else if parts.len() == 3 && is_cq(parts[0].as_slice()) && is_grid(parts[2].as_slice()) {
        proof {
            assert(parts@[1]@ == w[1]);
        }
        resolved_or_ambiguous(text, parts[1].as_slice(), None, Ft8MessageClass::GeneralCall)
    } else if parts.len() == 3 {
        let class = match bit_class {
            Some(c) => Some(c),
            None => classify_payload(parts[2].as_slice()),
        };
        match class {
            Some(c) => {
                proof {
                    assert(parts@[0]@ == w[0]);
                    assert(parts@[1]@ == w[1]);
                }
                resolved_or_ambiguous(text, parts[0].as_slice(), Some(parts[1].as_slice()), c)
            },
            None => unsupported(text, DETAIL_DIRECTED_CLASS),
        }
    } else {
        unsupported(text, DETAIL_SHAPE)
    }
}

/// The rewrite of a standard message whose report has one digit: `K1ABC W1AW -5`
/// becomes `K1ABC W1AW -05`; words past the third are not kept.
pub open spec fn report_rewrite(t: Seq<u8>) -> Option<Seq<u8>> {
    let w = words(t);
    if w.len() < 3 {
        None
    } else {
        let p = w[2];
        let prefix: Seq<u8> = if p.len() >= 1 && p[0] == 0x52 { seq![0x52u8] } else { Seq::empty() };
        let numeric = p.skip(prefix.len() as int);
        if numeric.len() == 2 && (numeric[0] == 0x2b || numeric[0] == 0x2d) && is_digit_byte(numeric[1]) {
            Some(w[0] + seq![0x20u8] + w[1] + seq![0x20u8] + prefix + seq![numeric[0], 0x30u8, numeric[1]])
        } else {
            None
        }
    }
}

/// Unpacked text with a one-digit report widened to two digits.
pub open spec fn normalized_text(text: Seq<char>) -> Seq<char> {
    match report_rewrite(utf8(text)) {
        Some(b) => if vstd::utf8::valid_utf8(b) { chars_of(b) } else { text },
        None => text,
    }
}

fn push_all(out: &mut Vec<u8>, bytes: &[u8])
    ensures
        final(out)@ == old(out)@ + bytes@,
{
    let mut i: usize = 0;
    while i < bytes.len()
        invariant
            i <= bytes@.len(),
            out@ == old(out)@ + bytes@.subrange(0, i as int),
        decreases bytes@.len() - i,
    {
        out.push(bytes[i]);
        i = i + 1;
    }
    proof {
        assert(bytes@.subrange(0, bytes@.len() as int) =~= bytes@);
    }
}

/// Widens a one-digit report to the two-digit form.
fn normalize_standard_report(text: String) -> (res: String)
    ensures
        res@ == normalized_text(text@),
{
    let parts = split_words(text.as_str().as_bytes());
    if parts.len() < 3 {
        return text;
    }
    let payload = parts[2].as_slice();
    let has_r = payload.len() >= 1 && payload[0] == 0x52;
    let start: usize = if has_r { 1 } else { 0 };
    if !(payload.len() - start == 2 && (payload[start] == 0x2b || payload[start] == 0x2d) && digit(payload[start + 1])) {
        proof {
            let p = payload@;
            let prefix: Seq<u8> = if p.len() >= 1 && p[0] == 0x52 { seq![0x52u8] } else { Seq::empty() };
            assert(prefix.len() == start);
        }
        return text;
    }
    let mut out: Vec<u8> = Vec::new();
    push_all(&mut out, parts[0].as_slice());
    out.push(0x20);
    push_all(&mut out, parts[1].as_slice());
    out.push(0x20);
    if has_r {
        out.push(0x52);
    }
    out.push(payload[start]);
    out.push(0x30);
    out.push(payload[start + 1]);
    proof {
        let p = payload@;
        let w = words(utf8(text@));
        let prefix: Seq<u8> = if p.len() >= 1 && p[0] == 0x52 { seq![0x52u8] } else { Seq::empty() };
        let numeric = p.skip(prefix.len() as int);
        assert(numeric[0] == p[start as int] && numeric[1] == p[start + 1]);
        assert(out@ =~= w[0] + seq![0x20u8] + w[1] + seq![0x20u8] + prefix + seq![numeric[0], 0x30u8, numeric[1]]);
    }
    match crate::text::str_from_utf8(out.as_slice()) {
        Ok(s) => {
            proof {
                vstd::utf8::encode_utf8_decode_utf8(s@);
            }
            s.to_owned()
        },
        Err(_) => text,
    }
}

// ----- classification of payload bits -----

/// The decimal digit naming a three-bit field value.
pub open spec fn digit_text(v: int) -> Seq<char> {
    if v == 0 { "0"@ } else if v == 1 { "1"@ } else if v == 2 { "2"@ } else if v == 3 { "3"@ }
    else if v == 4 { "4"@ } else if v == 5 { "5"@ } else if v == 6 { "6"@ } else { "7"@ }
}

/// Stand-in text for a payload of an unsupported type that does not unpack.
pub open spec fn unsupported_type_text(i3: int, n3: int) -> Seq<char> {
    "UNSUPPORTED FT8 TYPE "@ + digit_text(i3) + "/"@ + digit_text(n3)
}

/// Explanation attached to a payload of an unsupported type.
pub open spec fn unsupported_type_detail(i3: int, n3: int) -> Seq<char> {
    "FT8 type "@ + digit_text(i3) + "/"@ + digit_text(n3) + " is outside the reviewed Phase 1 message matrix"@
}

/// `<...>`, the rendering of an unresolved callsign hash.
pub open spec fn placeholder() -> Seq<u8> {
    seq![0x3cu8, 0x2e, 0x2e, 0x2e, 0x3e]
}

/// Whether a text contains an unresolved-hash rendering.
pub open spec fn has_placeholder(t: Seq<u8>) -> bool {
    exists|i: int| 0 <= i && i + 5 <= t.len() && #[trigger] t.subrange(i, i + 5) == placeholder()
}

/// How a payload is classified from its type fields and its unpacked text: free
/// text, unsupported types, unresolved hashes, and otherwise by
/// [`supported_outcome`] over the text with one-digit reports widened.
pub open spec fn bits_outcome(bits: Seq<u8>, unpacked: Option<Seq<char>>) -> ClassificationView {
    let n3 = bits_value(bits, 71, 3);
    let i3 = bits_value(bits, 74, 3);
    if i3 == 0 && n3 == 0 {
        match unpacked {
            None => ClassificationView::Failed(CodecFailureKind::InvalidPackedMessage, INVALID_EMPTY_FREE_TEXT@),
            Some(t) => if text_ok(t, MAX_CANONICAL_TEXT_BYTES as nat) {
                ClassificationView::FreeText(t)
            } else {
                ClassificationView::Failed(CodecFailureKind::Adapter, ADAPTER_FREE_TEXT@)
            },
        }
    } else if !(i3 == 1 || i3 == 2 || i3 == 4) {
        let text = match unpacked {
            Some(t) => t,
            None => unsupported_type_text(i3, n3),
        };
        unsupported_outcome(text, unsupported_type_detail(i3, n3))
    } else {
        match unpacked {
            None => ClassificationView::Failed(CodecFailureKind::InvalidPackedMessage, INVALID_UNPACK@),
            Some(t) => {
                let n = normalized_text(t);
                if has_placeholder(utf8(n)) {
                    if crate::protocol::text_and_detail_check(n, DETAIL_UNRESOLVED@) is Ok {
                        ClassificationView::UnresolvedHash(n, DETAIL_UNRESOLVED@)
                    } else {
                        ClassificationView::Failed(CodecFailureKind::Adapter, ADAPTER_UNRESOLVED@)
                    }
                } else {
                    supported_outcome(n, directed_class(bits, i3))
                }
            },
        }
    }
}

/// Law: a decoded directed message takes its class from the acknowledgement
/// its payload fields carry, whatever text the unpacker gives. In a
/// nonstandard-call payload (type 4: bits 74-76 read 100) without the CQ flag
/// (bit 73), the two-bit field at bits 71-72 reads 01 for RRR, 10 for RR73
/// and 11 for 73; in a standard payload (type 1: bits 74-76 read 001) without
/// the R flag (bit 58), the report field at bits 59-73 holds 32 402 for RRR,
/// 32 403 for RR73 and 32 404 for 73.
pub proof fn law_directed_class_follows_payload(bits: Seq<u8>, unpacked: Option<Seq<char>>)
    requires
        bits.len() == 77,
        bits01(bits),
    ensures
        bits_outcome(bits, unpacked) matches ClassificationView::Resolved(_, class, _, Some(_)) ==> {
            &&& bits[74] == 1 && bits[75] == 0 && bits[76] == 0 && bits[73] == 0 ==> {
                &&& bits[71] == 0 && bits[72] == 1 ==> class == Ft8MessageClass::Roger
                &&& bits[71] == 1 && bits[72] == 0 ==> class == Ft8MessageClass::EndingRr73
                &&& bits[71] == 1 && bits[72] == 1 ==> class == Ft8MessageClass::Ending73
            }
            &&& bits[74] == 0 && bits[75] == 0 && bits[76] == 1 && bits[58] == 0 ==> {
                &&& bits_value(bits, 59, 15) == 32_402 ==> class == Ft8MessageClass::Roger
                &&& bits_value(bits, 59, 15) == 32_403 ==> class == Ft8MessageClass::EndingRr73
                &&& bits_value(bits, 59, 15) == 32_404 ==> class == Ft8MessageClass::Ending73
            }
        },
{
    reveal_with_fuel(bits_value, 4);
    let n3 = bits_value(bits, 71, 3);
    let i3 = bits_value(bits, 74, 3);
    if bits[74] == 1 && bits[75] == 0 && bits[76] == 0 {
        assert(i3 == 4);
    }
    if bits[74] == 0 && bits[75] == 0 && bits[76] == 1 {
        assert(i3 == 1);
    }
    assert(bits_value(bits, 71, 2) == 2 * bits[71] + bits[72]);
}

fn digit_str(v: u32) -> (res: &'static str)
    ensures
        res@ == digit_text(v as int),
{
    if v == 0 { "0" } else if v == 1 { "1" } else if v == 2 { "2" } else if v == 3 { "3" }
    else if v == 4 { "4" } else if v == 5 { "5" } else if v == 6 { "6" } else { "7" }
}

fn contains_placeholder(t: &[u8]) -> (res: bool)
    ensures
        res == has_placeholder(t@),
{
    let n = t.len();
    if n < 5 {
        return false;
    }
    let mut i: usize = 0;
    while i <= n - 5
        invariant
            n == t@.len(),
            5 <= n,
            i <= n - 4,
            forall|j: int| 0 <= j < i ==> #[trigger] t@.subrange(j, j + 5) != placeholder(),
        decreases n - i,
    {
        if t[i] == 0x3c && t[i + 1] == 0x2e && t[i + 2] == 0x2e && t[i + 3] == 0x2e && t[i + 4] == 0x3e {
            proof {
                assert(t@.subrange(i as int, i + 5) =~= placeholder());
            }
            return true;
        }
        proof {
            if t@.subrange(i as int, i + 5) == placeholder() {
                assert(t@.subrange(i as int, i + 5)[0] == t@[i as int]);
                assert(t@.subrange(i as int, i + 5)[1] == t@[i + 1]);
                assert(t@.subrange(i as int, i + 5)[2] == t@[i + 2]);
                assert(t@.subrange(i as int, i + 5)[3] == t@[i + 3]);
                assert(t@.subrange(i as int, i + 5)[4] == t@[i + 4]);
            }
        }
        i = i + 1;
    }
    false
}

/// Classifies one payload whose bits are each 0 or 1.
fn classify_bits(bits: &[u8; 77], hashes: &CallsignHashTable) -> (res: Result<ClassifiedFt8Message, Ft8CodecError>)
    requires
        bits01(bits@),
    ensures
        classification_view(res) == bits_outcome(bits@, unpacked_text(bits@, table_calls(*hashes))),
{
    let n3 = read_bits(bits, 71, 3);
    let i3 = read_bits(bits, 74, 3);
    proof {
        lemma_bits_value_bound(bits@, 71, 3);
        lemma_bits_value_bound(bits@, 74, 3);
        vstd::arithmetic::power2::lemma2_to64();
    }
    let decoded = unpack_with_table(bits, hashes);
    if i3 == 0 && n3 == 0 {
        let text = match decoded {
            Some(t) => t,
            None => {
                return Err(invalid_message(INVALID_EMPTY_FREE_TEXT));
            },
        };
        return match FreeTextFt8Message::new(text.as_str()) {
            Ok(m) => Ok(ClassifiedFt8Message::FreeText(m)),
            Err(_) => Err(adapter_error(ADAPTER_FREE_TEXT)),
        };
    }
    if !(i3 == 1 || i3 == 2 || i3 == 4) {
        let text = match decoded {
            Some(t) => t,
            None => {
                let mut t = "UNSUPPORTED FT8 TYPE ".to_owned();
                t.append(digit_str(i3));
                t.append("/");
                t.append(digit_str(n3));
                t
            },
        };
        let mut detail = "FT8 type ".to_owned();
        detail.append(digit_str(i3));
        detail.append("/");
        detail.append(digit_str(n3));
        detail.append(" is outside the reviewed Phase 1 message matrix");
        return unsupported(text.as_str(), detail.as_str());
    }
    let text = match decoded {
        Some(t) => normalize_standard_report(t),
        None => {
            return Err(invalid_message(INVALID_UNPACK));
        },
    };
    if contains_placeholder(text.as_str().as_bytes()) {
        return match UnresolvedHashFt8Message::new(text.as_str(), DETAIL_UNRESOLVED) {
            Ok(m) => Ok(ClassifiedFt8Message::UnresolvedHash(m)),
            Err(_) => Err(adapter_error(ADAPTER_UNRESOLVED)),
        };
    }
    let bit_class = directed_class_from_bits(bits, i3);
    classify_supported(text.as_str(), bit_class)
}

// ----- encoding -----

/// A packed payload with its first twelve bits replaced by a twelve-bit hash.
pub open spec fn with_hash(p: Seq<u8>, hash: u32) -> Seq<u8> {
    Seq::new(77, |i: int| if i < 12 { value_bit(hash, 12, i) } else { p[i] })
}

/// Whether a word contains `/`.
pub open spec fn has_slash(w: Seq<u8>) -> bool {
    exists|i: int| 0 <= i < w.len() && w[i] == 0x2f
}

/// The packing a resolved message's text calls for: `None` when its words do
/// not match its class and identities, else what the codec packs.
pub open spec fn encode_attempt(
    text: Seq<char>,
    sender: Seq<char>,
    recipient: Option<Seq<char>>,
    class: Ft8MessageClass,
) -> Option<Option<Seq<u8>>> {
    let w = words(utf8(text));
    if class == Ft8MessageClass::GeneralCall && w.len() == 2 && w[0] == cq_word()
        && unbracket(w[1]) == utf8(sender) && has_slash(w[1]) {
        Some(match packed_nonstandard(chars_of(w[1]), ""@, ""@, true) {
            Some(p) => Some(with_hash(p, call_hash(chars_of(w[1]), 12))),
            None => None,
        })
    } else if class == Ft8MessageClass::GeneralCall && w.len() == 3 && w[0] == cq_word()
        && unbracket(w[1]) == utf8(sender) && is_grid_word(w[2]) {
        Some(packed_standard("CQ"@, chars_of(w[1]), chars_of(w[2])))
    } else if class != Ft8MessageClass::GeneralCall && w.len() == 3 && unbracket(w[0]) == utf8(sender)
        && (recipient matches Some(r) && unbracket(w[1]) == utf8(r)) && payload_fits(class, w[2]) {
        Some(if class == Ft8MessageClass::DirectedGrid {
            packed_grid(chars_of(w[0]), chars_of(w[1]), chars_of(w[2]))
        } else {
            packed_standard(chars_of(w[0]), chars_of(w[1]), chars_of(w[2]))
        })
    } else {
        None
    }
}

/// Encoding of a resolved message given the calls known to the codec: the
/// packing its text calls for, accepted only when the payload unpacks, with
/// the message's own calls known, back to exactly the canonical text.
pub open spec fn encode_outcome(
    m: (Seq<char>, FullCallsign, Option<FullCallsign>, Ft8MessageClass),
    calls: Seq<Seq<char>>,
) -> Result<Seq<u8>, (CodecFailureKind, Seq<char>)> {
    let recipient = match m.2 {
        Some(r) => Some(r@.0),
        None => None,
    };
    match encode_attempt(m.0, m.1@.0, recipient, m.3) {
        None => Err((CodecFailureKind::NotRepresentable, NOT_REPRESENTABLE_SHAPE@)),
        Some(None) => Err((CodecFailureKind::NotRepresentable, NOT_REPRESENTABLE_ENCODER@)),
        Some(Some(p)) => {
            let known = match recipient {
                Some(r) => calls.push(m.1@.0).push(r),
                None => calls.push(m.1@.0),
            };
            match unpacked_text(p, known) {
                None => Err((CodecFailureKind::Adapter, ADAPTER_ROUND_TRIP@)),
                Some(t) => if normalized_text(t) == m.0 {
                    Ok(p)
                } else {
                    Err((CodecFailureKind::NotRepresentable, NOT_REPRESENTABLE_IDENTITY@))
                },
            }
        },
    }
}

fn contains_slash(w: &[u8]) -> (res: bool)
    ensures
        res == has_slash(w@),
{
    let mut i: usize = 0;
    while i < w.len()
        invariant
            i <= w@.len(),
            forall|j: int| 0 <= j < i ==> w@[j] != 0x2f,
        decreases w@.len() - i,
    {
        if w[i] == 0x2f {
            return true;
        }
        i = i + 1;
    }
    false
}

fn word_string(w: &[u8]) -> (res: String)
    requires
        forall|i: int| 0 <= i < w@.len() ==> (#[trigger] w@[i]) < 0x80,
    ensures
        res@ == chars_of(w@),
        utf8(res@) == w@,
{
    let s = ascii_string(w);
    proof {
        vstd::utf8::encode_utf8_decode_utf8(s@);
    }
    s
}

/// Offline FT8 message codec behind owned values.
pub struct OfflineFt8Codec {
    hashes: CallsignHashTable,
}

impl Clone for OfflineFt8Codec {
    fn clone(&self) -> (res: Self)
        ensures
            res.spec_calls() == self.spec_calls(),
    {
        OfflineFt8Codec { hashes: table_clone(&self.hashes) }
    }
}

impl OfflineFt8Codec {
    /// The calls known to the hash-resolution context, oldest first.
    pub closed spec fn spec_calls(&self) -> Seq<Seq<char>> {
        table_calls(self.hashes)
    }

    /// Constructs a codec with an empty callsign-hash context.
    pub fn new() -> (res: Self)
        ensures
            res.spec_calls() == Seq::<Seq<char>>::empty(),
    {
        OfflineFt8Codec { hashes: empty_table() }
    }

    /// Constructs a codec whose decoder may resolve hashes of the given calls.
    pub fn with_known_calls(known_calls: &[FullCallsign]) -> (res: Self)
        ensures
            res.spec_calls() == Seq::new(known_calls@.len(), |i: int| known_calls@[i]@.0),
    {
        let mut hashes = empty_table();
        let mut i: usize = 0;
        while i < known_calls.len()
            invariant
                i <= known_calls@.len(),
                table_calls(hashes) == Seq::new(i as nat, |k: int| known_calls@[k]@.0),
            decreases known_calls@.len() - i,
        {
            table_insert(&mut hashes, known_calls[i].original());
            proof {
                assert(Seq::new(i as nat, |k: int| known_calls@[k]@.0).push(known_calls@[i as int]@.0)
                    =~= Seq::new((i + 1) as nat, |k: int| known_calls@[k]@.0));
            }
            i = i + 1;
        }
        OfflineFt8Codec { hashes }
    }

    /// Packs a resolved message, refusing any packing that would not unpack back
    /// to exactly its canonical text.
    pub fn encode_owned(&self, message: &ResolvedFt8Message) -> (res: Result<[u8; 77], Ft8CodecError>)
        ensures
            match res {
                Ok(b) => encode_outcome(message@, self.spec_calls()) == Ok::<Seq<u8>, (CodecFailureKind, Seq<char>)>(b@),
                Err(e) => encode_outcome(message@, self.spec_calls()) == Err::<Seq<u8>, (CodecFailureKind, Seq<char>)>(failure_of(e)),
            },
    {
        let text = message.canonical_text();
        let sender = message.sender();
        let class = message.class();
        let parts = split_words(text.as_bytes());
        let ghost w = words(utf8(text@));
        proof {
            lemma_text_words_ascii(text@);
        }
        let general = match class {
            Ft8MessageClass::GeneralCall => true,
            _ => false,
        };
        let packed: Option<[u8; 77]> = if general && parts.len() == 2 && is_cq(parts[0].as_slice())
            && same_identity(parts[1].as_slice(), sender) && contains_slash(parts[1].as_slice()) {
            let call = word_string(parts[1].as_slice());
            match pack_nonstandard(call.as_str(), "", "", true) {
                Some(bits) => {
                    let mut bits = bits;
                    let hash = hash_call(call.as_str(), 12);
                    let ghost before = bits@;
                    write_bits(&mut bits, 0, 12, hash);
                    proof {
                        assert(bits@ =~= with_hash(before, hash));
                    }
                    Some(bits)
                },
                None => None,
            }
        } else if general && parts.len() == 3 && is_cq(parts[0].as_slice())
            && same_identity(parts[1].as_slice(), sender) && is_grid(parts[2].as_slice()) {
            let call = word_string(parts[1].as_slice());
            let grid = word_string(parts[2].as_slice());
            pack_standard("CQ", call.as_str(), grid.as_str())
        } else if !general && parts.len() == 3 && same_identity(parts[0].as_slice(), sender)
            && match message.recipient() {
                Some(expected) => same_identity(parts[1].as_slice(), expected),
                None => false,
            } && payload_matches(class, parts[2].as_slice()) {
            let first = word_string(parts[0].as_slice());
            let second = word_string(parts[1].as_slice());
            let third = word_string(parts[2].as_slice());
            match class {
                Ft8MessageClass::DirectedGrid => pack_grid(first.as_str(), second.as_str(), third.as_str()),
                _ => pack_standard(first.as_str(), second.as_str(), third.as_str()),
            }
        } else {
            return Err(not_representable(NOT_REPRESENTABLE_SHAPE));
        };
        let encoded = match packed {
            Some(bits) => bits,
            None => {
                return Err(not_representable(NOT_REPRESENTABLE_ENCODER));
            },
        };
        let mut verification = table_clone(&self.hashes);
        table_insert(&mut verification, sender.original());
        match message.recipient() {
            Some(r) => table_insert(&mut verification, r.original()),
            None => {},
        }
        let unpacked = match unpack_with_table(&encoded, &verification) {
            Some(t) => t,
            None => {
                return Err(adapter_error(ADAPTER_ROUND_TRIP));
            },
        };
        let round_trip = normalize_standard_report(unpacked);
        if !crate::text::str_eq(round_trip.as_str(), text) {
            return Err(not_representable(NOT_REPRESENTABLE_IDENTITY));
        }
        Ok(encoded)
    }
}

/// Payload bytes of owned bits: 1 for a set bit, 0 otherwise.
pub open spec fn bit_bytes(bits: Seq<bool>) -> Seq<u8> {
    Seq::new(bits.len(), |i: int| if bits[i] { 1u8 } else { 0u8 })
}

/// Owned bits of payload bytes: set where the byte is not 0.
pub open spec fn byte_bits(bytes: Seq<u8>) -> Seq<bool> {
    Seq::new(bytes.len(), |i: int| bytes[i] != 0)
}

impl Ft8MessageCodec for OfflineFt8Codec {
    fn encode(&self, request: &Ft8EncodeRequest) -> (res: Result<PackedFt8Bits, Ft8CodecError>)
        ensures
            match res {
                Ok(p) => exists|b: Seq<u8>| encode_outcome(request.message@, self.spec_calls()) == Ok::<Seq<u8>, (CodecFailureKind, Seq<char>)>(b)
                    && p@ == byte_bits(b),
                Err(e) => encode_outcome(request.message@, self.spec_calls()) == Err::<Seq<u8>, (CodecFailureKind, Seq<char>)>(failure_of(e)),
            },
    {
        let encoded = match self.encode_owned(&request.message) {
            Ok(e) => e,
            Err(e) => {
                return Err(e);
            },
        };
        let mut out: [bool; 77] = [false; 77];
        let mut i: usize = 0;
        while i < 77
            invariant
                i <= 77,
                out@.len() == 77,
                forall|k: int| 0 <= k < i ==> out@[k] == (encoded@[k] != 0),
            decreases 77 - i,
        {
            out[i] = encoded[i] != 0;
            i = i + 1;
        }
        proof {
            assert(out@ =~= byte_bits(encoded@));
        }
        Ok(PackedFt8Bits::new(out))
    }

    fn decode_bits(&self, request: &Ft8DecodeBitsRequest) -> (res: Result<ClassifiedFt8Message, Ft8CodecError>)
        ensures
            classification_view(res) == bits_outcome(
                bit_bytes(request.bits@),
                unpacked_text(bit_bytes(request.bits@), self.spec_calls()),
            ),
    {
        let source = request.bits.bits();
        let mut bits: [u8; 77] = [0; 77];
        let mut i: usize = 0;
        while i < 77
            invariant
                i <= 77,
                bits@.len() == 77,
                source@.len() == 77,
                forall|k: int| 0 <= k < i ==> bits@[k] == (if source@[k] { 1u8 } else { 0u8 }),
                forall|k: int| i <= k < 77 ==> bits@[k] == 0,
            decreases 77 - i,
        {
            bits[i] = if source[i] { 1 } else { 0 };
            i = i + 1;
        }
        proof {
            assert(bits@ =~= bit_bytes(request.bits@));
        }
        classify_bits(&bits, &self.hashes)
    }
}

// ----- offline synthesis -----

/// Sample rate of canonical FT8 PCM.
pub const FT8_PCM_SAMPLE_RATE_HZ: u32 = 12_000;
/// Samples in one FT8 frame: 79 symbols of 1,920 samples.
pub const FT8_FRAME_SAMPLES: u32 = 151_680;
/// Samples in one 15-second FT8 slot.
pub const FT8_SLOT_SAMPLES: u32 = 180_000;

/// Whether a PCM buffer is a window the offline decoder accepts: one 15 s
/// slot of mono 12 kHz samples.
pub open spec fn decodable_window(pcm: PcmBuffer) -> bool {
    pcm@.0.0 == FT8_PCM_SAMPLE_RATE_HZ && pcm@.0.1 == 1 && pcm@.1.0 == FT8_SLOT_SAMPLES
}

/// Checks that a PCM buffer is a window the offline decoder accepts.
pub fn is_decodable_window(pcm: &PcmBuffer) -> (res: bool)
    ensures
        res == decodable_window(*pcm),
{
    let format = pcm.format();
    format.sample_rate_hz() == FT8_PCM_SAMPLE_RATE_HZ && format.channels() == 1
        && pcm.duration().frames() == FT8_SLOT_SAMPLES
}
/// Highest base frequency that keeps tone 7 below the Nyquist frequency.
pub const MAX_SYNTHESIS_BASE_HZ: u64 = 5_956;

pub const WAVEFORM_FORMAT: &'static str = "FT8 synthesis requires mono signed 16-bit PCM at 12,000 Hz";
pub const WAVEFORM_NYQUIST: &'static str = "FT8 tone 7 must remain below the 6,000 Hz Nyquist frequency";
pub const WAVEFORM_BOUNDS: &'static str = "private FT8 synthesis violated the owned PCM bounds";
pub const WAVEFORM_PLACEMENT_OVERFLOW: &'static str = "full-slot frame placement overflowed";
pub const WAVEFORM_PLACEMENT_RANGE: &'static str = "full-slot placement cannot contain the complete FT8 frame";

/// The explanation of a configuration failure, if `e` is one.
pub open spec fn configuration_detail(e: Ft8WaveformError) -> Option<Seq<char>> {
    match e {
        Ft8WaveformError::InvalidConfiguration { detail } => Some(detail@),
        _ => None,
    }
}

/// Mono canonical-rate output.
pub open spec fn synthesis_format_ok(format: (u32, u16, crate::protocol::PcmSampleFormat)) -> bool {
    format.0 == FT8_PCM_SAMPLE_RATE_HZ && format.1 == 1
}

/// Whether every sample of a frame stays within the amplitude.
pub open spec fn within_amplitude(frame: Seq<i16>, amplitude: i16) -> bool {
    forall|i: int| 0 <= i < frame.len() ==> -amplitude <= #[trigger] frame[i] <= amplitude
}

/// The samples a placement produces from a frame, or the failure it meets.
pub open spec fn placed(placement: Ft8WaveformPlacement, frame: Seq<i16>) -> Result<Seq<i16>, Seq<char>> {
    match placement {
        Ft8WaveformPlacement::FrameOnly => Ok(frame),
        Ft8WaveformPlacement::FullSlot { start_frame } => {
            if start_frame + FT8_FRAME_SAMPLES > u32::MAX {
                Err(WAVEFORM_PLACEMENT_OVERFLOW@)
            } else if start_frame + FT8_FRAME_SAMPLES > FT8_SLOT_SAMPLES {
                Err(WAVEFORM_PLACEMENT_RANGE@)
            } else {
                Ok(Seq::new(FT8_SLOT_SAMPLES as nat, |i: int|
                    if start_frame <= i < start_frame + FT8_FRAME_SAMPLES { frame[i - start_frame] } else { 0i16 }))
            }
        },
    }
}

/// What one synthesis needs from outside its floating-point tone generator.
pub struct SynthesisPlan {
    /// Channel symbols of the packed message.
    pub tones: Vec<u8>,
    /// Tone-base audio frequency.
    pub base_frequency_hz: u64,
    /// Peak sample magnitude.
    pub amplitude: i16,
}

/// Deterministic, in-memory-only FT8 waveform synthesizer.
pub struct OfflineFt8Synthesizer {
    codec: OfflineFt8Codec,
}

impl OfflineFt8Synthesizer {
    /// The calls known to the synthesizer's codec.
    pub closed spec fn spec_calls(&self) -> Seq<Seq<char>> {
        self.codec.spec_calls()
    }

    /// Constructs an offline synthesizer with no device or station behavior.
    pub fn new() -> (res: Self)
        ensures
            res.spec_calls() == Seq::<Seq<char>>::empty(),
    {
        OfflineFt8Synthesizer { codec: OfflineFt8Codec::new() }
    }

    /// Checks a request and packs its message: the tones, base frequency and
    /// peak amplitude from which the frame is rendered.
    pub fn plan(&self, request: &Ft8WaveformRequest) -> (res: Result<SynthesisPlan, Ft8WaveformError>)
        ensures
            match res {
                Ok(p) => {
                    &&& synthesis_format_ok(request.format@)
                    &&& request.audio_frequency@ <= MAX_SYNTHESIS_BASE_HZ
                    &&& exists|b: Seq<u8>| encode_outcome(request.message@, self.spec_calls()) == Ok::<Seq<u8>, (CodecFailureKind, Seq<char>)>(b)
                        && p.tones@ == ft8_tones(bit_bytes(byte_bits(b)))
                    &&& p.base_frequency_hz == request.audio_frequency@
                    &&& p.amplitude == 32_767 * request.amplitude@ / 1_000
                },
                Err(e) => if !synthesis_format_ok(request.format@) {
                    configuration_detail(e) == Some(WAVEFORM_FORMAT@)
                } else if request.audio_frequency@ > MAX_SYNTHESIS_BASE_HZ {
                    configuration_detail(e) == Some(WAVEFORM_NYQUIST@)
                } else {
                    e matches Ft8WaveformError::Codec(c)
                        && encode_outcome(request.message@, self.spec_calls()) == Err::<Seq<u8>, (CodecFailureKind, Seq<char>)>(failure_of(c))
                },
            },
    {
        if request.format.sample_rate_hz() != FT8_PCM_SAMPLE_RATE_HZ || request.format.channels() != 1 {
            return Err(Ft8WaveformError::InvalidConfiguration { detail: WAVEFORM_FORMAT.to_owned() });
        }
        let base_frequency = request.audio_frequency.hz();
        if base_frequency > MAX_SYNTHESIS_BASE_HZ {
            return Err(Ft8WaveformError::InvalidConfiguration { detail: WAVEFORM_NYQUIST.to_owned() });
        }
        let encode_request = Ft8EncodeRequest { message: request.message.clone() };
        let bits = match self.codec.encode(&encode_request) {
            Ok(b) => b,
            Err(e) => {
                return Err(Ft8WaveformError::Codec(e));
            },
        };
        let source = bits.bits();
        let mut message_bits: [u8; 77] = [0; 77];
        let mut i: usize = 0;
        while i < 77
            invariant
                i <= 77,
                message_bits@.len() == 77,
                source@.len() == 77,
                forall|k: int| 0 <= k < i ==> message_bits@[k] == (if source@[k] { 1u8 } else { 0u8 }),
            decreases 77 - i,
        {
            message_bits[i] = if source[i] { 1 } else { 0 };
            i = i + 1;
        }
        proof {
            assert(message_bits@ =~= bit_bytes(bits@));
        }
        let tones = payload_tones(&message_bits);
        let permille = request.amplitude.value();
        let amplitude: i16 = (32_767u32 * permille as u32 / 1_000) as i16;
        Ok(SynthesisPlan { tones, base_frequency_hz: base_frequency, amplitude })
    }

    /// Checks a rendered frame against the plan's bounds and places it as the
    /// request asks.
    pub fn place(&self, request: &Ft8WaveformRequest, amplitude: i16, frame: Vec<i16>) -> (res: Result<PcmBuffer, Ft8WaveformError>)
        requires
            amplitude >= 0,
        ensures
            match res {
                Ok(b) => {
                    &&& frame@.len() == FT8_FRAME_SAMPLES
                    &&& within_amplitude(frame@, amplitude)
                    &&& placed(request.placement, frame@) matches Ok(samples)
                        && pcm_buffer_check(samples.len(), request.format@.1) is Ok
                        && b@ == (request.format@, pcm_duration_of(samples.len(), request.format@), samples)
                },
                Err(e) => if frame@.len() != FT8_FRAME_SAMPLES || !within_amplitude(frame@, amplitude) {
                    configuration_detail(e) == Some(WAVEFORM_BOUNDS@)
                } else {
                    match placed(request.placement, frame@) {
                        Err(detail) => configuration_detail(e) == Some(detail),
                        Ok(samples) => e matches Ft8WaveformError::Pcm(p)
                            && pcm_buffer_check(samples.len(), request.format@.1) == Err::<(), PcmError>(p),
                    }
                },
            },
    {
        if frame.len() != FT8_FRAME_SAMPLES as usize {
            return Err(Ft8WaveformError::InvalidConfiguration { detail: WAVEFORM_BOUNDS.to_owned() });
        }
        let mut i: usize = 0;
        while i < frame.len()
            invariant
                i <= frame@.len(),
                amplitude >= 0,
                forall|k: int| 0 <= k < i ==> -amplitude <= #[trigger] frame@[k] <= amplitude,
            decreases frame@.len() - i,
        {
            let sample = frame[i];
            if sample > amplitude || sample < -amplitude {
                return Err(Ft8WaveformError::InvalidConfiguration { detail: WAVEFORM_BOUNDS.to_owned() });
            }
            i = i + 1;
        }
        let samples = match request.placement {
            Ft8WaveformPlacement::FrameOnly => frame,
            Ft8WaveformPlacement::FullSlot { start_frame } => {
                let end_frame = match start_frame.checked_add(FT8_FRAME_SAMPLES) {
                    Some(end) => end,
                    None => {
                        return Err(Ft8WaveformError::InvalidConfiguration { detail: WAVEFORM_PLACEMENT_OVERFLOW.to_owned() });
                    },
                };
                if end_frame > FT8_SLOT_SAMPLES {
                    return Err(Ft8WaveformError::InvalidConfiguration { detail: WAVEFORM_PLACEMENT_RANGE.to_owned() });
                }
                let start = start_frame as usize;
                let end = end_frame as usize;
                let mut slot: Vec<i16> = Vec::new();
                let mut k: usize = 0;
                while k < FT8_SLOT_SAMPLES as usize
                    invariant
                        k <= FT8_SLOT_SAMPLES,
                        start == start_frame,
                        end == start_frame + FT8_FRAME_SAMPLES,
                        end <= FT8_SLOT_SAMPLES,
                        frame@.len() == FT8_FRAME_SAMPLES,
                        slot@.len() == k,
                        forall|j: int| 0 <= j < k ==> #[trigger] slot@[j] == (if start <= j < end { frame@[j - start] } else { 0i16 }),
                    decreases FT8_SLOT_SAMPLES - k,
                {
                    if k >= start && k < end {
                        slot.push(frame[k - start]);
                    } else {
                        slot.push(0);
                    }
                    k = k + 1;
                }
                proof {
                    assert(slot@ =~= Seq::new(FT8_SLOT_SAMPLES as nat, |j: int|
                        if start_frame <= j < start_frame + FT8_FRAME_SAMPLES { frame@[j - start_frame] } else { 0i16 }));
                }
                slot
            },
        };
        match PcmBuffer::new(request.format, samples) {
            Ok(b) => Ok(b),
            Err(e) => Err(Ft8WaveformError::Pcm(e)),
        }
    }
}

// ----- merging decoded candidates -----

/// The identities of an optional call, by view.
pub open spec fn call_view(c: Option<FullCallsign>) -> Option<(Seq<char>, Seq<char>)> {
    match c {
        Some(x) => Some(x@),
        None => None,
    }
}

/// Whether two classifications are the same outcome with the same text,
/// explanation and identities.
pub open spec fn same_outcome(a: ClassifiedFt8Message, b: ClassifiedFt8Message) -> bool {
    match (a, b) {
        (ClassifiedFt8Message::Resolved(x), ClassifiedFt8Message::Resolved(y)) =>
            x@.0 == y@.0 && x@.1@ == y@.1@ && call_view(x@.2) == call_view(y@.2) && x@.3 == y@.3,
        (ClassifiedFt8Message::UnresolvedHash(x), ClassifiedFt8Message::UnresolvedHash(y)) => x@ == y@,
        (ClassifiedFt8Message::Unsupported(x), ClassifiedFt8Message::Unsupported(y)) => x@ == y@,
        (ClassifiedFt8Message::Ambiguous(x), ClassifiedFt8Message::Ambiguous(y)) => x@ == y@,
        (ClassifiedFt8Message::FreeText(x), ClassifiedFt8Message::FreeText(y)) => x@ == y@,
        _ => false,
    }
}

/// Whether two decodes report the same message at the same time and frequency.
pub open spec fn same_signal(a: Ft8Decode, b: Ft8Decode) -> bool {
    &&& a.metadata.start_offset_millis == b.metadata.start_offset_millis
    &&& a.metadata.audio_frequency_hz == b.metadata.audio_frequency_hz
    &&& same_outcome(a.message, b.message)
}

fn same_call(a: &FullCallsign, b: &FullCallsign) -> (res: bool)
    ensures
        res == (a@ == b@),
{
    let r = crate::text::str_eq(a.original(), b.original()) && crate::text::str_eq(a.base().as_str(), b.base().as_str());
    proof {
        if r {
            assert(a@ == b@);
        }
    }
    r
}

fn same_optional_call(a: Option<&FullCallsign>, b: Option<&FullCallsign>) -> (res: bool)
    ensures
        res == (match (a, b) {
            (Some(x), Some(y)) => x@ == y@,
            (None, None) => true,
            _ => false,
        }),
{
    match (a, b) {
        (Some(x), Some(y)) => same_call(x, y),
        (None, None) => true,
        _ => false,
    }
}

fn same_message(a: &ClassifiedFt8Message, b: &ClassifiedFt8Message) -> (res: bool)
    ensures
        res == same_outcome(*a, *b),
{
    match (a, b) {
        (ClassifiedFt8Message::Resolved(x), ClassifiedFt8Message::Resolved(y)) => {
            let r = crate::text::str_eq(x.canonical_text(), y.canonical_text()) && same_call(x.sender(), y.sender())
                && same_optional_call(x.recipient(), y.recipient()) && x.class() == y.class();
            proof {
                if r {
                    assert(call_view(x@.2) == call_view(y@.2));
                } else if same_outcome(*a, *b) {
                    assert(x@.0 == y@.0);
                }
            }
            r
        },
        (ClassifiedFt8Message::UnresolvedHash(x), ClassifiedFt8Message::UnresolvedHash(y)) => {
            let r = crate::text::str_eq(x.canonical_text(), y.canonical_text()) && crate::text::str_eq(x.detail(), y.detail());
            proof {
                if r {
                    assert(x@ == y@);
                }
            }
            r
        },
        (ClassifiedFt8Message::Unsupported(x), ClassifiedFt8Message::Unsupported(y)) => {
            let r = crate::text::str_eq(x.canonical_text(), y.canonical_text()) && crate::text::str_eq(x.detail(), y.detail());
            proof {
                if r {
                    assert(x@ == y@);
                }
            }
            r
        },
        (ClassifiedFt8Message::Ambiguous(x), ClassifiedFt8Message::Ambiguous(y)) => {
            let r = crate::text::str_eq(x.canonical_text(), y.canonical_text()) && crate::text::str_eq(x.detail(), y.detail());
            proof {
                if r {
                    assert(x@ == y@);
                }
            }
            r
        },
        (ClassifiedFt8Message::FreeText(x), ClassifiedFt8Message::FreeText(y)) => crate::text::str_eq(x.text(), y.text()),
        _ => false,
    }
}

fn same_signal_exec(a: &Ft8Decode, b: &Ft8Decode) -> (res: bool)
    ensures
        res == same_signal(*a, *b),
{
    a.metadata.start_offset_millis == b.metadata.start_offset_millis
        && a.metadata.audio_frequency_hz == b.metadata.audio_frequency_hz
        && same_message(&a.message, &b.message)
}

proof fn lemma_sorted_remove(s: Seq<Ft8Decode>, j: int)
    requires
        decodes_sorted(s),
        0 <= j < s.len(),
    ensures
        decodes_sorted(s.remove(j)),
{
    let r = s.remove(j);
    assert forall|a: int, b: int| 0 <= a < b < r.len() implies decode_le(#[trigger] r[a], #[trigger] r[b]) by {
        let a0 = if a < j { a } else { a + 1 };
        let b0 = if b < j { b } else { b + 1 };
        assert(r[a] == s[a0] && r[b] == s[b0]);
    }
}

/// Inserts into a sorted sequence after every element that sorts no later.
fn insert_sorted(owned: &mut Vec<Ft8Decode>, x: Ft8Decode) -> (pos: usize)
    requires
        decodes_sorted(old(owned)@),
    ensures
        pos <= old(owned)@.len(),
        final(owned)@ == old(owned)@.insert(pos as int, x),
        decodes_sorted(final(owned)@),
{
    let mut pos: usize = 0;
    while pos < owned.len() && decode_le_exec(&owned[pos], &x)
        invariant
            pos <= owned@.len(),
            owned@ == old(owned)@,
            decodes_sorted(owned@),
            forall|i: int| 0 <= i < pos ==> decode_le(#[trigger] owned@[i], x),
        decreases owned@.len() - pos,
    {
        pos = pos + 1;
    }
    let ghost before = owned@;
    proof {
        if pos < before.len() {
            lemma_decode_le_order(before[pos as int], x, x);
        }
        assert forall|i: int| pos <= i < before.len() implies decode_le(x, #[trigger] before[i]) by {
            lemma_decode_le_order(before[pos as int], x, before[i]);
            lemma_decode_le_order(x, before[pos as int], before[i]);
        }
    }
    owned.insert(pos, x);
    proof {
        let n = owned@;
        assert forall|a: int, b: int| 0 <= a < b < n.len() implies decode_le(#[trigger] n[a], #[trigger] n[b]) by {
            if a < pos && b < pos {
                assert(n[a] == before[a] && n[b] == before[b]);
            } else if a < pos && b == pos {
                assert(n[a] == before[a]);
            } else if a < pos {
                assert(n[a] == before[a] && n[b] == before[b - 1]);
                lemma_decode_le_order(before[a], x, before[b - 1]);
            } else if a == pos {
                assert(n[b] == before[b - 1]);
            } else {
                assert(n[a] == before[a - 1] && n[b] == before[b - 1]);
            }
        }
    }
    pos
}

/// Every candidate is covered by a kept decode of the same signal at least as strong.
pub open spec fn covered(kept: Seq<Ft8Decode>, c: Ft8Decode) -> bool {
    exists|i: int| 0 <= i < kept.len() && same_signal(#[trigger] kept[i], c)
        && kept[i].metadata.signal_to_noise_db >= c.metadata.signal_to_noise_db
}

/// The invariant of a merge after `done` candidates: sorted, one decode per
/// signal, each kept decode a candidate, each seen candidate covered.
pub open spec fn merge_state(owned: Seq<Ft8Decode>, input: Seq<Ft8Decode>, done: int) -> bool {
    &&& decodes_sorted(owned)
    &&& forall|i: int, j: int| 0 <= i < j < owned.len() ==> !same_signal(#[trigger] owned[i], #[trigger] owned[j])
    &&& forall|i: int| 0 <= i < owned.len() ==> input.contains(#[trigger] owned[i])
    &&& forall|k: int| 0 <= k < done ==> covered(owned, #[trigger] input[k])
}

proof fn lemma_merge_add(owned: Seq<Ft8Decode>, n: Seq<Ft8Decode>, pos: int, input: Seq<Ft8Decode>, done: int)
    requires
        0 <= done < input.len(),
        merge_state(owned, input, done),
        0 <= pos <= owned.len(),
        n == owned.insert(pos, input[done]),
        decodes_sorted(n),
        forall|i: int| 0 <= i < owned.len() ==> !same_signal(#[trigger] owned[i], input[done]),
    ensures
        merge_state(n, input, done + 1),
{
    let candidate = input[done];
    assert(n[pos] == candidate);
    assert forall|a: int, b: int| 0 <= a < b < n.len() implies !same_signal(#[trigger] n[a], #[trigger] n[b]) by {
        if a != pos && b != pos {
            let oa = if a < pos { a } else { a - 1 };
            let ob = if b < pos { b } else { b - 1 };
            assert(n[a] == owned[oa] && n[b] == owned[ob]);
        } else if a == pos {
            assert(n[b] == owned[b - 1]);
        } else {
            assert(n[a] == owned[a]);
        }
    }
    assert forall|i: int| 0 <= i < n.len() implies input.contains(#[trigger] n[i]) by {
        if i == pos {
            assert(input[done] == candidate);
        } else {
            let o = if i < pos { i } else { i - 1 };
            assert(n[i] == owned[o]);
        }
    }
    assert forall|k: int| 0 <= k < done + 1 implies covered(n, #[trigger] input[k]) by {
        if k == done {
            assert(same_signal(n[pos], input[k]));
        } else {
            assert(covered(owned, input[k]));
            let w = choose|i: int| 0 <= i < owned.len() && same_signal(#[trigger] owned[i], input[k])
                && owned[i].metadata.signal_to_noise_db >= input[k].metadata.signal_to_noise_db;
            let t = if w < pos { w } else { w + 1 };
            assert(n[t] == owned[w]);
        }
    }
}

proof fn lemma_merge_replace(
    owned: Seq<Ft8Decode>,
    removed: Seq<Ft8Decode>,
    n: Seq<Ft8Decode>,
    j: int,
    pos: int,
    input: Seq<Ft8Decode>,
    done: int,
)
    requires
        0 <= done < input.len(),
        merge_state(owned, input, done),
        0 <= j < owned.len(),
        same_signal(owned[j], input[done]),
        input[done].metadata.signal_to_noise_db > owned[j].metadata.signal_to_noise_db,
        removed == owned.remove(j),
        0 <= pos <= removed.len(),
        n == removed.insert(pos, input[done]),
        decodes_sorted(n),
    ensures
        merge_state(n, input, done + 1),
{
    let candidate = input[done];
    assert(n[pos] == candidate);
    assert forall|a: int, b: int| 0 <= a < b < n.len() implies !same_signal(#[trigger] n[a], #[trigger] n[b]) by {
        let ra = if a < pos { a } else { a - 1 };
        let rb = if b < pos { b } else { b - 1 };
        if a != pos && b != pos {
            let oa = if ra < j { ra } else { ra + 1 };
            let ob = if rb < j { rb } else { rb + 1 };
            assert(n[a] == owned[oa] && n[b] == owned[ob]);
        } else if a == pos {
            let ob = if rb < j { rb } else { rb + 1 };
            assert(n[b] == owned[ob]);
            if same_signal(n[a], n[b]) {
                assert(same_signal(owned[j], owned[ob]));
                if ob < j {
                    assert(!same_signal(owned[ob], owned[j]));
                }
            }
        } else {
            let oa = if ra < j { ra } else { ra + 1 };
            assert(n[a] == owned[oa]);
            if same_signal(n[a], n[b]) {
                assert(same_signal(owned[oa], owned[j]));
                if j < oa {
                    assert(!same_signal(owned[j], owned[oa]));
                }
            }
        }
    }
    assert forall|i: int| 0 <= i < n.len() implies input.contains(#[trigger] n[i]) by {
        if i == pos {
            assert(input[done] == candidate);
        } else {
            let r = if i < pos { i } else { i - 1 };
            let o = if r < j { r } else { r + 1 };
            assert(n[i] == owned[o]);
        }
    }
    assert forall|k: int| 0 <= k < done + 1 implies covered(n, #[trigger] input[k]) by {
        if k == done {
            assert(same_signal(n[pos], input[k]));
        } else {
            assert(covered(owned, input[k]));
            let w = choose|i: int| 0 <= i < owned.len() && same_signal(#[trigger] owned[i], input[k])
                && owned[i].metadata.signal_to_noise_db >= input[k].metadata.signal_to_noise_db;
            if w == j {
                assert(same_signal(n[pos], input[k]));
            } else {
                let r = if w < j { w } else { w - 1 };
                let t = if r < pos { r } else { r + 1 };
                assert(n[t] == owned[w]);
            }
        }
    }
}

/// Keeps, for each signal among decoded candidates, the strongest decode (the
/// first of equally strong ones), in deterministic order.
pub fn merge_decodes(candidates: Vec<Ft8Decode>) -> (res: Vec<Ft8Decode>)
    ensures
        decodes_sorted(res@),
        forall|i: int, j: int| 0 <= i < j < res@.len() ==> !same_signal(#[trigger] res@[i], #[trigger] res@[j]),
        forall|i: int| 0 <= i < res@.len() ==> candidates@.contains(#[trigger] res@[i]),
        forall|k: int| 0 <= k < candidates@.len() ==> covered(res@, #[trigger] candidates@[k]),
{
    let ghost input = candidates@;
    let mut rest = candidates;
    let mut owned: Vec<Ft8Decode> = Vec::new();
    let ghost mut done: int = 0;
    while rest.len() > 0
        invariant
            0 <= done <= input.len(),
            rest@ == input.skip(done),
            merge_state(owned@, input, done),
        decreases rest@.len(),
    {
        proof {
            assert(rest@[0] == input[done]);
        }
        let candidate = rest.remove(0);
        proof {
            assert(rest@ =~= input.skip(done + 1));
        }
        let mut j: usize = 0;
        while j < owned.len() && !same_signal_exec(&owned[j], &candidate)
            invariant
                j <= owned@.len(),
                forall|i: int| 0 <= i < j ==> !same_signal(#[trigger] owned@[i], candidate),
            decreases owned@.len() - j,
        {
            j = j + 1;
        }
        let ghost old_owned = owned@;
        if j < owned.len() {
            if candidate.metadata.signal_to_noise_db > owned[j].metadata.signal_to_noise_db {
                let _ = owned.remove(j);
                proof {
                    lemma_sorted_remove(old_owned, j as int);
                }
                let ghost removed = owned@;
                let pos = insert_sorted(&mut owned, candidate);
                proof {
                    lemma_merge_replace(old_owned, removed, owned@, j as int, pos as int, input, done);
                }
            } else {
                proof {
                    assert(same_signal(old_owned[j as int], input[done]));
                    assert(covered(owned@, input[done]));
                }
            }
        } else {
            let pos = insert_sorted(&mut owned, candidate);
            proof {
                lemma_merge_add(old_owned, owned@, pos as int, input, done);
            }
        }
        proof {
            done = done + 1;
        }
    }
    proof {
        assert(done == input.len());
    }
    owned
}

} // verus!
