//! Offline FT8 protocol contracts: classified messages, deterministic decode
//! ordering, packed bits, and bounded PCM buffers.
//!
//! This module contains no DSP implementation, audio-device access, QSO
//! policy, station command, persistence, scheduling, PTT, or transmit authority.
use vstd::prelude::*;
use crate::domain::callsign::FullCallsign;
use crate::domain::radio::AudioFrequency;
use crate::text::{utf8, printable_text, is_printable_text, bytes_before, bytes_lex_before, lemma_bytes_before_order};

pub mod wave_file;
pub mod offline_adapter;

verus! {

/// Number of information bits in one packed FT8 message.
pub const FT8_MESSAGE_BITS: usize = 77;

/// Nominal duration of an FT8 scheduling slot.
pub const FT8_SLOT_MILLIS: u32 = 15_000;

/// Maximum number of interleaved samples accepted by an owned offline buffer.
pub const MAX_OFFLINE_PCM_SAMPLES: usize = 24_000_000;

/// Maximum bytes of canonical message text.
pub const MAX_CANONICAL_TEXT_BYTES: usize = 64;

/// Maximum bytes of a classification detail.
pub const MAX_DETAIL_BYTES: usize = 128;

/// A supported, resolved FT8 message class without QSO-stage semantics.
#[derive(Debug, Clone, Copy, PartialEq, Eq, Hash, PartialOrd, Ord, Structural)]
pub enum Ft8MessageClass {
    /// A general call such as `CQ K1ABC FN42`.
    GeneralCall,
    /// A directed exchange carrying a Maidenhead grid.
    DirectedGrid,
    /// A directed signal report.
    SignalReport,
    /// A directed roger plus signal report.
    RogerSignalReport,
    /// A directed acknowledgement.
    Roger,
    /// A directed `73` ending.
    Ending73,
    /// A directed `RR73` ending.
    EndingRr73,
}

/// Every class but a general call names a recipient.
pub open spec fn requires_recipient(class: Ft8MessageClass) -> bool {
    !(class is GeneralCall)
}

impl Ft8MessageClass {
    fn requires_recipient(self) -> (res: bool)
        ensures
            res == requires_recipient(self),
    {
        match self {
            Ft8MessageClass::GeneralCall => false,
            _ => true,
        }
    }
}

/// Discriminant for a decoded FT8 outcome.
#[derive(Debug, Clone, Copy, PartialEq, Eq, Hash, PartialOrd, Ord, Structural)]
pub enum Ft8OutcomeKind {
    /// Supported and fully resolved.
    Resolved,
    /// At least one callsign hash is unresolved.
    UnresolvedHash,
    /// Structured but outside the supported matrix.
    Unsupported,
    /// Multiple plausible interpretations remain.
    Ambiguous,
    /// Arbitrary free text.
    FreeText,
}

/// Failure constructing or converting an owned FT8 message.
#[derive(Debug, Clone, PartialEq, Eq, Structural)]
pub enum Ft8MessageError {
    /// Canonical text was empty, non-ASCII, or exceeded the bounded size.
    InvalidCanonicalText,
    /// A general call had a recipient or a directed message lacked one.
    InvalidAddressing,
    /// A bounded explanatory value was empty, non-ASCII, or too long.
    InvalidDetail,
    /// A caller requested a resolved message from a different outcome.
    NotResolved {
        /// Outcome that prevented the checked conversion.
        actual: Ft8OutcomeKind,
    },
}

/// Whether a text is 1 to `max` printable ASCII bytes.
pub open spec fn text_ok(text: Seq<char>, max: nat) -> bool {
    printable_text(utf8(text), max)
}

fn validate_text(value: &str, maximum: usize) -> (res: bool)
    ensures
        res == text_ok(value@, maximum as nat),
{
    is_printable_text(value, maximum)
}

/// A supported FT8 message whose callsign identities are resolved.
#[derive(Debug, PartialEq, Eq)]
pub struct ResolvedFt8Message {
    canonical_text: String,
    sender: FullCallsign,
    recipient: Option<FullCallsign>,
    class: Ft8MessageClass,
}

impl View for ResolvedFt8Message {
    type V = (Seq<char>, FullCallsign, Option<FullCallsign>, Ft8MessageClass);

    closed spec fn view(&self) -> (Seq<char>, FullCallsign, Option<FullCallsign>, Ft8MessageClass) {
        (self.canonical_text@, self.sender, self.recipient, self.class)
    }
}

impl Clone for ResolvedFt8Message {
    fn clone(&self) -> (res: Self)
        ensures
            res@ == self@,
    {
        proof {
            use_type_invariant(self);
        }
        let recipient = match &self.recipient {
            Some(r) => Some(r.clone()),
            None => None,
        };
        ResolvedFt8Message {
            canonical_text: self.canonical_text.clone(),
            sender: self.sender.clone(),
            recipient,
            class: self.class,
        }
    }
}

impl ResolvedFt8Message {
    #[verifier::type_invariant]
    spec fn inv(self) -> bool {
        &&& text_ok(self.canonical_text@, MAX_CANONICAL_TEXT_BYTES as nat)
        &&& requires_recipient(self.class) == self.recipient is Some
    }

    /// Constructs a checked resolved message.
    pub fn new(canonical_text: &str, sender: FullCallsign, recipient: Option<FullCallsign>, class: Ft8MessageClass) -> (res: Result<Self, Ft8MessageError>)
        ensures
            match res {
                Ok(m) => text_ok(canonical_text@, MAX_CANONICAL_TEXT_BYTES as nat)
                    && requires_recipient(class) == recipient is Some
                    && m@ == (canonical_text@, sender, recipient, class),
                Err(e) => if !text_ok(canonical_text@, MAX_CANONICAL_TEXT_BYTES as nat) {
                    e == Ft8MessageError::InvalidCanonicalText
                } else {
                    requires_recipient(class) != recipient is Some && e == Ft8MessageError::InvalidAddressing
                },
            },
    {
        if !validate_text(canonical_text, MAX_CANONICAL_TEXT_BYTES) {
            return Err(Ft8MessageError::InvalidCanonicalText);
        }
        if class.requires_recipient() != recipient.is_some() {
            return Err(Ft8MessageError::InvalidAddressing);
        }
        Ok(ResolvedFt8Message { canonical_text: canonical_text.to_owned(), sender, recipient, class })
    }

    /// Returns the canonical message text.
    pub fn canonical_text(&self) -> (res: &str)
        ensures
            res@ == self@.0,
            text_ok(res@, MAX_CANONICAL_TEXT_BYTES as nat),
    {
        proof {
            use_type_invariant(self);
        }
        self.canonical_text.as_str()
    }

    /// Returns the full sender identity without base-call normalization.
    pub fn sender(&self) -> (res: &FullCallsign)
        ensures
            *res == self@.1,
    {
        &self.sender
    }

    /// Returns the full recipient identity for a directed message.
    pub fn recipient(&self) -> (res: Option<&FullCallsign>)
        ensures
            match res {
                Some(r) => self@.2 == Some(*r),
                None => self@.2 is None,
            },
    {
        match &self.recipient {
            Some(r) => Some(r),
            None => None,
        }
    }

    /// Returns the protocol classification, not a QSO transition.
    pub fn class(&self) -> (res: Ft8MessageClass)
        ensures
            res == self@.3,
            requires_recipient(res) == self@.2 is Some,
    {
        proof {
            use_type_invariant(self);
        }
        self.class
    }
}

/// The outcome of checking a canonical text and a detail.
pub open spec fn text_and_detail_check(text: Seq<char>, detail: Seq<char>) -> Result<(), Ft8MessageError> {
    if !text_ok(text, MAX_CANONICAL_TEXT_BYTES as nat) {
        Err(Ft8MessageError::InvalidCanonicalText)
    } else if !text_ok(detail, MAX_DETAIL_BYTES as nat) {
        Err(Ft8MessageError::InvalidDetail)
    } else {
        Ok(())
    }
}

fn check_text_and_detail(text: &str, detail: &str) -> (res: Result<(), Ft8MessageError>)
    ensures
        res == text_and_detail_check(text@, detail@),
{
    if !validate_text(text, MAX_CANONICAL_TEXT_BYTES) {
        return Err(Ft8MessageError::InvalidCanonicalText);
    }
    if !validate_text(detail, MAX_DETAIL_BYTES) {
        return Err(Ft8MessageError::InvalidDetail);
    }
    Ok(())
}

/// A decoded message containing at least one unresolved callsign hash.
#[derive(Debug, PartialEq, Eq)]
pub struct UnresolvedHashFt8Message {
    canonical_text: String,
    detail: String,
}

impl View for UnresolvedHashFt8Message {
    type V = (Seq<char>, Seq<char>);

    closed spec fn view(&self) -> (Seq<char>, Seq<char>) {
        (self.canonical_text@, self.detail@)
    }
}

impl Clone for UnresolvedHashFt8Message {
    fn clone(&self) -> (res: Self)
        ensures
            res@ == self@,
    {
        proof {
            use_type_invariant(self);
        }
        UnresolvedHashFt8Message { canonical_text: self.canonical_text.clone(), detail: self.detail.clone() }
    }
}

impl UnresolvedHashFt8Message {
    #[verifier::type_invariant]
    spec fn inv(self) -> bool {
        text_and_detail_check(self.canonical_text@, self.detail@) == Ok::<(), Ft8MessageError>(())
    }

    /// Constructs a bounded unresolved-hash outcome.
    pub fn new(canonical_text: &str, detail: &str) -> (res: Result<Self, Ft8MessageError>)
        ensures
            match res {
                Ok(m) => text_and_detail_check(canonical_text@, detail@) == Ok::<(), Ft8MessageError>(())
                    && m@ == (canonical_text@, detail@),
                Err(e) => text_and_detail_check(canonical_text@, detail@) == Err::<(), Ft8MessageError>(e),
            },
    {
        match check_text_and_detail(canonical_text, detail) {
            Ok(()) => Ok(UnresolvedHashFt8Message { canonical_text: canonical_text.to_owned(), detail: detail.to_owned() }),
            Err(e) => Err(e),
        }
    }

    /// Returns the canonical decoded text, including unresolved notation.
    pub fn canonical_text(&self) -> (res: &str)
        ensures
            res@ == self@.0,
            text_ok(res@, MAX_CANONICAL_TEXT_BYTES as nat),
    {
        proof {
            use_type_invariant(self);
        }
        self.canonical_text.as_str()
    }

    /// Returns a stable owned explanation of what remains unresolved.
    pub fn detail(&self) -> (res: &str)
        ensures
            res@ == self@.1,
    {
        self.detail.as_str()
    }
}

/// A decoded structured FT8 message outside the supported matrix.
#[derive(Debug, PartialEq, Eq)]
pub struct UnsupportedFt8Message {
    canonical_text: String,
    detail: String,
}

impl View for UnsupportedFt8Message {
    type V = (Seq<char>, Seq<char>);

    closed spec fn view(&self) -> (Seq<char>, Seq<char>) {
        (self.canonical_text@, self.detail@)
    }
}

impl Clone for UnsupportedFt8Message {
    fn clone(&self) -> (res: Self)
        ensures
            res@ == self@,
    {
        proof {
            use_type_invariant(self);
        }
        UnsupportedFt8Message { canonical_text: self.canonical_text.clone(), detail: self.detail.clone() }
    }
}

impl UnsupportedFt8Message {
    #[verifier::type_invariant]
    spec fn inv(self) -> bool {
        text_and_detail_check(self.canonical_text@, self.detail@) == Ok::<(), Ft8MessageError>(())
    }

    /// Constructs a bounded unsupported-structured outcome.
    pub fn new(canonical_text: &str, detail: &str) -> (res: Result<Self, Ft8MessageError>)
        ensures
            match res {
                Ok(m) => text_and_detail_check(canonical_text@, detail@) == Ok::<(), Ft8MessageError>(())
                    && m@ == (canonical_text@, detail@),
                Err(e) => text_and_detail_check(canonical_text@, detail@) == Err::<(), Ft8MessageError>(e),
            },
    {
        match check_text_and_detail(canonical_text, detail) {
            Ok(()) => Ok(UnsupportedFt8Message { canonical_text: canonical_text.to_owned(), detail: detail.to_owned() }),
            Err(e) => Err(e),
        }
    }

    /// Returns the canonical decoded text.
    pub fn canonical_text(&self) -> (res: &str)
        ensures
            res@ == self@.0,
            text_ok(res@, MAX_CANONICAL_TEXT_BYTES as nat),
    {
        proof {
            use_type_invariant(self);
        }
        self.canonical_text.as_str()
    }

    /// Returns a stable owned explanation of the unsupported structure.
    pub fn detail(&self) -> (res: &str)
        ensures
            res@ == self@.1,
    {
        self.detail.as_str()
    }
}

/// A decoded FT8 payload with multiple plausible owned interpretations.
#[derive(Debug, PartialEq, Eq)]
pub struct AmbiguousFt8Message {
    canonical_text: String,
    detail: String,
}

impl View for AmbiguousFt8Message {
    type V = (Seq<char>, Seq<char>);

    closed spec fn view(&self) -> (Seq<char>, Seq<char>) {
        (self.canonical_text@, self.detail@)
    }
}

impl Clone for AmbiguousFt8Message {
    fn clone(&self) -> (res: Self)
        ensures
            res@ == self@,
    {
        proof {
            use_type_invariant(self);
        }
        AmbiguousFt8Message { canonical_text: self.canonical_text.clone(), detail: self.detail.clone() }
    }
}

impl AmbiguousFt8Message {
    #[verifier::type_invariant]
    spec fn inv(self) -> bool {
        text_and_detail_check(self.canonical_text@, self.detail@) == Ok::<(), Ft8MessageError>(())
    }

    /// Constructs a bounded ambiguous outcome.
    pub fn new(canonical_text: &str, detail: &str) -> (res: Result<Self, Ft8MessageError>)
        ensures
            match res {
                Ok(m) => text_and_detail_check(canonical_text@, detail@) == Ok::<(), Ft8MessageError>(())
                    && m@ == (canonical_text@, detail@),
                Err(e) => text_and_detail_check(canonical_text@, detail@) == Err::<(), Ft8MessageError>(e),
            },
    {
        match check_text_and_detail(canonical_text, detail) {
            Ok(()) => Ok(AmbiguousFt8Message { canonical_text: canonical_text.to_owned(), detail: detail.to_owned() }),
            Err(e) => Err(e),
        }
    }

    /// Returns the canonical decoded text.
    pub fn canonical_text(&self) -> (res: &str)
        ensures
            res@ == self@.0,
            text_ok(res@, MAX_CANONICAL_TEXT_BYTES as nat),
    {
        proof {
            use_type_invariant(self);
        }
        self.canonical_text.as_str()
    }

    /// Returns a stable owned explanation of the ambiguity.
    pub fn detail(&self) -> (res: &str)
        ensures
            res@ == self@.1,
    {
        self.detail.as_str()
    }
}

/// Free text decoded from the FT8 payload.
#[derive(Debug, PartialEq, Eq)]
pub struct FreeTextFt8Message(String);

impl View for FreeTextFt8Message {
    type V = Seq<char>;

    closed spec fn view(&self) -> Seq<char> {
        self.0@
    }
}

impl Clone for FreeTextFt8Message {
    fn clone(&self) -> (res: Self)
        ensures
            res@ == self@,
    {
        proof {
            use_type_invariant(self);
        }
        FreeTextFt8Message(self.0.clone())
    }
}

impl FreeTextFt8Message {
    #[verifier::type_invariant]
    spec fn inv(self) -> bool {
        text_ok(self.0@, MAX_CANONICAL_TEXT_BYTES as nat)
    }

    /// Constructs bounded printable free text.
    pub fn new(text: &str) -> (res: Result<Self, Ft8MessageError>)
        ensures
            match res {
                Ok(m) => text_ok(text@, MAX_CANONICAL_TEXT_BYTES as nat) && m@ == text@,
                Err(e) => !text_ok(text@, MAX_CANONICAL_TEXT_BYTES as nat) && e == Ft8MessageError::InvalidCanonicalText,
            },
    {
        if !validate_text(text, MAX_CANONICAL_TEXT_BYTES) {
            return Err(Ft8MessageError::InvalidCanonicalText);
        }
        Ok(FreeTextFt8Message(text.to_owned()))
    }

    /// Returns the decoded free text.
    pub fn text(&self) -> (res: &str)
        ensures
            res@ == self@,
            text_ok(res@, MAX_CANONICAL_TEXT_BYTES as nat),
    {
        proof {
            use_type_invariant(self);
        }
        self.0.as_str()
    }
}

/// Mutually exclusive owned FT8 decode classifications.
#[derive(Debug, Clone, PartialEq, Eq)]
pub enum ClassifiedFt8Message {
    /// Supported and fully resolved.
    Resolved(ResolvedFt8Message),
    /// At least one callsign hash is unresolved.
    UnresolvedHash(UnresolvedHashFt8Message),
    /// Structured but outside the supported matrix.
    Unsupported(UnsupportedFt8Message),
    /// Multiple plausible interpretations remain.
    Ambiguous(AmbiguousFt8Message),
    /// Arbitrary free text.
    FreeText(FreeTextFt8Message),
}

/// The outcome discriminant of a classification.
pub open spec fn outcome_kind(m: ClassifiedFt8Message) -> Ft8OutcomeKind {
    match m {
        ClassifiedFt8Message::Resolved(_) => Ft8OutcomeKind::Resolved,
        ClassifiedFt8Message::UnresolvedHash(_) => Ft8OutcomeKind::UnresolvedHash,
        ClassifiedFt8Message::Unsupported(_) => Ft8OutcomeKind::Unsupported,
        ClassifiedFt8Message::Ambiguous(_) => Ft8OutcomeKind::Ambiguous,
        ClassifiedFt8Message::FreeText(_) => Ft8OutcomeKind::FreeText,
    }
}

/// The canonical text carried by a classification.
pub open spec fn canonical_text_of(m: ClassifiedFt8Message) -> Seq<char> {
    match m {
        ClassifiedFt8Message::Resolved(x) => x@.0,
        ClassifiedFt8Message::UnresolvedHash(x) => x@.0,
        ClassifiedFt8Message::Unsupported(x) => x@.0,
        ClassifiedFt8Message::Ambiguous(x) => x@.0,
        ClassifiedFt8Message::FreeText(x) => x@,
    }
}

impl ClassifiedFt8Message {
    /// Returns the outcome discriminant.
    pub fn kind(&self) -> (res: Ft8OutcomeKind)
        ensures
            res == outcome_kind(*self),
    {
        match self {
            ClassifiedFt8Message::Resolved(_) => Ft8OutcomeKind::Resolved,
            ClassifiedFt8Message::UnresolvedHash(_) => Ft8OutcomeKind::UnresolvedHash,
            ClassifiedFt8Message::Unsupported(_) => Ft8OutcomeKind::Unsupported,
            ClassifiedFt8Message::Ambiguous(_) => Ft8OutcomeKind::Ambiguous,
            ClassifiedFt8Message::FreeText(_) => Ft8OutcomeKind::FreeText,
        }
    }

    /// Returns the owned canonical text for deterministic comparison.
    pub fn canonical_text(&self) -> (res: &str)
        ensures
            res@ == canonical_text_of(*self),
            text_ok(res@, MAX_CANONICAL_TEXT_BYTES as nat),
    {
        match self {
            ClassifiedFt8Message::Resolved(message) => message.canonical_text(),
            ClassifiedFt8Message::UnresolvedHash(message) => message.canonical_text(),
            ClassifiedFt8Message::Unsupported(message) => message.canonical_text(),
            ClassifiedFt8Message::Ambiguous(message) => message.canonical_text(),
            ClassifiedFt8Message::FreeText(message) => message.text(),
        }
    }

    /// Performs the explicit checked conversion required by automatic consumers.
    pub fn try_into_resolved(self) -> (res: Result<ResolvedFt8Message, Ft8MessageError>)
        ensures
            match self {
                ClassifiedFt8Message::Resolved(m) => res == Ok::<ResolvedFt8Message, Ft8MessageError>(m),
                _ => res == Err::<ResolvedFt8Message, Ft8MessageError>(Ft8MessageError::NotResolved { actual: outcome_kind(self) }),
            },
    {
        let actual = self.kind();
        match self {
            ClassifiedFt8Message::Resolved(message) => Ok(message),
            _ => Err(Ft8MessageError::NotResolved { actual }),
        }
    }
}

/// Explicit metadata for one offline FT8 decode.
#[derive(Debug, Clone, Copy, PartialEq, Eq, Structural)]
pub struct Ft8DecodeMetadata {
    /// Start offset from the beginning of the supplied PCM window.
    pub start_offset_millis: i32,
    /// Audio-frequency offset in integer hertz.
    pub audio_frequency_hz: u32,
    /// Decoder-reported signal-to-noise ratio in integer decibels.
    pub signal_to_noise_db: i16,
}

/// One owned offline FT8 decode result.
#[derive(Debug, Clone, PartialEq, Eq)]
pub struct Ft8Decode {
    /// Explicit signal metadata.
    pub metadata: Ft8DecodeMetadata,
    /// Checked protocol classification.
    pub message: ClassifiedFt8Message,
}

/// The ordering rank of an outcome discriminant, in declaration order.
pub open spec fn kind_rank(k: Ft8OutcomeKind) -> int {
    match k {
        Ft8OutcomeKind::Resolved => 0,
        Ft8OutcomeKind::UnresolvedHash => 1,
        Ft8OutcomeKind::Unsupported => 2,
        Ft8OutcomeKind::Ambiguous => 3,
        Ft8OutcomeKind::FreeText => 4,
    }
}

/// Whether `x` sorts no later than `y`: by time, frequency, text,
/// classification, then SNR.
pub open spec fn decode_le(x: Ft8Decode, y: Ft8Decode) -> bool {
    let tx = utf8(canonical_text_of(x.message));
    let ty = utf8(canonical_text_of(y.message));
    let kx = kind_rank(outcome_kind(x.message));
    let ky = kind_rank(outcome_kind(y.message));
    if x.metadata.start_offset_millis != y.metadata.start_offset_millis {
        x.metadata.start_offset_millis < y.metadata.start_offset_millis
    } else if x.metadata.audio_frequency_hz != y.metadata.audio_frequency_hz {
        x.metadata.audio_frequency_hz < y.metadata.audio_frequency_hz
    } else if tx != ty {
        bytes_before(tx, ty)
    } else if kx != ky {
        kx < ky
    } else {
        x.metadata.signal_to_noise_db <= y.metadata.signal_to_noise_db
    }
}

/// The decode order is total and transitive.
pub proof fn lemma_decode_le_order(x: Ft8Decode, y: Ft8Decode, z: Ft8Decode)
    ensures
        decode_le(x, y) || decode_le(y, x),
        decode_le(x, y) && decode_le(y, z) ==> decode_le(x, z),
{
    let tx = utf8(canonical_text_of(x.message));
    let ty = utf8(canonical_text_of(y.message));
    let tz = utf8(canonical_text_of(z.message));
    lemma_bytes_before_order(tx, ty, tz);
    lemma_bytes_before_order(ty, tx, tz);
    lemma_bytes_before_order(tx, tz, ty);
}

/// Whether a sequence of decodes is in deterministic order.
pub open spec fn decodes_sorted(s: Seq<Ft8Decode>) -> bool {
    forall|i: int, j: int| 0 <= i < j < s.len() ==> decode_le(#[trigger] s[i], #[trigger] s[j])
}

pub(crate) fn decode_le_exec(x: &Ft8Decode, y: &Ft8Decode) -> (res: bool)
    ensures
        res == decode_le(*x, *y),
{
    if x.metadata.start_offset_millis != y.metadata.start_offset_millis {
        return x.metadata.start_offset_millis < y.metadata.start_offset_millis;
    }
    if x.metadata.audio_frequency_hz != y.metadata.audio_frequency_hz {
        return x.metadata.audio_frequency_hz < y.metadata.audio_frequency_hz;
    }
    let tx = x.message.canonical_text().as_bytes();
    let ty = y.message.canonical_text().as_bytes();
    if !crate::text::bytes_eq(tx, ty) {
        return bytes_lex_before(tx, ty);
    }
    let kx = kind_rank_exec(x.message.kind());
    let ky = kind_rank_exec(y.message.kind());
    if kx != ky {
        return kx < ky;
    }
    x.metadata.signal_to_noise_db <= y.metadata.signal_to_noise_db
}

fn kind_rank_exec(k: Ft8OutcomeKind) -> (res: u8)
    ensures
        res == kind_rank(k),
{
    match k {
        Ft8OutcomeKind::Resolved => 0,
        Ft8OutcomeKind::UnresolvedHash => 1,
        Ft8OutcomeKind::Unsupported => 2,
        Ft8OutcomeKind::Ambiguous => 3,
        Ft8OutcomeKind::FreeText => 4,
    }
}

impl Ft8Decode {
    /// Sorts results by time, frequency, text, classification, then SNR.
    ///
    /// This ordering is independent of upstream container or worker order.
    pub fn sort_deterministically(results: &mut Vec<Ft8Decode>)
        ensures
            final(results)@.to_multiset() == old(results)@.to_multiset(),
            decodes_sorted(final(results)@),
    {
        broadcast use vstd::seq_lib::group_to_multiset_ensures;
        let mut remaining: Vec<Ft8Decode> = Vec::new();
        std::mem::swap(&mut remaining, results);
        let ghost original = remaining@;
        let mut sorted: Vec<Ft8Decode> = Vec::new();
        while remaining.len() > 0
            invariant
                sorted@.to_multiset().add(remaining@.to_multiset()) == original.to_multiset(),
                decodes_sorted(sorted@),
                forall|i: int, j: int| 0 <= i < sorted@.len() && 0 <= j < remaining@.len() ==> decode_le(#[trigger] sorted@[i], #[trigger] remaining@[j]),
            decreases remaining@.len(),
        {
            let mut min: usize = 0;
            let mut k: usize = 1;
            while k < remaining.len()
                invariant
                    0 <= min < remaining@.len(),
                    1 <= k <= remaining@.len(),
                    forall|j: int| 0 <= j < k ==> decode_le(remaining@[min as int], #[trigger] remaining@[j]),
                decreases remaining@.len() - k,
            {
                if !decode_le_exec(&remaining[min], &remaining[k]) {
                    proof {
                        assert forall|j: int| 0 <= j <= k implies decode_le(remaining@[k as int], #[trigger] remaining@[j]) by {
                            lemma_decode_le_order(remaining@[k as int], remaining@[min as int], remaining@[j]);
                            lemma_decode_le_order(remaining@[j], remaining@[k as int], remaining@[k as int]);
                        }
                    }
                    min = k;
                }
                k = k + 1;
            }
            let ghost before = remaining@;
            let item = remaining.remove(min);
            proof {
                vstd::seq_lib::to_multiset_remove(before, min as int);
                assert forall|i: int, j: int| 0 <= i < sorted@.len() && 0 <= j < remaining@.len() implies decode_le(#[trigger] sorted@[i], #[trigger] remaining@[j]) by {
                    if j < min {
                        assert(remaining@[j] == before[j]);
                    } else {
                        assert(remaining@[j] == before[j + 1]);
                    }
                }
            }
            let ghost sorted_before = sorted@;
            sorted.push(item);
            proof {
                assert forall|i: int, j: int| 0 <= i < j < sorted@.len() implies decode_le(#[trigger] sorted@[i], #[trigger] sorted@[j]) by {
                    if j == sorted@.len() - 1 {
                        assert(sorted@[j] == before[min as int]);
                        assert(sorted@[i] == sorted_before[i]);
                    } else {
                        assert(sorted@[i] == sorted_before[i]);
                        assert(sorted@[j] == sorted_before[j]);
                    }
                }
                assert forall|i: int, j: int| 0 <= i < sorted@.len() && 0 <= j < remaining@.len() implies decode_le(#[trigger] sorted@[i], #[trigger] remaining@[j]) by {
                    if i == sorted@.len() - 1 {
                        if j < min {
                            assert(remaining@[j] == before[j]);
                        } else {
                            assert(remaining@[j] == before[j + 1]);
                        }
                    } else {
                        assert(sorted@[i] == sorted_before[i]);
                    }
                }
                vstd::seq_lib::to_multiset_build(sorted_before, item);
                assert(sorted@ == sorted_before.push(item));
                assert(before.contains(item)) by {
                    assert(before[min as int] == item);
                }
                vstd::seq_lib::to_multiset_contains(before, item);
                broadcast use vstd::multiset::group_multiset_axioms;
                assert(sorted@.to_multiset().add(remaining@.to_multiset()) =~= original.to_multiset());
            }
        }
        *results = sorted;
    }
}


/// Owned packed FT8 information bits.
#[derive(Debug, Clone, PartialEq, Eq)]
pub struct PackedFt8Bits([bool; 77]);

impl View for PackedFt8Bits {
    type V = Seq<bool>;

    closed spec fn view(&self) -> Seq<bool> {
        self.0@
    }
}

impl PackedFt8Bits {
    /// Constructs a packed FT8 bit vector.
    pub fn new(bits: [bool; 77]) -> (res: Self)
        ensures
            res@ == bits@,
    {
        PackedFt8Bits(bits)
    }

    /// Returns the 77 information bits in transmission order.
    pub fn bits(&self) -> (res: &[bool; 77])
        ensures
            res@ == self@,
    {
        &self.0
    }
}

/// Request to pack a supported resolved FT8 message.
#[derive(Debug, Clone, PartialEq, Eq)]
pub struct Ft8EncodeRequest {
    /// Message eligible for protocol encoding, not automatic transition.
    pub message: ResolvedFt8Message,
}

/// Request to unpack one owned 77-bit FT8 payload.
#[derive(Debug, Clone, PartialEq, Eq)]
pub struct Ft8DecodeBitsRequest {
    /// Dependency-independent packed information bits.
    pub bits: PackedFt8Bits,
}

/// Typed FT8 message-codec failure.
#[derive(Debug, Clone, PartialEq, Eq)]
pub enum Ft8CodecError {
    /// The resolved message is not representable by the pinned codec.
    NotRepresentable {
        /// Stable owned explanation.
        detail: String,
    },
    /// The packed payload could not be classified safely.
    InvalidPackedMessage {
        /// Stable owned explanation.
        detail: String,
    },
    /// The private adapter failed without a safe classified result.
    Adapter {
        /// Stable owned explanation.
        detail: String,
    },
}

/// A bounded explanatory detail, owned.
fn bounded_detail(detail: &str) -> (res: Result<String, Ft8MessageError>)
    ensures
        match res {
            Ok(d) => text_ok(detail@, MAX_DETAIL_BYTES as nat) && d@ == detail@,
            Err(e) => !text_ok(detail@, MAX_DETAIL_BYTES as nat) && e == Ft8MessageError::InvalidDetail,
        },
{
    if !validate_text(detail, MAX_DETAIL_BYTES) {
        return Err(Ft8MessageError::InvalidDetail);
    }
    Ok(detail.to_owned())
}

impl Ft8CodecError {
    /// Constructs a bounded not-representable failure.
    pub fn not_representable(detail: &str) -> (res: Result<Self, Ft8MessageError>)
        ensures
            match res {
                Ok(e) => text_ok(detail@, MAX_DETAIL_BYTES as nat) && (e matches Ft8CodecError::NotRepresentable { detail: d } && d@ == detail@),
                Err(e) => !text_ok(detail@, MAX_DETAIL_BYTES as nat) && e == Ft8MessageError::InvalidDetail,
            },
    {
        match bounded_detail(detail) {
            Ok(detail) => Ok(Ft8CodecError::NotRepresentable { detail }),
            Err(e) => Err(e),
        }
    }

    /// Constructs a bounded invalid-payload failure.
    pub fn invalid_packed_message(detail: &str) -> (res: Result<Self, Ft8MessageError>)
        ensures
            match res {
                Ok(e) => text_ok(detail@, MAX_DETAIL_BYTES as nat) && (e matches Ft8CodecError::InvalidPackedMessage { detail: d } && d@ == detail@),
                Err(e) => !text_ok(detail@, MAX_DETAIL_BYTES as nat) && e == Ft8MessageError::InvalidDetail,
            },
    {
        match bounded_detail(detail) {
            Ok(detail) => Ok(Ft8CodecError::InvalidPackedMessage { detail }),
            Err(e) => Err(e),
        }
    }

    /// Constructs a bounded private-adapter failure.
    pub fn adapter(detail: &str) -> (res: Result<Self, Ft8MessageError>)
        ensures
            match res {
                Ok(e) => text_ok(detail@, MAX_DETAIL_BYTES as nat) && (e matches Ft8CodecError::Adapter { detail: d } && d@ == detail@),
                Err(e) => !text_ok(detail@, MAX_DETAIL_BYTES as nat) && e == Ft8MessageError::InvalidDetail,
            },
    {
        match bounded_detail(detail) {
            Ok(detail) => Ok(Ft8CodecError::Adapter { detail }),
            Err(e) => Err(e),
        }
    }
}

/// Owned FT8 message packing and unpacking boundary.
pub trait Ft8MessageCodec {
    /// Packs one supported resolved message.
    fn encode(&self, request: &Ft8EncodeRequest) -> Result<PackedFt8Bits, Ft8CodecError>;

    /// Unpacks and classifies one 77-bit payload.
    fn decode_bits(&self, request: &Ft8DecodeBitsRequest) -> Result<ClassifiedFt8Message, Ft8CodecError>;
}

/// Signed 16-bit interleaved PCM, with byte order explicit for file adapters.
#[derive(Debug, Clone, Copy, PartialEq, Eq, Hash, Structural)]
pub enum PcmSampleFormat {
    /// Signed little-endian 16-bit PCM.
    Signed16LittleEndian,
}

/// Failure validating offline PCM metadata or contents.
#[derive(Debug, Clone, Copy, PartialEq, Eq, Structural)]
pub enum PcmError {
    /// The sample rate was zero or outside the offline safety bound.
    InvalidSampleRate,
    /// Channel count was zero or outside the offline safety bound.
    InvalidChannelCount,
    /// Interleaved samples did not contain complete frames.
    IncompleteFrame,
    /// The buffer exceeded the bounded offline sample count.
    BufferTooLarge,
}

/// Largest offline PCM sample rate.
pub const MAX_OFFLINE_PCM_SAMPLE_RATE_HZ: u32 = 384_000;
/// Largest offline PCM channel count.
pub const MAX_OFFLINE_PCM_CHANNELS: u16 = 8;

/// The outcome of checking offline PCM metadata.
pub open spec fn pcm_format_check(rate: u32, channels: u16) -> Result<(), PcmError> {
    if !(1 <= rate <= MAX_OFFLINE_PCM_SAMPLE_RATE_HZ) {
        Err(PcmError::InvalidSampleRate)
    } else if !(1 <= channels <= MAX_OFFLINE_PCM_CHANNELS) {
        Err(PcmError::InvalidChannelCount)
    } else {
        Ok(())
    }
}

/// Explicit format of an offline interleaved PCM buffer.
#[derive(Debug, Clone, Copy, PartialEq, Eq, Hash, Structural)]
pub struct PcmFormat {
    sample_rate_hz: u32,
    channels: u16,
    sample_format: PcmSampleFormat,
}

impl View for PcmFormat {
    type V = (u32, u16, PcmSampleFormat);

    closed spec fn view(&self) -> (u32, u16, PcmSampleFormat) {
        (self.sample_rate_hz, self.channels, self.sample_format)
    }
}

impl PcmFormat {
    #[verifier::type_invariant]
    spec fn inv(self) -> bool {
        pcm_format_check(self.sample_rate_hz, self.channels) == Ok::<(), PcmError>(())
    }

    /// Every format carries a supported rate and channel count.
    pub fn lemma_wf(self)
        ensures
            pcm_format_check(self@.0, self@.1) == Ok::<(), PcmError>(()),
    {
        proof {
            use_type_invariant(&self);
        }
    }

    /// Constructs checked offline PCM metadata.
    pub fn new(sample_rate_hz: u32, channels: u16, sample_format: PcmSampleFormat) -> (res: Result<Self, PcmError>)
        ensures
            match res {
                Ok(f) => pcm_format_check(sample_rate_hz, channels) == Ok::<(), PcmError>(())
                    && f@ == (sample_rate_hz, channels, sample_format),
                Err(e) => pcm_format_check(sample_rate_hz, channels) == Err::<(), PcmError>(e),
            },
    {
        if sample_rate_hz < 1 || sample_rate_hz > MAX_OFFLINE_PCM_SAMPLE_RATE_HZ {
            return Err(PcmError::InvalidSampleRate);
        }
        if channels < 1 || channels > MAX_OFFLINE_PCM_CHANNELS {
            return Err(PcmError::InvalidChannelCount);
        }
        Ok(PcmFormat { sample_rate_hz, channels, sample_format })
    }

    /// Returns the sample rate in frames per second.
    pub fn sample_rate_hz(self) -> (res: u32)
        ensures
            res == self@.0,
            1 <= res <= MAX_OFFLINE_PCM_SAMPLE_RATE_HZ,
    {
        proof {
            use_type_invariant(&self);
        }
        self.sample_rate_hz
    }

    /// Returns the number of interleaved channels.
    pub fn channels(self) -> (res: u16)
        ensures
            res == self@.1,
            1 <= res <= MAX_OFFLINE_PCM_CHANNELS,
    {
        proof {
            use_type_invariant(&self);
        }
        self.channels
    }

    /// Returns the explicit sample representation.
    pub fn sample_format(self) -> (res: PcmSampleFormat)
        ensures
            res == self@.2,
    {
        self.sample_format
    }
}

/// Explicit duration metadata derived from complete PCM frames.
#[derive(Debug, Clone, Copy, PartialEq, Eq, Hash, Structural)]
pub struct PcmDuration {
    frames: u32,
    microseconds: u64,
}

impl View for PcmDuration {
    type V = (u32, u64);

    closed spec fn view(&self) -> (u32, u64) {
        (self.frames, self.microseconds)
    }
}

impl PcmDuration {
    /// Returns complete sample frames per channel.
    pub fn frames(self) -> (res: u32)
        ensures
            res == self@.0,
    {
        self.frames
    }

    /// Returns the truncated duration in integer microseconds.
    pub fn microseconds(self) -> (res: u64)
        ensures
            res == self@.1,
    {
        self.microseconds
    }
}

/// The outcome of checking interleaved samples against a format.
pub open spec fn pcm_buffer_check(len: nat, channels: u16) -> Result<(), PcmError> {
    if len > MAX_OFFLINE_PCM_SAMPLES {
        Err(PcmError::BufferTooLarge)
    } else if len % (channels as nat) != 0 {
        Err(PcmError::IncompleteFrame)
    } else {
        Ok(())
    }
}

/// The duration of `len` interleaved samples in a format.
pub open spec fn pcm_duration_of(len: nat, format: (u32, u16, PcmSampleFormat)) -> (u32, u64) {
    let frames = len / (format.1 as nat);
    (frames as u32, (frames * 1_000_000 / (format.0 as nat)) as u64)
}

/// Bounded owned offline PCM samples and explicit metadata.
#[derive(Debug, PartialEq, Eq)]
pub struct PcmBuffer {
    format: PcmFormat,
    duration: PcmDuration,
    samples: Vec<i16>,
}

impl Clone for PcmBuffer {
    fn clone(&self) -> (res: Self)
        ensures
            res@ == self@,
    {
        proof {
            use_type_invariant(self);
        }
        PcmBuffer { format: self.format, duration: self.duration, samples: self.samples.clone() }
    }
}

impl View for PcmBuffer {
    type V = ((u32, u16, PcmSampleFormat), (u32, u64), Seq<i16>);

    closed spec fn view(&self) -> ((u32, u16, PcmSampleFormat), (u32, u64), Seq<i16>) {
        (self.format@, self.duration@, self.samples@)
    }
}

impl PcmBuffer {
    #[verifier::type_invariant]
    spec fn inv(self) -> bool {
        &&& pcm_buffer_check(self.samples@.len(), self.format@.1) == Ok::<(), PcmError>(())
        &&& self.duration@ == pcm_duration_of(self.samples@.len(), self.format@)
    }

    /// Every buffer holds complete frames within the offline bound.
    pub fn lemma_wf(&self)
        ensures
            pcm_buffer_check(self@.2.len(), self@.0.1) == Ok::<(), PcmError>(()),
            self@.1 == pcm_duration_of(self@.2.len(), self@.0),
            pcm_format_check(self@.0.0, self@.0.1) == Ok::<(), PcmError>(()),
    {
        proof {
            use_type_invariant(self);
            use_type_invariant(&self.format);
        }
    }

    /// Constructs and validates a complete interleaved PCM buffer.
    pub fn new(format: PcmFormat, samples: Vec<i16>) -> (res: Result<Self, PcmError>)
        ensures
            match res {
                Ok(b) => pcm_buffer_check(samples@.len(), format@.1) == Ok::<(), PcmError>(())
                    && b@ == (format@, pcm_duration_of(samples@.len(), format@), samples@),
                Err(e) => pcm_buffer_check(samples@.len(), format@.1) == Err::<(), PcmError>(e),
            },
    {
        if samples.len() > MAX_OFFLINE_PCM_SAMPLES {
            return Err(PcmError::BufferTooLarge);
        }
        let channels = format.channels() as usize;
        if samples.len() % channels != 0 {
            return Err(PcmError::IncompleteFrame);
        }
        let frames = samples.len() / channels;
        assert(frames <= samples.len()) by (nonlinear_arith)
            requires
                channels >= 1,
                frames == samples.len() / channels,
        ;
        let frames: u32 = frames as u32;
        let microseconds: u64 = (frames as u64) * 1_000_000 / (format.sample_rate_hz() as u64);
        Ok(PcmBuffer { format, duration: PcmDuration { frames, microseconds }, samples })
    }


    /// Returns the explicit PCM format.
    pub fn format(&self) -> (res: PcmFormat)
        ensures
            res@ == self@.0,
    {
        self.format
    }

    /// Returns duration derived from complete frames.
    pub fn duration(&self) -> (res: PcmDuration)
        ensures
            res@ == self@.1,
    {
        self.duration
    }

    /// Returns interleaved signed samples.
    pub fn samples(&self) -> (res: &[i16])
        ensures
            res@ == self@.2,
    {
        self.samples.as_slice()
    }
}

/// Waveform placement within a purely offline FT8 buffer.
#[derive(Debug, Clone, Copy, PartialEq, Eq, Hash, Structural)]
pub enum Ft8WaveformPlacement {
    /// Return only the encoded FT8 frame.
    FrameOnly,
    /// Place the frame at an explicit offset in a nominal 15-second buffer.
    FullSlot {
        /// Silent samples before the frame, per channel.
        start_frame: u32,
    },
}

/// Validated relative amplitude in per-mille of signed PCM full scale.
#[derive(Debug, Clone, Copy, PartialEq, Eq, Hash, Structural)]
pub struct PcmAmplitudePermille(u16);

impl View for PcmAmplitudePermille {
    type V = u16;

    closed spec fn view(&self) -> u16 {
        self.0
    }
}

impl PcmAmplitudePermille {
    #[verifier::type_invariant]
    spec fn inv(self) -> bool {
        1 <= self.0 <= 1_000
    }

    /// Constructs an amplitude from 1 through 1,000 per-mille.
    pub fn new(value: u16) -> (res: Result<Self, Ft8WaveformError>)
        ensures
            match res {
                Ok(a) => 1 <= value <= 1_000 && a@ == value,
                Err(e) => !(1 <= value <= 1_000) && e == Ft8WaveformError::InvalidAmplitude,
            },
    {
        if value < 1 || value > 1_000 {
            return Err(Ft8WaveformError::InvalidAmplitude);
        }
        Ok(PcmAmplitudePermille(value))
    }

    /// Returns the amplitude in per-mille.
    pub fn value(self) -> (res: u16)
        ensures
            res == self@,
            1 <= res <= 1_000,
    {
        proof {
            use_type_invariant(&self);
        }
        self.0
    }
}

/// Owned request for deterministic offline FT8 waveform synthesis.
#[derive(Debug, Clone, PartialEq, Eq)]
pub struct Ft8WaveformRequest {
    /// Supported resolved message to synthesize.
    pub message: ResolvedFt8Message,
    /// Explicit output format.
    pub format: PcmFormat,
    /// Tone-base audio frequency in integer hertz.
    pub audio_frequency: AudioFrequency,
    /// Relative full-scale amplitude.
    pub amplitude: PcmAmplitudePermille,
    /// Frame-only or explicit full-slot placement.
    pub placement: Ft8WaveformPlacement,
}

/// Typed offline waveform synthesis failure.
#[derive(Debug, Clone, PartialEq, Eq)]
pub enum Ft8WaveformError {
    /// Relative amplitude was zero or exceeded full scale.
    InvalidAmplitude,
    /// Frequency, format, duration, or placement cannot contain the FT8 frame.
    InvalidConfiguration {
        /// Stable owned explanation.
        detail: String,
    },
    /// Message packing failed.
    Codec(Ft8CodecError),
    /// Owned PCM construction failed.
    Pcm(PcmError),
}

impl Ft8WaveformError {
    /// Constructs a bounded configuration failure.
    pub fn invalid_configuration(detail: &str) -> (res: Result<Self, Ft8MessageError>)
        ensures
            match res {
                Ok(e) => text_ok(detail@, MAX_DETAIL_BYTES as nat) && (e matches Ft8WaveformError::InvalidConfiguration { detail: d } && d@ == detail@),
                Err(e) => !text_ok(detail@, MAX_DETAIL_BYTES as nat) && e == Ft8MessageError::InvalidDetail,
            },
    {
        match bounded_detail(detail) {
            Ok(detail) => Ok(Ft8WaveformError::InvalidConfiguration { detail }),
            Err(e) => Err(e),
        }
    }
}

/// Owned deterministic offline FT8 waveform boundary.
pub trait Ft8WaveformSynthesizer {
    /// Produces samples only; it never selects or opens an audio device.
    fn synthesize(&self, request: &Ft8WaveformRequest) -> Result<PcmBuffer, Ft8WaveformError>;
}

} // verus!
