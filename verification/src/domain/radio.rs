//! Integer-backed band, frequency, power, mode, and UTC-slot values.
use vstd::prelude::*;
use crate::text::{utf8, str_eq};
use crate::decimal::{parse_u64, parses_below, unsigned_digits, digits_value};

verus! {

/// Failure parsing or constructing a radio-domain value.
#[derive(Debug, Clone, PartialEq, Eq)]
pub enum RadioValueError {
    /// A symbolic band name is unsupported.
    InvalidBand,
    /// A frequency was outside its documented bound.
    FrequencyOutOfRange {
        /// Frequency role.
        kind: &'static str,
        /// Inclusive lower bound.
        minimum: u64,
        /// Inclusive upper bound.
        maximum: u64,
    },
    /// Power was zero or above the bounded representation.
    PowerOutOfRange,
    /// A mode name is not part of the synchronized-mode vocabulary.
    InvalidMode,
    /// A UTC timestamp was negative.
    NegativeSlot,
    /// A UTC timestamp was not aligned to the mode's slot duration.
    MisalignedSlot,
    /// A numeric wire value could not be parsed.
    InvalidInteger,
}

/// Supported amateur bands with stable lowercase wire/display names.
#[derive(Debug, Clone, Copy, PartialEq, Eq, Hash, Structural)]
pub enum Band {
    /// 2,200 metres.
    B2200m,
    /// 630 metres.
    B630m,
    /// 160 metres.
    B160m,
    /// 80 metres.
    B80m,
    /// 60 metres.
    B60m,
    /// 40 metres.
    B40m,
    /// 30 metres.
    B30m,
    /// 20 metres.
    B20m,
    /// 17 metres.
    B17m,
    /// 15 metres.
    B15m,
    /// 12 metres.
    B12m,
    /// 10 metres.
    B10m,
    /// 6 metres.
    B6m,
    /// 2 metres.
    B2m,
    /// 70 centimetres.
    B70cm,
}

/// The stable wire/display name of each band.
pub open spec fn band_name(b: Band) -> Seq<char> {
    match b {
        Band::B2200m => "2200m"@,
        Band::B630m => "630m"@,
        Band::B160m => "160m"@,
        Band::B80m => "80m"@,
        Band::B60m => "60m"@,
        Band::B40m => "40m"@,
        Band::B30m => "30m"@,
        Band::B20m => "20m"@,
        Band::B17m => "17m"@,
        Band::B15m => "15m"@,
        Band::B12m => "12m"@,
        Band::B10m => "10m"@,
        Band::B6m => "6m"@,
        Band::B2m => "2m"@,
        Band::B70cm => "70cm"@,
    }
}

impl Band {
    /// Returns the stable wire/display name.
    pub fn as_str(self) -> (res: &'static str)
        ensures
            res@ == band_name(self),
    {
        match self {
            Band::B2200m => "2200m",
            Band::B630m => "630m",
            Band::B160m => "160m",
            Band::B80m => "80m",
            Band::B60m => "60m",
            Band::B40m => "40m",
            Band::B30m => "30m",
            Band::B20m => "20m",
            Band::B17m => "17m",
            Band::B15m => "15m",
            Band::B12m => "12m",
            Band::B10m => "10m",
            Band::B6m => "6m",
            Band::B2m => "2m",
            Band::B70cm => "70cm",
        }
    }

    /// Parses a stable band name; the first band, in band order, with that name.
    pub fn parse(value: &str) -> (res: Result<Band, RadioValueError>)
        ensures
            match res {
                Ok(b) => band_name(b) == value@,
                Err(e) => e == RadioValueError::InvalidBand && forall|b: Band| band_name(b) != value@,
            },
    {
        let all: [Band; 15] = [
            Band::B2200m,
            Band::B630m,
            Band::B160m,
            Band::B80m,
            Band::B60m,
            Band::B40m,
            Band::B30m,
            Band::B20m,
            Band::B17m,
            Band::B15m,
            Band::B12m,
            Band::B10m,
            Band::B6m,
            Band::B2m,
            Band::B70cm,
        ];
        let mut i: usize = 0;
        while i < 15
            invariant
                i <= 15,
                forall|j: int| 0 <= j < i ==> band_name(#[trigger] all@[j]) != value@,
                all@ == seq![Band::B2200m, Band::B630m, Band::B160m, Band::B80m, Band::B60m,
                    Band::B40m, Band::B30m, Band::B20m, Band::B17m, Band::B15m, Band::B12m,
                    Band::B10m, Band::B6m, Band::B2m, Band::B70cm],
            decreases 15 - i,
        {
            let band = all[i];
            if str_eq(band.as_str(), value) {
                return Ok(band);
            }
            i += 1;
        }
        assert forall|b: Band| band_name(b) != value@ by {
            match b {
                Band::B2200m => assert(band_name(all@[0]) != value@),
                Band::B630m => assert(band_name(all@[1]) != value@),
                Band::B160m => assert(band_name(all@[2]) != value@),
                Band::B80m => assert(band_name(all@[3]) != value@),
                Band::B60m => assert(band_name(all@[4]) != value@),
                Band::B40m => assert(band_name(all@[5]) != value@),
                Band::B30m => assert(band_name(all@[6]) != value@),
                Band::B20m => assert(band_name(all@[7]) != value@),
                Band::B17m => assert(band_name(all@[8]) != value@),
                Band::B15m => assert(band_name(all@[9]) != value@),
                Band::B12m => assert(band_name(all@[10]) != value@),
                Band::B10m => assert(band_name(all@[11]) != value@),
                Band::B6m => assert(band_name(all@[12]) != value@),
                Band::B2m => assert(band_name(all@[13]) != value@),
                Band::B70cm => assert(band_name(all@[14]) != value@),
            }
        }
        Err(RadioValueError::InvalidBand)
    }
}

impl core::str::FromStr for Band {
    type Err = RadioValueError;

    fn from_str(value: &str) -> (res: Result<Band, RadioValueError>)
        ensures
            match res {
                Ok(b) => band_name(b) == value@,
                Err(e) => e == RadioValueError::InvalidBand && forall|b: Band| band_name(b) != value@,
            },
    {
        Band::parse(value)
    }
}

/// Lower bound of a dial frequency in hertz.
pub const DIAL_MIN_HZ: u64 = 100_000;
/// Upper bound of a dial frequency in hertz.
pub const DIAL_MAX_HZ: u64 = 300_000_000_000;
/// Lower bound of an audio frequency in hertz.
pub const AUDIO_MIN_HZ: u64 = 1;
/// Upper bound of an audio frequency in hertz.
pub const AUDIO_MAX_HZ: u64 = 50_000;

/// The outcome of parsing frequency text against inclusive bounds.
pub open spec fn frequency_text_ok(v: Seq<u8>, minimum: u64, maximum: u64) -> bool {
    parses_below(v, 0x1_0000_0000_0000_0000) && minimum <= digits_value(unsigned_digits(v)) <= maximum
}

/// A dial frequency in integer hertz.
#[derive(Debug, Clone, Copy, PartialEq, Eq, Hash, PartialOrd, Ord, Structural)]
pub struct DialFrequency {
    hz: u64,
}

impl View for DialFrequency {
    type V = u64;

    closed spec fn view(&self) -> u64 {
        self.hz
    }
}

impl DialFrequency {
    #[verifier::type_invariant]
    spec fn inv(self) -> bool {
        DIAL_MIN_HZ <= self.hz <= DIAL_MAX_HZ
    }

    /// Constructs a validated frequency in integer hertz.
    pub fn from_hz(hz: u64) -> (res: Result<Self, RadioValueError>)
        ensures
            match res {
                Ok(f) => DIAL_MIN_HZ <= hz <= DIAL_MAX_HZ && f@ == hz,
                Err(e) => !(DIAL_MIN_HZ <= hz <= DIAL_MAX_HZ) && e == (RadioValueError::FrequencyOutOfRange {
                    kind: "dial", minimum: DIAL_MIN_HZ, maximum: DIAL_MAX_HZ }),
            },
    {
        if hz < DIAL_MIN_HZ || hz > DIAL_MAX_HZ {
            return Err(RadioValueError::FrequencyOutOfRange { kind: "dial", minimum: DIAL_MIN_HZ, maximum: DIAL_MAX_HZ });
        }
        Ok(DialFrequency { hz })
    }

    /// Returns the integer frequency in hertz.
    pub fn hz(self) -> (res: u64)
        ensures
            res == self@,
            DIAL_MIN_HZ <= res <= DIAL_MAX_HZ,
    {
        proof {
            use_type_invariant(&self);
        }
        self.hz
    }

    /// Parses decimal hertz text.
    pub fn parse(value: &str) -> (res: Result<Self, RadioValueError>)
        ensures
            match res {
                Ok(f) => frequency_text_ok(utf8(value@), DIAL_MIN_HZ, DIAL_MAX_HZ)
                    && f@ == digits_value(unsigned_digits(utf8(value@))),
                Err(RadioValueError::InvalidInteger) => !parses_below(utf8(value@), 0x1_0000_0000_0000_0000),
                Err(e) => parses_below(utf8(value@), 0x1_0000_0000_0000_0000)
                    && !frequency_text_ok(utf8(value@), DIAL_MIN_HZ, DIAL_MAX_HZ)
                    && e == (RadioValueError::FrequencyOutOfRange { kind: "dial", minimum: DIAL_MIN_HZ, maximum: DIAL_MAX_HZ }),
            },
    {
        match parse_u64(value) {
            Some(hz) => Self::from_hz(hz),
            None => Err(RadioValueError::InvalidInteger),
        }
    }
}

impl core::str::FromStr for DialFrequency {
    type Err = RadioValueError;

    fn from_str(value: &str) -> (res: Result<Self, RadioValueError>)
        ensures
            match res {
                Ok(f) => frequency_text_ok(utf8(value@), DIAL_MIN_HZ, DIAL_MAX_HZ)
                    && f@ == digits_value(unsigned_digits(utf8(value@))),
                Err(RadioValueError::InvalidInteger) => !parses_below(utf8(value@), 0x1_0000_0000_0000_0000),
                Err(e) => parses_below(utf8(value@), 0x1_0000_0000_0000_0000)
                    && !frequency_text_ok(utf8(value@), DIAL_MIN_HZ, DIAL_MAX_HZ)
                    && e == (RadioValueError::FrequencyOutOfRange { kind: "dial", minimum: DIAL_MIN_HZ, maximum: DIAL_MAX_HZ }),
            },
    {
        Self::parse(value)
    }
}

/// An audio offset in integer hertz.
#[derive(Debug, Clone, Copy, PartialEq, Eq, Hash, PartialOrd, Ord, Structural)]
pub struct AudioFrequency {
    hz: u64,
}

impl View for AudioFrequency {
    type V = u64;

    closed spec fn view(&self) -> u64 {
        self.hz
    }
}

impl AudioFrequency {
    #[verifier::type_invariant]
    spec fn inv(self) -> bool {
        AUDIO_MIN_HZ <= self.hz <= AUDIO_MAX_HZ
    }

    /// Constructs a validated frequency in integer hertz.
    pub fn from_hz(hz: u64) -> (res: Result<Self, RadioValueError>)
        ensures
            match res {
                Ok(f) => AUDIO_MIN_HZ <= hz <= AUDIO_MAX_HZ && f@ == hz,
                Err(e) => !(AUDIO_MIN_HZ <= hz <= AUDIO_MAX_HZ) && e == (RadioValueError::FrequencyOutOfRange {
                    kind: "audio", minimum: AUDIO_MIN_HZ, maximum: AUDIO_MAX_HZ }),
            },
    {
        if hz < AUDIO_MIN_HZ || hz > AUDIO_MAX_HZ {
            return Err(RadioValueError::FrequencyOutOfRange { kind: "audio", minimum: AUDIO_MIN_HZ, maximum: AUDIO_MAX_HZ });
        }
        Ok(AudioFrequency { hz })
    }

    /// Returns the integer frequency in hertz.
    pub fn hz(self) -> (res: u64)
        ensures
            res == self@,
            AUDIO_MIN_HZ <= res <= AUDIO_MAX_HZ,
    {
        proof {
            use_type_invariant(&self);
        }
        self.hz
    }

    /// Parses decimal hertz text.
    pub fn parse(value: &str) -> (res: Result<Self, RadioValueError>)
        ensures
            match res {
                Ok(f) => frequency_text_ok(utf8(value@), AUDIO_MIN_HZ, AUDIO_MAX_HZ)
                    && f@ == digits_value(unsigned_digits(utf8(value@))),
                Err(RadioValueError::InvalidInteger) => !parses_below(utf8(value@), 0x1_0000_0000_0000_0000),
                Err(e) => parses_below(utf8(value@), 0x1_0000_0000_0000_0000)
                    && !frequency_text_ok(utf8(value@), AUDIO_MIN_HZ, AUDIO_MAX_HZ)
                    && e == (RadioValueError::FrequencyOutOfRange { kind: "audio", minimum: AUDIO_MIN_HZ, maximum: AUDIO_MAX_HZ }),
            },
    {
        match parse_u64(value) {
            Some(hz) => Self::from_hz(hz),
            None => Err(RadioValueError::InvalidInteger),
        }
    }
}

impl core::str::FromStr for AudioFrequency {
    type Err = RadioValueError;

    fn from_str(value: &str) -> (res: Result<Self, RadioValueError>)
        ensures
            match res {
                Ok(f) => frequency_text_ok(utf8(value@), AUDIO_MIN_HZ, AUDIO_MAX_HZ)
                    && f@ == digits_value(unsigned_digits(utf8(value@))),
                Err(RadioValueError::InvalidInteger) => !parses_below(utf8(value@), 0x1_0000_0000_0000_0000),
                Err(e) => parses_below(utf8(value@), 0x1_0000_0000_0000_0000)
                    && !frequency_text_ok(utf8(value@), AUDIO_MIN_HZ, AUDIO_MAX_HZ)
                    && e == (RadioValueError::FrequencyOutOfRange { kind: "audio", minimum: AUDIO_MIN_HZ, maximum: AUDIO_MAX_HZ }),
            },
    {
        Self::parse(value)
    }
}

/// Transmitter power in integer milliwatts.
#[derive(Debug, Clone, Copy, PartialEq, Eq, Hash, PartialOrd, Ord, Structural)]
pub struct Power {
    milliwatts: u64,
}

impl View for Power {
    type V = u64;

    closed spec fn view(&self) -> u64 {
        self.milliwatts
    }
}

impl Power {
    #[verifier::type_invariant]
    spec fn inv(self) -> bool {
        1 <= self.milliwatts <= 1_000_000
    }

    /// Constructs bounded nonzero power.
    pub fn from_milliwatts(value: u64) -> (res: Result<Self, RadioValueError>)
        ensures
            match res {
                Ok(p) => 1 <= value <= 1_000_000 && p@ == value,
                Err(e) => !(1 <= value <= 1_000_000) && e == RadioValueError::PowerOutOfRange,
            },
    {
        if value < 1 || value > 1_000_000 {
            return Err(RadioValueError::PowerOutOfRange);
        }
        Ok(Power { milliwatts: value })
    }

    /// Returns power in milliwatts.
    pub fn milliwatts(self) -> (res: u64)
        ensures
            res == self@,
            1 <= res <= 1_000_000,
    {
        proof {
            use_type_invariant(&self);
        }
        self.milliwatts
    }
}

/// Synchronized operating modes.
#[derive(Debug, Clone, Copy, PartialEq, Eq, Hash, Structural)]
pub enum OperatingMode {
    /// FT8, with 15-second slots.
    Ft8,
    /// WSPR, with two-minute slots.
    Wspr,
}

/// Slot duration of a mode in milliseconds.
pub open spec fn mode_slot_millis(mode: OperatingMode) -> i64 {
    match mode {
        OperatingMode::Ft8 => 15_000,
        OperatingMode::Wspr => 120_000,
    }
}

pub open spec fn mode_name(mode: OperatingMode) -> Seq<char> {
    match mode {
        OperatingMode::Ft8 => "FT8"@,
        OperatingMode::Wspr => "WSPR"@,
    }
}

impl OperatingMode {
    /// Returns the slot duration in milliseconds.
    pub fn slot_millis(self) -> (res: i64)
        ensures
            res == mode_slot_millis(self),
    {
        match self {
            OperatingMode::Ft8 => 15_000,
            OperatingMode::Wspr => 120_000,
        }
    }

    /// Returns the stable upper-case mode name.
    pub fn as_str(self) -> (res: &'static str)
        ensures
            res@ == mode_name(self),
    {
        match self {
            OperatingMode::Ft8 => "FT8",
            OperatingMode::Wspr => "WSPR",
        }
    }

    /// Parses `FT8` or `WSPR`.
    pub fn parse(value: &str) -> (res: Result<Self, RadioValueError>)
        ensures
            match res {
                Ok(m) => mode_name(m) == value@,
                Err(e) => e == RadioValueError::InvalidMode && value@ != "FT8"@ && value@ != "WSPR"@,
            },
    {
        if str_eq(value, "FT8") {
            Ok(OperatingMode::Ft8)
        } else if str_eq(value, "WSPR") {
            Ok(OperatingMode::Wspr)
        } else {
            Err(RadioValueError::InvalidMode)
        }
    }
}

impl core::str::FromStr for OperatingMode {
    type Err = RadioValueError;

    fn from_str(value: &str) -> (res: Result<Self, RadioValueError>)
        ensures
            match res {
                Ok(m) => mode_name(m) == value@,
                Err(e) => e == RadioValueError::InvalidMode && value@ != "FT8"@ && value@ != "WSPR"@,
            },
    {
        Self::parse(value)
    }
}

/// Whether a start time is a non-negative slot boundary of the mode.
pub open spec fn aligned_slot(mode: OperatingMode, start: int) -> bool {
    start >= 0 && start % (mode_slot_millis(mode) as int) == 0
}

/// An exact UTC-aligned protocol-slot start.
#[derive(Debug, Clone, Copy, PartialEq, Eq, Hash, Structural)]
pub struct UtcSlot {
    mode: OperatingMode,
    start_unix_millis: i64,
}

impl View for UtcSlot {
    type V = (OperatingMode, i64);

    closed spec fn view(&self) -> (OperatingMode, i64) {
        (self.mode, self.start_unix_millis)
    }
}

impl UtcSlot {
    #[verifier::type_invariant]
    spec fn inv(self) -> bool {
        aligned_slot(self.mode, self.start_unix_millis as int)
    }

    /// Constructs a slot after checking epoch and mode alignment.
    pub fn new(mode: OperatingMode, start_unix_millis: i64) -> (res: Result<Self, RadioValueError>)
        ensures
            match res {
                Ok(slot) => aligned_slot(mode, start_unix_millis as int) && slot@ == (mode, start_unix_millis),
                Err(e) => if start_unix_millis < 0 {
                    e == RadioValueError::NegativeSlot
                } else {
                    !aligned_slot(mode, start_unix_millis as int) && e == RadioValueError::MisalignedSlot
                },
            },
    {
        if start_unix_millis < 0 {
            return Err(RadioValueError::NegativeSlot);
        }
        if start_unix_millis % mode.slot_millis() != 0 {
            return Err(RadioValueError::MisalignedSlot);
        }
        Ok(UtcSlot { mode, start_unix_millis })
    }

    /// Returns the synchronized mode defining this slot.
    pub fn mode(self) -> (res: OperatingMode)
        ensures
            res == self@.0,
    {
        self.mode
    }

    /// Returns the UTC start as milliseconds since the Unix epoch.
    pub fn start_unix_millis(self) -> (res: i64)
        ensures
            res == self@.1,
            aligned_slot(self@.0, res as int),
    {
        proof {
            use_type_invariant(&self);
        }
        self.start_unix_millis
    }
}

} // verus!
