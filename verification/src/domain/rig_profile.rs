//! Infrastructure-independent read-only rig profile values.
use vstd::prelude::*;
use crate::text::{utf8, is_alnum, is_ascii_byte, str_eq, ascii_string};
use crate::decimal::{parse_u16, parses_below, unsigned_digits, digits_value, decimal_u16, canonical_decimal};
use crate::domain::ids::ProfileRevisionId;

verus! {

/// Maximum endpoint host length in bytes.
pub const MAX_ENDPOINT_HOST_BYTES: usize = 253;
/// Maximum Hamlib version text length in bytes.
pub const MAX_HAMLIB_VERSION_BYTES: usize = 64;
/// Smallest radio passband in hertz.
pub const MIN_PASSBAND_HZ: u32 = 50;
/// Largest radio passband in hertz.
pub const MAX_PASSBAND_HZ: u32 = 100_000;

/// Failure parsing or constructing a read-only rig profile value.
#[derive(Debug, Clone, Copy, PartialEq, Eq, Structural)]
pub enum RigProfileError {
    /// A network endpoint omitted either its explicit host or port.
    IncompleteEndpoint,
    /// The endpoint host is empty, oversized, or outside the portable alphabet.
    InvalidEndpointHost,
    /// The endpoint TCP port is zero or not an integer.
    InvalidEndpointPort,
    /// A managed service endpoint could bind beyond the loopback interface.
    ManagedServiceNotLoopback,
    /// The downstream radio and rigctld service endpoints were conflated.
    EndpointRolesConflict,
    /// A Hamlib model identifier was zero.
    InvalidHamlibModel,
    /// A Hamlib version expectation was empty, oversized, or nonportable.
    InvalidHamlibVersion,
    /// A radio passband was outside the checked representation.
    PassbandOutOfRange,
}

/// An IP address read from host text: IPv4 octets or IPv6 segments.
#[derive(Debug, Clone, Copy, PartialEq, Eq, Hash)]
pub enum IpLiteral {
    /// IPv4 address octets.
    V4([u8; 4]),
    /// IPv6 address segments.
    V6([u16; 8]),
}

/// Loopback addresses: `127.0.0.0/8` and `::1`.
pub open spec fn ip_is_loopback(ip: IpLiteral) -> bool {
    match ip {
        IpLiteral::V4(o) => o@[0] == 127,
        IpLiteral::V6(s) => s@ == seq![0u16, 0, 0, 0, 0, 0, 0, 1],
    }
}

/// Returns whether an IP address is a loopback address.
pub fn is_loopback_ip(ip: IpLiteral) -> (res: bool)
    ensures
        res == ip_is_loopback(ip),
{
    match ip {
        IpLiteral::V4(o) => o[0] == 127,
        IpLiteral::V6(s) => {
            let r = s[0] == 0 && s[1] == 0 && s[2] == 0 && s[3] == 0 && s[4] == 0 && s[5] == 0 && s[6] == 0 && s[7] == 1;
            proof {
                if r {
                    assert(s@ =~= seq![0u16, 0, 0, 0, 0, 0, 0, 1]);
                } else if s@ == seq![0u16, 0, 0, 0, 0, 0, 0, 1] {
                    assert(s@[0] == 0 && s@[7] == 1);
                }
            }
            r
        },
    }
}

pub open spec fn is_bracketed(h: Seq<u8>) -> bool {
    h.len() >= 2 && h[0] == 0x5b && h[h.len() - 1] == 0x5d
}

pub open spec fn host_byte(b: u8) -> bool {
    is_alnum(b) || b == 0x2e || b == 0x2d
}

/// The outcome of checking a host. `ip` is the host text, without surrounding
/// brackets, read as an IP address when it is one.
pub open spec fn host_ok(h: Seq<u8>, ip: Option<IpLiteral>) -> bool {
    &&& 0 < h.len() <= MAX_ENDPOINT_HOST_BYTES
    &&& if is_bracketed(h) {
        ip matches Some(IpLiteral::V6(_))
    } else {
        forall|i: int| 0 <= i < h.len() ==> host_byte(#[trigger] h[i])
    }
}

/// Checks an explicit endpoint host.
pub fn validate_host(host: &str, ip: Option<IpLiteral>) -> (res: Result<(), RigProfileError>)
    ensures
        match res {
            Ok(()) => host_ok(utf8(host@), ip),
            Err(e) => !host_ok(utf8(host@), ip) && e == RigProfileError::InvalidEndpointHost,
        },
{
    let bytes = host.as_bytes();
    let n = bytes.len();
    if n == 0 || n > MAX_ENDPOINT_HOST_BYTES {
        return Err(RigProfileError::InvalidEndpointHost);
    }
    if n >= 2 && bytes[0] == 0x5b && bytes[n - 1] == 0x5d {
        return match ip {
            Some(IpLiteral::V6(_)) => Ok(()),
            _ => Err(RigProfileError::InvalidEndpointHost),
        };
    }
    let mut i: usize = 0;
    while i < n
        invariant
            i <= n,
            n == bytes@.len(),
            bytes@ == utf8(host@),
            0 < n <= MAX_ENDPOINT_HOST_BYTES,
            !is_bracketed(bytes@),
            forall|j: int| 0 <= j < i ==> host_byte(#[trigger] bytes@[j]),
        decreases n - i,
    {
        let b = bytes[i];
        let ok = (b >= 0x61 && b <= 0x7a) || (b >= 0x41 && b <= 0x5a) || (b >= 0x30 && b <= 0x39) || b == 0x2e || b == 0x2d;
        if !ok {
            assert(!host_byte(bytes@[i as int]));
            return Err(RigProfileError::InvalidEndpointHost);
        }
        i += 1;
    }
    Ok(())
}

/// Index of the last `:` in `v`, if any.
pub open spec fn last_colon(v: Seq<u8>, k: int) -> bool {
    0 <= k < v.len() && v[k] == 0x3a && forall|j: int| k < j < v.len() ==> v[j] != 0x3a
}

pub open spec fn has_colon(v: Seq<u8>) -> bool {
    exists|k: int| 0 <= k < v.len() && v[k] == 0x3a
}

/// The outcome of splitting endpoint text at its last colon into a host and a
/// nonzero decimal port. `ip` reads the host part as an IP address.
pub open spec fn endpoint_text_result(v: Seq<u8>, ip: Option<IpLiteral>) -> Result<(Seq<u8>, u16), RigProfileError> {
    if !has_colon(v) {
        Err(RigProfileError::IncompleteEndpoint)
    } else {
        let k = choose|k: int| last_colon(v, k);
        let host = v.subrange(0, k);
        let port = v.subrange(k + 1, v.len() as int);
        if !parses_below(port, 0x1_0000) || digits_value(unsigned_digits(port)) == 0 {
            Err(RigProfileError::InvalidEndpointPort)
        } else if !host_ok(host, ip) {
            Err(RigProfileError::InvalidEndpointHost)
        } else {
            Ok((host, digits_value(unsigned_digits(port)) as u16))
        }
    }
}

proof fn lemma_last_colon_unique(v: Seq<u8>, k1: int, k2: int)
    requires
        last_colon(v, k1),
        last_colon(v, k2),
    ensures
        k1 == k2,
{
}

/// Splits endpoint text at its last colon, checking port and host.
fn split_endpoint<'a>(value: &'a str, ip: Option<IpLiteral>) -> (res: Result<(&'a str, u16), RigProfileError>)
    ensures
        match res {
            Ok((h, p)) => endpoint_text_result(utf8(value@), ip) == Ok::<(Seq<u8>, u16), RigProfileError>((utf8(h@), p)),
            Err(e) => endpoint_text_result(utf8(value@), ip) == Err::<(Seq<u8>, u16), RigProfileError>(e),
        },
{
    let bytes = value.as_bytes();
    let ghost v = bytes@;
    let n = bytes.len();
    let mut k = n;
    loop
        invariant
            k <= n,
            n == v.len(),
            v == bytes@,
            forall|j: int| k <= j < n ==> v[j] != 0x3a,
        ensures
            k <= n,
            forall|j: int| k <= j < n ==> v[j] != 0x3a,
            k == 0 || v[k - 1] == 0x3a,
        decreases k,
    {
        if k == 0 {
            break;
        }
        if bytes[k - 1] == 0x3a {
            break;
        }
        k -= 1;
    }
    if k == 0 {
        assert(!has_colon(v));
        return Err(RigProfileError::IncompleteEndpoint);
    }
    let colon = k - 1;
    assert(last_colon(v, colon as int));
    proof {
        let c = choose|c: int| last_colon(v, c);
        lemma_last_colon_unique(v, c, colon as int);
    }
    proof {
        vstd::utf8::encode_utf8_valid_utf8(value@);
        vstd::utf8::is_char_boundary_iff_not_is_continuation_byte(v, colon as int);
    }
    let (host, rest) = value.split_at(colon);
    let ghost r = utf8(rest@);
    assert(r =~= v.subrange(colon as int, n as int));
    proof {
        vstd::utf8::encode_utf8_valid_utf8(rest@);
        assert(r[0] == 0x3a);
        reveal_with_fuel(vstd::utf8::is_char_boundary, 2);
        assert(vstd::utf8::length_of_first_scalar(r) == 1);
    }
    let (_, port_text) = rest.split_at(1);
    assert(utf8(port_text@) =~= v.subrange(colon as int + 1, n as int));
    let port = match parse_u16(port_text) {
        Some(p) => p,
        None => {
            return Err(RigProfileError::InvalidEndpointPort);
        },
    };
    if port == 0 {
        return Err(RigProfileError::InvalidEndpointPort);
    }
    match validate_host(host, ip) {
        Ok(()) => Ok((host, port)),
        Err(e) => Err(e),
    }
}

/// Exact operator-configured downstream radio CAT endpoint.
///
/// This type is structurally distinct from the `rigctld` service endpoint.
/// It performs no discovery, resolution, or defaulting.
#[derive(Debug, PartialEq, Eq, Hash)]
pub struct DownstreamRigEndpoint {
    host: String,
    port: u16,
    ip: Option<IpLiteral>,
}

impl View for DownstreamRigEndpoint {
    type V = (Seq<char>, u16, Option<IpLiteral>);

    closed spec fn view(&self) -> (Seq<char>, u16, Option<IpLiteral>) {
        (self.host@, self.port, self.ip)
    }
}

impl Clone for DownstreamRigEndpoint {
    fn clone(&self) -> (res: Self)
        ensures
            res@ == self@,
    {
        proof {
            use_type_invariant(self);
        }
        DownstreamRigEndpoint { host: self.host.clone(), port: self.port, ip: self.ip }
    }
}

impl DownstreamRigEndpoint {
    #[verifier::type_invariant]
    spec fn inv(self) -> bool {
        host_ok(utf8(self.host@), self.ip) && self.port != 0
    }

    /// Constructs an endpoint from an explicit host and TCP port. `ip` is the
    /// host text, without surrounding brackets, read as an IP address when it is one.
    pub fn new(host: String, port: u16, ip: Option<IpLiteral>) -> (res: Result<Self, RigProfileError>)
        ensures
            match res {
                Ok(e) => host_ok(utf8(host@), ip) && port != 0 && e@ == (host@, port, ip),
                Err(e) => if !host_ok(utf8(host@), ip) {
                    e == RigProfileError::InvalidEndpointHost
                } else {
                    port == 0 && e == RigProfileError::InvalidEndpointPort
                },
            },
    {
        validate_host(host.as_str(), ip)?;
        if port == 0 {
            return Err(RigProfileError::InvalidEndpointPort);
        }
        Ok(DownstreamRigEndpoint { host, port, ip })
    }

    /// Parses `host:port` text, split at its last colon.
    pub fn parse(value: &str, ip: Option<IpLiteral>) -> (res: Result<Self, RigProfileError>)
        ensures
            match res {
                Ok(e) => endpoint_text_result(utf8(value@), ip) == Ok::<(Seq<u8>, u16), RigProfileError>((utf8(e@.0), e@.1)) && e@.2 == ip,
                Err(e) => endpoint_text_result(utf8(value@), ip) == Err::<(Seq<u8>, u16), RigProfileError>(e),
            },
    {
        let (host, port) = split_endpoint(value, ip)?;
        Self::new(host.to_owned(), port, ip)
    }

    /// Returns the exact configured host without resolving it.
    pub fn host(&self) -> (res: &str)
        ensures
            res@ == self@.0,
    {
        self.host.as_str()
    }

    /// Returns the explicit configured TCP port.
    pub fn port(&self) -> (res: u16)
        ensures
            res == self@.1,
            res != 0,
    {
        proof {
            use_type_invariant(self);
        }
        self.port
    }

    /// Returns the host read as an IP address, when it is one.
    pub fn ip(&self) -> (res: Option<IpLiteral>)
        ensures
            res == self@.2,
    {
        self.ip
    }

    /// Returns the `host:port` wire text.
    pub fn to_text(&self) -> (res: String)
        ensures
            exists|d: Seq<u8>| #[trigger] canonical_decimal(d, self@.1 as nat) && utf8(res@) == utf8(self@.0) + seq![0x3au8] + d,
    {
        let digits = decimal_u16(self.port);
        proof {
            assert forall|i: int| 0 <= i < digits@.len() implies is_ascii_byte(#[trigger] digits@[i]) by {}
        }
        let port_text = ascii_string(digits.as_slice());
        let mut out = self.host.clone();
        out.append(":");
        out.append(port_text.as_str());
        proof {
            let colon = ":"@;
            reveal_strlit(":");
            crate::text::lemma_utf8_concat(self.host@, colon);
            crate::text::lemma_utf8_concat(self.host@ + colon, port_text@);
            assert(colon.len() == 1 && colon[0] == ':');
            vstd::utf8::is_ascii_chars_encode_utf8(colon);
            assert(utf8(colon) =~= seq![0x3au8]);
            assert(utf8(out@) =~= utf8(self.host@) + seq![0x3au8] + digits@);
            assert(canonical_decimal(digits@, self.port as nat));
            assert(self@.1 == self.port);
            assert(self@.0 == self.host@);
            assert(utf8(out@) == utf8(self@.0) + seq![0x3au8] + digits@);
        }
        out
    }
}

/// Exact endpoint at which the service contacts one `rigctld` service.
///
/// This type cannot be substituted for the downstream radio CAT endpoint.
#[derive(Debug, PartialEq, Eq, Hash)]
pub struct RigctldServiceEndpoint {
    host: String,
    port: u16,
    ip: Option<IpLiteral>,
}

impl View for RigctldServiceEndpoint {
    type V = (Seq<char>, u16, Option<IpLiteral>);

    closed spec fn view(&self) -> (Seq<char>, u16, Option<IpLiteral>) {
        (self.host@, self.port, self.ip)
    }
}

impl Clone for RigctldServiceEndpoint {
    fn clone(&self) -> (res: Self)
        ensures
            res@ == self@,
    {
        proof {
            use_type_invariant(self);
        }
        RigctldServiceEndpoint { host: self.host.clone(), port: self.port, ip: self.ip }
    }
}

impl RigctldServiceEndpoint {
    #[verifier::type_invariant]
    spec fn inv(self) -> bool {
        host_ok(utf8(self.host@), self.ip) && self.port != 0
    }

    /// Constructs an endpoint from an explicit host and TCP port. `ip` is the
    /// host text, without surrounding brackets, read as an IP address when it is one.
    pub fn new(host: String, port: u16, ip: Option<IpLiteral>) -> (res: Result<Self, RigProfileError>)
        ensures
            match res {
                Ok(e) => host_ok(utf8(host@), ip) && port != 0 && e@ == (host@, port, ip),
                Err(e) => if !host_ok(utf8(host@), ip) {
                    e == RigProfileError::InvalidEndpointHost
                } else {
                    port == 0 && e == RigProfileError::InvalidEndpointPort
                },
            },
    {
        validate_host(host.as_str(), ip)?;
        if port == 0 {
            return Err(RigProfileError::InvalidEndpointPort);
        }
        Ok(RigctldServiceEndpoint { host, port, ip })
    }

    /// Parses `host:port` text, split at its last colon.
    pub fn parse(value: &str, ip: Option<IpLiteral>) -> (res: Result<Self, RigProfileError>)
        ensures
            match res {
                Ok(e) => endpoint_text_result(utf8(value@), ip) == Ok::<(Seq<u8>, u16), RigProfileError>((utf8(e@.0), e@.1)) && e@.2 == ip,
                Err(e) => endpoint_text_result(utf8(value@), ip) == Err::<(Seq<u8>, u16), RigProfileError>(e),
            },
    {
        let (host, port) = split_endpoint(value, ip)?;
        Self::new(host.to_owned(), port, ip)
    }

    /// Returns the exact configured host without resolving it.
    pub fn host(&self) -> (res: &str)
        ensures
            res@ == self@.0,
    {
        self.host.as_str()
    }

    /// Returns the explicit configured TCP port.
    pub fn port(&self) -> (res: u16)
        ensures
            res == self@.1,
            res != 0,
    {
        proof {
            use_type_invariant(self);
        }
        self.port
    }

    /// Returns the host read as an IP address, when it is one.
    pub fn ip(&self) -> (res: Option<IpLiteral>)
        ensures
            res == self@.2,
    {
        self.ip
    }

    /// Returns the `host:port` wire text.
    pub fn to_text(&self) -> (res: String)
        ensures
            exists|d: Seq<u8>| #[trigger] canonical_decimal(d, self@.1 as nat) && utf8(res@) == utf8(self@.0) + seq![0x3au8] + d,
    {
        let digits = decimal_u16(self.port);
        proof {
            assert forall|i: int| 0 <= i < digits@.len() implies is_ascii_byte(#[trigger] digits@[i]) by {}
        }
        let port_text = ascii_string(digits.as_slice());
        let mut out = self.host.clone();
        out.append(":");
        out.append(port_text.as_str());
        proof {
            let colon = ":"@;
            reveal_strlit(":");
            crate::text::lemma_utf8_concat(self.host@, colon);
            crate::text::lemma_utf8_concat(self.host@ + colon, port_text@);
            assert(colon.len() == 1 && colon[0] == ':');
            vstd::utf8::is_ascii_chars_encode_utf8(colon);
            assert(utf8(colon) =~= seq![0x3au8]);
            assert(utf8(out@) =~= utf8(self.host@) + seq![0x3au8] + digits@);
            assert(canonical_decimal(digits@, self.port as nat));
            assert(self@.1 == self.port);
            assert(self@.0 == self.host@);
            assert(utf8(out@) == utf8(self@.0) + seq![0x3au8] + digits@);
        }
        out
    }
}

/// How the read-only adapter obtains its `rigctld` service.
#[derive(Debug, Clone, Copy, PartialEq, Eq, Hash, Structural)]
pub enum RigctldMode {
    /// The service manages a process bound to the configured loopback endpoint.
    Managed,
    /// The service connects to an explicitly configured existing one.
    External,
}

/// Nonzero Hamlib radio model identifier expected by a rig profile.
#[derive(Debug, Clone, Copy, PartialEq, Eq, Hash, PartialOrd, Ord, Structural)]
pub struct HamlibModelId {
    value: u32,
}

impl View for HamlibModelId {
    type V = u32;

    closed spec fn view(&self) -> u32 {
        self.value
    }
}

impl HamlibModelId {
    #[verifier::type_invariant]
    spec fn inv(self) -> bool {
        self.value != 0
    }

    /// Constructs a nonzero model identifier.
    pub fn new(value: u32) -> (res: Result<Self, RigProfileError>)
        ensures
            match res {
                Ok(m) => value != 0 && m@ == value,
                Err(e) => value == 0 && e == RigProfileError::InvalidHamlibModel,
            },
    {
        if value == 0 {
            return Err(RigProfileError::InvalidHamlibModel);
        }
        Ok(HamlibModelId { value })
    }

    /// Returns the integer model identifier.
    pub fn get(self) -> (res: u32)
        ensures
            res == self@,
            res != 0,
    {
        proof {
            use_type_invariant(&self);
        }
        self.value
    }
}

/// Bytes allowed in a Hamlib version: ASCII letters, digits, `.`, `-`, `+`.
pub open spec fn version_byte(b: u8) -> bool {
    is_alnum(b) || b == 0x2e || b == 0x2d || b == 0x2b
}

pub open spec fn valid_version(v: Seq<u8>) -> bool {
    &&& 0 < v.len() <= MAX_HAMLIB_VERSION_BYTES
    &&& forall|i: int| 0 <= i < v.len() ==> version_byte(#[trigger] v[i])
}

/// Bounded exact Hamlib version expectation retained by a rig profile.
#[derive(Debug, PartialEq, Eq, Hash, PartialOrd, Ord)]
pub struct HamlibVersionExpectation {
    value: String,
}

impl View for HamlibVersionExpectation {
    type V = Seq<char>;

    closed spec fn view(&self) -> Seq<char> {
        self.value@
    }
}

impl Clone for HamlibVersionExpectation {
    fn clone(&self) -> (res: Self)
        ensures
            res@ == self@,
    {
        proof {
            use_type_invariant(self);
        }
        HamlibVersionExpectation { value: self.value.clone() }
    }
}

impl HamlibVersionExpectation {
    #[verifier::type_invariant]
    spec fn inv(self) -> bool {
        valid_version(utf8(self.value@))
    }

    /// Constructs a checked exact version expectation.
    pub fn new(value: String) -> (res: Result<Self, RigProfileError>)
        ensures
            match res {
                Ok(v) => valid_version(utf8(value@)) && v@ == value@,
                Err(e) => !valid_version(utf8(value@)) && e == RigProfileError::InvalidHamlibVersion,
            },
    {
        let bytes = value.as_str().as_bytes();
        let n = bytes.len();
        if n == 0 || n > MAX_HAMLIB_VERSION_BYTES {
            return Err(RigProfileError::InvalidHamlibVersion);
        }
        let mut i: usize = 0;
        while i < n
            invariant
                i <= n,
                n == bytes@.len(),
                bytes@ == utf8(value@),
                0 < n <= MAX_HAMLIB_VERSION_BYTES,
                forall|j: int| 0 <= j < i ==> version_byte(#[trigger] bytes@[j]),
            decreases n - i,
        {
            let b = bytes[i];
            let ok = (b >= 0x61 && b <= 0x7a) || (b >= 0x41 && b <= 0x5a) || (b >= 0x30 && b <= 0x39) || b == 0x2e
                || b == 0x2d || b == 0x2b;
            if !ok {
                assert(!version_byte(bytes@[i as int]));
                return Err(RigProfileError::InvalidHamlibVersion);
            }
            i += 1;
        }
        Ok(HamlibVersionExpectation { value })
    }

    /// Returns the exact expected version text.
    pub fn as_str(&self) -> (res: &str)
        ensures
            res@ == self@,
            valid_version(utf8(res@)),
    {
        proof {
            use_type_invariant(self);
        }
        self.value.as_str()
    }
}

/// Radio-side modulation, structurally separate from synchronized protocols.
#[derive(Debug, Clone, Copy, PartialEq, Eq, Hash, Structural)]
pub enum RadioModulation {
    /// Upper sideband.
    UpperSideband,
    /// Lower sideband.
    LowerSideband,
    /// Upper-sideband data mode.
    DataUpperSideband,
    /// Lower-sideband data mode.
    DataLowerSideband,
    /// Continuous wave.
    ContinuousWave,
    /// Reverse continuous wave.
    ContinuousWaveReverse,
    /// Amplitude modulation.
    AmplitudeModulation,
    /// Frequency modulation.
    FrequencyModulation,
    /// Radio teletype.
    RadioTeletype,
    /// Reverse radio teletype.
    RadioTeletypeReverse,
}

/// Exact radio passband width in integer hertz.
#[derive(Debug, Clone, Copy, PartialEq, Eq, Hash, PartialOrd, Ord, Structural)]
pub struct RadioPassband {
    hz: u32,
}

impl View for RadioPassband {
    type V = u32;

    closed spec fn view(&self) -> u32 {
        self.hz
    }
}

impl RadioPassband {
    #[verifier::type_invariant]
    spec fn inv(self) -> bool {
        MIN_PASSBAND_HZ <= self.hz <= MAX_PASSBAND_HZ
    }

    /// Constructs a checked passband width.
    pub fn from_hz(value: u32) -> (res: Result<Self, RigProfileError>)
        ensures
            match res {
                Ok(p) => MIN_PASSBAND_HZ <= value <= MAX_PASSBAND_HZ && p@ == value,
                Err(e) => !(MIN_PASSBAND_HZ <= value <= MAX_PASSBAND_HZ) && e == RigProfileError::PassbandOutOfRange,
            },
    {
        if value < MIN_PASSBAND_HZ || value > MAX_PASSBAND_HZ {
            return Err(RigProfileError::PassbandOutOfRange);
        }
        Ok(RadioPassband { hz: value })
    }

    /// Returns the passband width in integer hertz.
    pub fn hz(self) -> (res: u32)
        ensures
            res == self@,
            MIN_PASSBAND_HZ <= res <= MAX_PASSBAND_HZ,
    {
        proof {
            use_type_invariant(&self);
        }
        self.hz
    }
}

/// Exact VFO identity reported by a read-only rig backend.
#[derive(Debug, Clone, Copy, PartialEq, Eq, Hash, Structural)]
pub enum RigVfo {
    /// VFO A.
    A,
    /// VFO B.
    B,
    /// Main receiver VFO.
    Main,
    /// Sub receiver VFO.
    Sub,
    /// Memory-channel context.
    Memory,
}

/// Exact split readback without inventing a transmit VFO when absent.
#[derive(Debug, Clone, Copy, PartialEq, Eq, Hash, Structural)]
pub struct SplitReadback {
    enabled: bool,
    transmit_vfo: Option<RigVfo>,
}

impl SplitReadback {
    /// Constructs exact split and optional transmit-VFO readback.
    pub fn new(enabled: bool, transmit_vfo: Option<RigVfo>) -> (res: Self)
        ensures
            res.spec_enabled() == enabled,
            res.spec_transmit_vfo() == transmit_vfo,
    {
        SplitReadback { enabled, transmit_vfo }
    }

    pub closed spec fn spec_enabled(self) -> bool {
        self.enabled
    }

    pub closed spec fn spec_transmit_vfo(self) -> Option<RigVfo> {
        self.transmit_vfo
    }

    /// Returns the exact split flag.
    pub fn enabled(self) -> (res: bool)
        ensures
            res == self.spec_enabled(),
    {
        self.enabled
    }

    /// Returns the transmit VFO only when the backend supplied one.
    pub fn transmit_vfo(self) -> (res: Option<RigVfo>)
        ensures
            res == self.spec_transmit_vfo(),
    {
        self.transmit_vfo
    }
}

/// The outcome of assembling a rig profile from its checked parts: the two
/// endpoint roles must differ, and a managed service must be bound to a
/// loopback IP literal.
pub open spec fn profile_check(
    downstream: (Seq<char>, u16, Option<IpLiteral>),
    service: (Seq<char>, u16, Option<IpLiteral>),
    mode: RigctldMode,
) -> Result<(), RigProfileError> {
    if downstream.0 == service.0 && downstream.1 == service.1 {
        Err(RigProfileError::EndpointRolesConflict)
    } else if mode == RigctldMode::Managed && !(service.2 matches Some(ip) && ip_is_loopback(ip)) {
        Err(RigProfileError::ManagedServiceNotLoopback)
    } else {
        Ok(())
    }
}

/// Immutable, version-identified read-only rig profile contract.
#[derive(Debug, PartialEq, Eq)]
pub struct RigProfile {
    revision_id: ProfileRevisionId,
    downstream_endpoint: DownstreamRigEndpoint,
    service_endpoint: RigctldServiceEndpoint,
    rigctld_mode: RigctldMode,
    hamlib_model: HamlibModelId,
    hamlib_version: HamlibVersionExpectation,
    required_modulation: RadioModulation,
    required_passband: RadioPassband,
}

impl RigProfile {
    #[verifier::type_invariant]
    spec fn inv(self) -> bool {
        profile_check(self.downstream_endpoint@, self.service_endpoint@, self.rigctld_mode) == Ok::<(), RigProfileError>(())
    }

    pub closed spec fn spec_revision_id(&self) -> Seq<char> {
        self.revision_id@
    }

    pub closed spec fn spec_downstream(&self) -> (Seq<char>, u16, Option<IpLiteral>) {
        self.downstream_endpoint@
    }

    pub closed spec fn spec_service(&self) -> (Seq<char>, u16, Option<IpLiteral>) {
        self.service_endpoint@
    }

    pub closed spec fn spec_mode(&self) -> RigctldMode {
        self.rigctld_mode
    }

    pub closed spec fn spec_model(&self) -> u32 {
        self.hamlib_model@
    }

    pub closed spec fn spec_version(&self) -> Seq<char> {
        self.hamlib_version@
    }

    pub closed spec fn spec_modulation(&self) -> RadioModulation {
        self.required_modulation
    }

    pub closed spec fn spec_passband(&self) -> u32 {
        self.required_passband@
    }

    /// Constructs a complete explicit read-only rig profile.
    pub fn new(
        revision_id: ProfileRevisionId,
        downstream_endpoint: DownstreamRigEndpoint,
        service_endpoint: RigctldServiceEndpoint,
        rigctld_mode: RigctldMode,
        hamlib_model: HamlibModelId,
        hamlib_version: HamlibVersionExpectation,
        required_modulation: RadioModulation,
        required_passband: RadioPassband,
    ) -> (res: Result<Self, RigProfileError>)
        ensures
            match res {
                Ok(p) => profile_check(downstream_endpoint@, service_endpoint@, rigctld_mode) == Ok::<(), RigProfileError>(())
                    && p.spec_revision_id() == revision_id@ && p.spec_downstream() == downstream_endpoint@
                    && p.spec_service() == service_endpoint@ && p.spec_mode() == rigctld_mode
                    && p.spec_model() == hamlib_model@ && p.spec_version() == hamlib_version@
                    && p.spec_modulation() == required_modulation && p.spec_passband() == required_passband@,
                Err(e) => profile_check(downstream_endpoint@, service_endpoint@, rigctld_mode) == Err::<(), RigProfileError>(e),
            },
    {
        if str_eq(downstream_endpoint.host(), service_endpoint.host()) && downstream_endpoint.port() == service_endpoint.port() {
            return Err(RigProfileError::EndpointRolesConflict);
        }
        if rigctld_mode == RigctldMode::Managed {
            let loopback = match service_endpoint.ip() {
                Some(ip) => is_loopback_ip(ip),
                None => false,
            };
            if !loopback {
                return Err(RigProfileError::ManagedServiceNotLoopback);
            }
        }
        Ok(RigProfile {
            revision_id,
            downstream_endpoint,
            service_endpoint,
            rigctld_mode,
            hamlib_model,
            hamlib_version,
            required_modulation,
            required_passband,
        })
    }

    /// Returns the immutable profile revision identity.
    pub fn revision_id(&self) -> (res: &ProfileRevisionId)
        ensures
            res@ == self.spec_revision_id(),
    {
        &self.revision_id
    }

    /// Returns the exact downstream CAT endpoint.
    pub fn downstream_endpoint(&self) -> (res: &DownstreamRigEndpoint)
        ensures
            res@ == self.spec_downstream(),
    {
        &self.downstream_endpoint
    }

    /// Returns the distinct exact `rigctld` service endpoint.
    pub fn service_endpoint(&self) -> (res: &RigctldServiceEndpoint)
        ensures
            res@ == self.spec_service(),
            profile_check(self.spec_downstream(), res@, self.spec_mode()) == Ok::<(), RigProfileError>(()),
    {
        proof {
            use_type_invariant(self);
        }
        &self.service_endpoint
    }

    /// Returns managed or external service ownership.
    pub fn rigctld_mode(&self) -> (res: RigctldMode)
        ensures
            res == self.spec_mode(),
    {
        self.rigctld_mode
    }

    /// Returns the expected Hamlib model identifier.
    pub fn hamlib_model(&self) -> (res: HamlibModelId)
        ensures
            res@ == self.spec_model(),
    {
        self.hamlib_model
    }

    /// Returns the exact expected Hamlib version.
    pub fn hamlib_version(&self) -> (res: &HamlibVersionExpectation)
        ensures
            res@ == self.spec_version(),
    {
        &self.hamlib_version
    }

    /// Returns the required radio-side modulation.
    pub fn required_modulation(&self) -> (res: RadioModulation)
        ensures
            res == self.spec_modulation(),
    {
        self.required_modulation
    }

    /// Returns the required integer passband.
    pub fn required_passband(&self) -> (res: RadioPassband)
        ensures
            res@ == self.spec_passband(),
    {
        self.required_passband
    }
}

} // verus!
