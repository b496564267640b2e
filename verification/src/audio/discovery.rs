//! Receive-only device-discovery rules: stable identities, deterministic
//! device order, and normalized configuration ranges.
//!
//! Discovery never opens a stream and never consults a default device. Every
//! returned device carries the backend's stable host-qualified identifier.
use vstd::prelude::*;
use crate::audio::{
    InputConfigurationRange, InputDeviceDescriptor, InputDeviceDisplay, InputDeviceIdentity, InputDiscoveryError,
    InputPlatform, InputSampleFormat, MAX_DEVICE_CONFIGURATIONS, MAX_IDENTITY_BYTES,
};
use crate::audio::capture::BackendErrorKind;
use crate::text::{bounded_text, bytes_before, bytes_lex_before, lemma_bytes_before_order, utf8, str_eq};

verus! {

/// Constructs a stable identity, reporting an unusable backend value as unavailable.
pub fn owned_identity(platform: InputPlatform, value: &str) -> (res: Result<InputDeviceIdentity, InputDiscoveryError>)
    ensures
        match res {
            Ok(id) => bounded_text(value@, MAX_IDENTITY_BYTES as nat) && id@ == (platform, value@),
            Err(e) => !bounded_text(value@, MAX_IDENTITY_BYTES as nat) && e == InputDiscoveryError::IdentityUnavailable,
        },
{
    match InputDeviceIdentity::new(platform, value.to_owned()) {
        Ok(id) => Ok(id),
        Err(_) => Err(InputDiscoveryError::IdentityUnavailable),
    }
}

/// The platform family of a host backend name.
pub open spec fn platform_of_host(name: Seq<char>) -> Option<InputPlatform> {
    if name == "coreaudio"@ {
        Some(InputPlatform::MacOsCoreAudio)
    } else if name == "wasapi"@ {
        Some(InputPlatform::WindowsWasapi)
    } else if name == "alsa"@ {
        Some(InputPlatform::LinuxAlsa)
    } else if name == "jack"@ {
        Some(InputPlatform::LinuxJack)
    } else {
        None
    }
}

/// Maps a host backend name to the platform family of its identities.
pub fn platform_for_host(name: &str) -> (res: Result<InputPlatform, InputDiscoveryError>)
    ensures
        match platform_of_host(name@) {
            Some(p) => res == Ok::<InputPlatform, InputDiscoveryError>(p),
            None => res == Err::<InputPlatform, InputDiscoveryError>(InputDiscoveryError::IdentityUnavailable),
        },
{
    if str_eq(name, "coreaudio") {
        Ok(InputPlatform::MacOsCoreAudio)
    } else if str_eq(name, "wasapi") {
        Ok(InputPlatform::WindowsWasapi)
    } else if str_eq(name, "alsa") {
        Ok(InputPlatform::LinuxAlsa)
    } else if str_eq(name, "jack") {
        Ok(InputPlatform::LinuxJack)
    } else {
        Err(InputDiscoveryError::IdentityUnavailable)
    }
}

/// The declaration-order rank of a platform family.
pub open spec fn platform_rank(p: InputPlatform) -> int {
    match p {
        InputPlatform::MacOsCoreAudio => 0,
        InputPlatform::WindowsWasapi => 1,
        InputPlatform::LinuxAlsa => 2,
        InputPlatform::LinuxJack => 3,
    }
}

fn platform_rank_exec(p: InputPlatform) -> (res: u8)
    ensures
        res == platform_rank(p),
{
    match p {
        InputPlatform::MacOsCoreAudio => 0,
        InputPlatform::WindowsWasapi => 1,
        InputPlatform::LinuxAlsa => 2,
        InputPlatform::LinuxJack => 3,
    }
}

/// Whether identity `a` sorts no later than `b`: by platform, then by opaque
/// identifier bytes.
pub open spec fn identity_le(a: (InputPlatform, Seq<char>), b: (InputPlatform, Seq<char>)) -> bool {
    if a.0 != b.0 {
        platform_rank(a.0) < platform_rank(b.0)
    } else {
        utf8(a.1) == utf8(b.1) || bytes_before(utf8(a.1), utf8(b.1))
    }
}

/// Identity order is total and transitive.
pub proof fn lemma_identity_le_order(a: (InputPlatform, Seq<char>), b: (InputPlatform, Seq<char>), c: (InputPlatform, Seq<char>))
    ensures
        identity_le(a, b) || identity_le(b, a),
        identity_le(a, b) && identity_le(b, c) ==> identity_le(a, c),
{
    lemma_bytes_before_order(utf8(a.1), utf8(b.1), utf8(c.1));
    lemma_bytes_before_order(utf8(b.1), utf8(a.1), utf8(c.1));
    lemma_bytes_before_order(utf8(a.1), utf8(c.1), utf8(b.1));
}

fn identity_le_exec(a: &InputDeviceIdentity, b: &InputDeviceIdentity) -> (res: bool)
    ensures
        res == identity_le(a@, b@),
{
    let pa = platform_rank_exec(a.platform());
    let pb = platform_rank_exec(b.platform());
    if pa != pb {
        return pa < pb;
    }
    let ba = a.opaque_id().as_bytes();
    let bb = b.opaque_id().as_bytes();
    crate::text::bytes_eq(ba, bb) || bytes_lex_before(ba, bb)
}

/// Whether descriptors are in deterministic identity order.
pub open spec fn descriptors_sorted(s: Seq<InputDeviceDescriptor>) -> bool {
    forall|i: int, j: int| 0 <= i < j < s.len() ==> identity_le((#[trigger] s[i]).spec_identity(), (#[trigger] s[j]).spec_identity())
}

/// Orders a complete discovery result, failing explicitly when nothing was found.
pub fn finish_descriptors(descriptors: Vec<InputDeviceDescriptor>) -> (res: Result<Vec<InputDeviceDescriptor>, InputDiscoveryError>)
    ensures
        match res {
            Ok(sorted) => descriptors@.len() > 0 && sorted@.to_multiset() == descriptors@.to_multiset()
                && descriptors_sorted(sorted@),
            Err(e) => descriptors@.len() == 0 && e == InputDiscoveryError::NoInputDevices,
        },
{
    broadcast use vstd::seq_lib::group_to_multiset_ensures;
    if descriptors.len() == 0 {
        return Err(InputDiscoveryError::NoInputDevices);
    }
    let ghost original = descriptors@;
    let mut remaining = descriptors;
    let mut sorted: Vec<InputDeviceDescriptor> = Vec::new();
    while remaining.len() > 0
        invariant
            sorted@.to_multiset().add(remaining@.to_multiset()) == original.to_multiset(),
            descriptors_sorted(sorted@),
            forall|i: int, j: int| 0 <= i < sorted@.len() && 0 <= j < remaining@.len()
                ==> identity_le((#[trigger] sorted@[i]).spec_identity(), (#[trigger] remaining@[j]).spec_identity()),
        decreases remaining@.len(),
    {
        let mut min: usize = 0;
        let mut k: usize = 1;
        while k < remaining.len()
            invariant
                0 <= min < remaining@.len(),
                1 <= k <= remaining@.len(),
                forall|j: int| 0 <= j < k ==> identity_le(remaining@[min as int].spec_identity(), (#[trigger] remaining@[j]).spec_identity()),
            decreases remaining@.len() - k,
        {
            if !identity_le_exec(remaining[min].identity(), remaining[k].identity()) {
                proof {
                    assert forall|j: int| 0 <= j <= k implies identity_le(remaining@[k as int].spec_identity(), (#[trigger] remaining@[j]).spec_identity()) by {
                        lemma_identity_le_order(remaining@[k as int].spec_identity(), remaining@[min as int].spec_identity(), remaining@[j].spec_identity());
                        lemma_identity_le_order(remaining@[j].spec_identity(), remaining@[k as int].spec_identity(), remaining@[k as int].spec_identity());
                    }
                }
                min = k;
            }
            k = k + 1;
        }
        let ghost before = remaining@;
        let item = remaining.remove(min);
        let ghost sorted_before = sorted@;
        sorted.push(item);
        proof {
            vstd::seq_lib::to_multiset_remove(before, min as int);
            vstd::seq_lib::to_multiset_build(sorted_before, item);
            assert(sorted@ == sorted_before.push(item));
            assert(before.contains(item)) by {
                assert(before[min as int] == item);
            }
            vstd::seq_lib::to_multiset_contains(before, item);
            broadcast use vstd::multiset::group_multiset_axioms;
            assert forall|i: int, j: int| 0 <= i < j < sorted@.len() implies identity_le((#[trigger] sorted@[i]).spec_identity(), (#[trigger] sorted@[j]).spec_identity()) by {
                assert(sorted@[i] == sorted_before[i]);
                if j < sorted@.len() - 1 {
                    assert(sorted@[j] == sorted_before[j]);
                }
            }
            assert forall|i: int, j: int| 0 <= i < sorted@.len() && 0 <= j < remaining@.len() implies identity_le((#[trigger] sorted@[i]).spec_identity(), (#[trigger] remaining@[j]).spec_identity()) by {
                if j < min {
                    assert(remaining@[j] == before[j]);
                } else {
                    assert(remaining@[j] == before[j + 1]);
                }
                if i < sorted@.len() - 1 {
                    assert(sorted@[i] == sorted_before[i]);
                }
            }
            assert(sorted@.to_multiset().add(remaining@.to_multiset()) =~= original.to_multiset());
        }
    }
    Ok(sorted)
}

/// The declaration-order rank of a sample format.
pub open spec fn format_rank(f: InputSampleFormat) -> int {
    match f {
        InputSampleFormat::Signed8 => 0,
        InputSampleFormat::Signed16 => 1,
        InputSampleFormat::Signed24 => 2,
        InputSampleFormat::Signed32 => 3,
        InputSampleFormat::Signed64 => 4,
        InputSampleFormat::Unsigned8 => 5,
        InputSampleFormat::Unsigned16 => 6,
        InputSampleFormat::Unsigned24 => 7,
        InputSampleFormat::Unsigned32 => 8,
        InputSampleFormat::Unsigned64 => 9,
        InputSampleFormat::Float32 => 10,
        InputSampleFormat::Float64 => 11,
    }
}

fn format_rank_exec(f: InputSampleFormat) -> (res: u8)
    ensures
        res == format_rank(f),
{
    match f {
        InputSampleFormat::Signed8 => 0,
        InputSampleFormat::Signed16 => 1,
        InputSampleFormat::Signed24 => 2,
        InputSampleFormat::Signed32 => 3,
        InputSampleFormat::Signed64 => 4,
        InputSampleFormat::Unsigned8 => 5,
        InputSampleFormat::Unsigned16 => 6,
        InputSampleFormat::Unsigned24 => 7,
        InputSampleFormat::Unsigned32 => 8,
        InputSampleFormat::Unsigned64 => 9,
        InputSampleFormat::Float32 => 10,
        InputSampleFormat::Float64 => 11,
    }
}

/// Strict order of configuration ranges: by minimum rate, maximum rate,
/// channel count, then sample format.
pub open spec fn range_before(a: InputConfigurationRange, b: InputConfigurationRange) -> bool {
    if a@.0 != b@.0 {
        a@.0 < b@.0
    } else if a@.1 != b@.1 {
        a@.1 < b@.1
    } else if a@.2 != b@.2 {
        a@.2 < b@.2
    } else {
        format_rank(a@.3) < format_rank(b@.3)
    }
}

fn range_before_exec(a: InputConfigurationRange, b: InputConfigurationRange) -> (res: bool)
    ensures
        res == range_before(a, b),
{
    if a.min_sample_rate_hz() != b.min_sample_rate_hz() {
        return a.min_sample_rate_hz() < b.min_sample_rate_hz();
    }
    if a.max_sample_rate_hz() != b.max_sample_rate_hz() {
        return a.max_sample_rate_hz() < b.max_sample_rate_hz();
    }
    if a.channels() != b.channels() {
        return a.channels() < b.channels();
    }
    format_rank_exec(a.sample_format()) < format_rank_exec(b.sample_format())
}

/// Whether a sequence of ranges is strictly increasing, hence free of repeats.
pub open spec fn ranges_strictly_sorted(s: Seq<InputConfigurationRange>) -> bool {
    forall|i: int, j: int| 0 <= i < j < s.len() ==> range_before(#[trigger] s[i], #[trigger] s[j])
}

/// Sorts configuration ranges and drops repeats, so each supported range
/// appears once, in a deterministic order.
pub fn normalize_configuration_ranges(ranges: Vec<InputConfigurationRange>) -> (res: Vec<InputConfigurationRange>)
    ensures
        res@.to_set() == ranges@.to_set(),
        ranges_strictly_sorted(res@),
{
    let ghost original = ranges@;
    let mut remaining = ranges;
    let mut sorted: Vec<InputConfigurationRange> = Vec::new();
    while remaining.len() > 0
        invariant
            sorted@.to_set().union(remaining@.to_set()) == original.to_set(),
            ranges_strictly_sorted(sorted@),
            forall|i: int, j: int| 0 <= i < sorted@.len() && 0 <= j < remaining@.len()
                ==> range_before(#[trigger] sorted@[i], #[trigger] remaining@[j]),
        decreases remaining@.len(),
    {
        let mut min: usize = 0;
        let mut k: usize = 1;
        while k < remaining.len()
            invariant
                0 <= min < remaining@.len(),
                1 <= k <= remaining@.len(),
                forall|j: int| 0 <= j < k ==> remaining@[min as int] == remaining@[j] || range_before(remaining@[min as int], #[trigger] remaining@[j]),
            decreases remaining@.len() - k,
        {
            if range_before_exec(remaining[k], remaining[min]) {
                min = k;
            }
            k = k + 1;
        }
        let item = remaining[min];
        let ghost before = remaining@;
        let mut rest: Vec<InputConfigurationRange> = Vec::new();
        let mut r: usize = 0;
        while r < remaining.len()
            invariant
                r <= remaining@.len(),
                remaining@ == before,
                0 <= min < before.len(),
                item == before[min as int],
                rest@.len() <= r,
                r > min ==> rest@.len() < r,
                forall|j: int| 0 <= j < before.len() ==> before[j] == item || range_before(item, #[trigger] before[j]),
                forall|j: int| 0 <= j < rest@.len() ==> range_before(item, #[trigger] rest@[j]),
                forall|j: int| 0 <= j < rest@.len() ==> before.contains(#[trigger] rest@[j]),
                forall|j: int| 0 <= j < r ==> before[j] == item || rest@.contains(#[trigger] before[j]),
            decreases remaining@.len() - r,
        {
            let ghost old_rest = rest@;
            if !(remaining[r] == item) {
                rest.push(remaining[r]);
                proof {
                    assert(rest@.last() == before[r as int]);
                }
            }
            proof {
                assert forall|j: int| 0 <= j < r + 1 implies before[j] == item || rest@.contains(#[trigger] before[j]) by {
                    if before[j] != item {
                        if j < r {
                            assert(old_rest.contains(before[j]));
                            let w = choose|w: int| 0 <= w < old_rest.len() && old_rest[w] == before[j];
                            assert(rest@[w] == before[j]);
                        } else {
                            assert(rest@[rest@.len() - 1] == before[j]);
                        }
                    }
                }
            }
            r = r + 1;
        }
        let ghost sorted_before = sorted@;
        sorted.push(item);
        remaining = rest;
        proof {
            assert(sorted@.to_set() == sorted_before.to_set().insert(item)) by {
                assert forall|x: InputConfigurationRange| sorted@.to_set().contains(x) <==> sorted_before.to_set().insert(item).contains(x) by {
                    if sorted@.contains(x) {
                        let w = choose|w: int| 0 <= w < sorted@.len() && sorted@[w] == x;
                        if w < sorted_before.len() {
                            assert(sorted_before[w] == x);
                        }
                    }
                    if sorted_before.contains(x) {
                        let w = choose|w: int| 0 <= w < sorted_before.len() && sorted_before[w] == x;
                        assert(sorted@[w] == x);
                    }
                    if x == item {
                        assert(sorted@[sorted_before.len() as int] == x);
                    }
                }
                assert(sorted@.to_set() =~= sorted_before.to_set().insert(item));
            }
            assert(before.to_set() == remaining@.to_set().insert(item)) by {
                assert forall|x: InputConfigurationRange| before.to_set().contains(x) <==> remaining@.to_set().insert(item).contains(x) by {
                    if before.contains(x) {
                        let w = choose|w: int| 0 <= w < before.len() && before[w] == x;
                        assert(before[w] == item || remaining@.contains(before[w]));
                    }
                    if remaining@.contains(x) {
                        let w = choose|w: int| 0 <= w < remaining@.len() && remaining@[w] == x;
                        assert(before.contains(remaining@[w]));
                    }
                    if x == item {
                        assert(before[min as int] == x);
                    }
                }
                assert(before.to_set() =~= remaining@.to_set().insert(item));
            }
            assert(sorted@.to_set().union(remaining@.to_set()) =~= original.to_set());
            assert forall|i: int, j: int| 0 <= i < j < sorted@.len() implies range_before(#[trigger] sorted@[i], #[trigger] sorted@[j]) by {
                assert(sorted@[i] == sorted_before[i]);
                if j < sorted@.len() - 1 {
                    assert(sorted@[j] == sorted_before[j]);
                } else {
                    assert(before[min as int] == item);
                }
            }
            assert forall|i: int, j: int| 0 <= i < sorted@.len() && 0 <= j < remaining@.len() implies range_before(#[trigger] sorted@[i], #[trigger] remaining@[j]) by {
                assert(before.contains(remaining@[j]));
                let w = choose|w: int| 0 <= w < before.len() && before[w] == remaining@[j];
                if i < sorted@.len() - 1 {
                    assert(sorted@[i] == sorted_before[i]);
                    assert(range_before(sorted_before[i], before[w]));
                    assert(range_before(item, remaining@[j]));
                    lemma_range_before_transitive(sorted_before[i], item, remaining@[j]);
                }
            }
        }
    }
    sorted
}

proof fn lemma_range_before_transitive(a: InputConfigurationRange, b: InputConfigurationRange, c: InputConfigurationRange)
    ensures
        range_before(a, b) && range_before(b, c) ==> range_before(a, c),
{
}

/// Assembles one discovered device from its backend identifier, display
/// metadata, and normalized configuration ranges.
pub fn descriptor_from_parts(
    platform: InputPlatform,
    id_text: &str,
    name: &str,
    manufacturer: Option<&str>,
    ranges: Vec<InputConfigurationRange>,
) -> (res: Result<InputDeviceDescriptor, InputDiscoveryError>)
    ensures
        ({
            let m = match manufacturer { Some(m) => Some(m@), None => None };
            match res {
                Ok(d) => {
                    &&& bounded_text(id_text@, MAX_IDENTITY_BYTES as nat)
                    &&& crate::audio::display_ok(name@, m)
                    &&& 1 <= ranges@.len() <= MAX_DEVICE_CONFIGURATIONS
                    &&& d.spec_identity() == (platform, id_text@)
                    &&& d.spec_display() == (name@, m)
                    &&& d.spec_ranges() == ranges@
                },
                Err(e) => if !bounded_text(id_text@, MAX_IDENTITY_BYTES as nat) {
                    e == InputDiscoveryError::IdentityUnavailable
                } else if !crate::audio::display_ok(name@, m) {
                    e == InputDiscoveryError::BackendFailure
                } else {
                    !(1 <= ranges@.len() <= MAX_DEVICE_CONFIGURATIONS) && e == InputDiscoveryError::UnsupportedConfiguration
                },
            }
        }),
{
    let identity = match owned_identity(platform, id_text) {
        Ok(i) => i,
        Err(e) => {
            return Err(e);
        },
    };
    let owned_manufacturer = match manufacturer {
        Some(m) => Some(m.to_owned()),
        None => None,
    };
    let display = match InputDeviceDisplay::new(name.to_owned(), owned_manufacturer) {
        Ok(d) => d,
        Err(_) => {
            return Err(InputDiscoveryError::BackendFailure);
        },
    };
    match InputDeviceDescriptor::new(identity, display, ranges) {
        Ok(d) => Ok(d),
        Err(_) => Err(InputDiscoveryError::UnsupportedConfiguration),
    }
}


/// Maps a backend error met while enumerating devices.
pub fn map_discovery_error(kind: BackendErrorKind) -> (res: InputDiscoveryError)
    ensures
        res == match kind {
            BackendErrorKind::HostUnavailable => InputDiscoveryError::HostUnavailable,
            BackendErrorKind::PermissionDenied => InputDiscoveryError::PermissionDenied,
            BackendErrorKind::DeviceNotAvailable | BackendErrorKind::DeviceChanged
            | BackendErrorKind::StreamInvalidated => InputDiscoveryError::DeviceDisappeared,
            BackendErrorKind::UnsupportedConfig | BackendErrorKind::UnsupportedOperation
            | BackendErrorKind::InvalidInput => InputDiscoveryError::UnsupportedConfiguration,
            BackendErrorKind::Other => InputDiscoveryError::BackendFailure,
        },
{
    match kind {
        BackendErrorKind::HostUnavailable => InputDiscoveryError::HostUnavailable,
        BackendErrorKind::PermissionDenied => InputDiscoveryError::PermissionDenied,
        BackendErrorKind::DeviceNotAvailable | BackendErrorKind::DeviceChanged
        | BackendErrorKind::StreamInvalidated => InputDiscoveryError::DeviceDisappeared,
        BackendErrorKind::UnsupportedConfig | BackendErrorKind::UnsupportedOperation
        | BackendErrorKind::InvalidInput => InputDiscoveryError::UnsupportedConfiguration,
        BackendErrorKind::Other => InputDiscoveryError::BackendFailure,
    }
}

} // verus!
