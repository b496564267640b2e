//! Callsign values and role-specific station identities.
use vstd::prelude::*;
use crate::text::{utf8, is_alpha, is_digit, is_alnum, is_lower, is_ascii_byte, upper_byte, ascii_string};

verus! {

/// Failure parsing a full or base callsign.
#[derive(Debug, Clone, Copy, PartialEq, Eq)]
pub enum CallsignError {
    /// A callsign was empty or too long for the bounded wire representation.
    InvalidLength,
    /// A callsign contained characters outside the portable callsign alphabet.
    InvalidCharacter,
    /// A callsign had an empty slash-separated component.
    EmptyComponent,
    /// No component could serve as the normalized base-policy key.
    MissingBaseCall,
    /// A base callsign was not already in normalized uppercase form.
    NonCanonicalBase,
}

pub open spec fn is_slash(b: u8) -> bool {
    b == 0x2f
}

/// Whether every byte is alphanumeric, or a slash when slashes are allowed.
pub open spec fn shape_alphabet(v: Seq<u8>, slash_allowed: bool) -> bool {
    forall|i: int| 0 <= i < v.len() ==> (is_alnum(#[trigger] v[i]) || (slash_allowed && is_slash(v[i])))
}

/// Whether splitting at slashes yields an empty component.
pub open spec fn has_empty_component(v: Seq<u8>) -> bool {
    ||| v.len() == 0
    ||| is_slash(v[0])
    ||| is_slash(v[v.len() - 1])
    ||| exists|i: int| 0 <= i < v.len() - 1 && is_slash(#[trigger] v[i]) && is_slash(v[i + 1])
}

/// The shape check shared by full and base callsigns: length, alphabet, components.
pub open spec fn shape_result(v: Seq<u8>, slash_allowed: bool) -> Result<(), CallsignError> {
    if !(1 <= v.len() <= 32) {
        Err(CallsignError::InvalidLength)
    } else if !shape_alphabet(v, slash_allowed) {
        Err(CallsignError::InvalidCharacter)
    } else if has_empty_component(v) {
        Err(CallsignError::EmptyComponent)
    } else {
        Ok(())
    }
}

/// `[s, e)` is one slash-separated component of `v`.
pub open spec fn is_component(v: Seq<u8>, s: int, e: int) -> bool {
    &&& 0 <= s <= e <= v.len()
    &&& (s == 0 || is_slash(v[s - 1]))
    &&& (e == v.len() || is_slash(v[e]))
    &&& forall|k: int| s <= k < e ==> !is_slash(#[trigger] v[k])
}

/// A component holding at least one letter and one digit.
pub open spec fn qualifies(v: Seq<u8>, s: int, e: int) -> bool {
    &&& exists|k: int| s <= k < e && is_alpha(#[trigger] v[k])
    &&& exists|k: int| s <= k < e && is_digit(#[trigger] v[k])
}

pub open spec fn candidate(v: Seq<u8>, s: int, e: int) -> bool {
    is_component(v, s, e) && qualifies(v, s, e)
}

/// `[s, e)` is the base component: the longest qualifying component, the last
/// one among equally long ones.
pub open spec fn chosen_base(v: Seq<u8>, s: int, e: int) -> bool {
    &&& candidate(v, s, e)
    &&& forall|s2: int, e2: int| #[trigger] candidate(v, s2, e2) ==> e2 - s2 <= e - s && (s2 > s ==> e2 - s2 < e - s)
}

/// The normalized base key of the component `[s, e)`.
pub open spec fn base_bytes(v: Seq<u8>, s: int, e: int) -> Seq<u8> {
    v.subrange(s, e).map_values(|b: u8| upper_byte(b))
}

/// Whether `v` is a canonical base callsign.
pub open spec fn valid_base(v: Seq<u8>) -> bool {
    &&& shape_result(v, false) == Ok::<(), CallsignError>(())
    &&& forall|i: int| 0 <= i < v.len() ==> !is_lower(#[trigger] v[i])
    &&& exists|k: int| 0 <= k < v.len() && is_alpha(#[trigger] v[k])
    &&& exists|k: int| 0 <= k < v.len() && is_digit(#[trigger] v[k])
}

/// The outcome of parsing a base callsign: a base call must be uppercase and
/// must not contain a slash, so a slash in a value of valid length is refused
/// as non-canonical before the alphabet is checked.
pub open spec fn base_result(v: Seq<u8>) -> Result<(), CallsignError> {
    if 1 <= v.len() <= 32 && exists|i: int| 0 <= i < v.len() && is_slash(#[trigger] v[i]) {
        Err(CallsignError::NonCanonicalBase)
    } else if shape_result(v, false) is Err {
        shape_result(v, false)
    } else if exists|i: int| 0 <= i < v.len() && is_lower(#[trigger] v[i]) {
        Err(CallsignError::NonCanonicalBase)
    } else if !(exists|k: int| 0 <= k < v.len() && is_alpha(#[trigger] v[k]))
        || !(exists|k: int| 0 <= k < v.len() && is_digit(#[trigger] v[k])) {
        Err(CallsignError::MissingBaseCall)
    } else {
        Ok(())
    }
}

/// The outcome of parsing a full callsign.
pub open spec fn full_result(v: Seq<u8>) -> Result<(), CallsignError> {
    if shape_result(v, true) is Err {
        shape_result(v, true)
    } else if !(exists|s: int, e: int| candidate(v, s, e)) {
        Err(CallsignError::MissingBaseCall)
    } else {
        Ok(())
    }
}

fn contains_slash(bytes: &[u8]) -> (res: bool)
    ensures
        res == exists|i: int| 0 <= i < bytes@.len() && is_slash(#[trigger] bytes@[i]),
{
    let mut i: usize = 0;
    while i < bytes.len()
        invariant
            i <= bytes@.len(),
            forall|j: int| 0 <= j < i ==> !is_slash(#[trigger] bytes@[j]),
        decreases bytes@.len() - i,
    {
        if bytes[i] == 0x2f {
            assert(is_slash(bytes@[i as int]));
            return true;
        }
        i += 1;
    }
    false
}

fn check_shape(bytes: &[u8], slash_allowed: bool) -> (res: Result<(), CallsignError>)
    ensures
        res == shape_result(bytes@, slash_allowed),
{
    let n = bytes.len();
    if n < 1 || n > 32 {
        return Err(CallsignError::InvalidLength);
    }
    let mut i: usize = 0;
    while i < n
        invariant
            i <= n,
            n == bytes@.len(),
            1 <= n <= 32,
            forall|j: int| 0 <= j < i ==> (is_alnum(#[trigger] bytes@[j]) || (slash_allowed && is_slash(bytes@[j]))),
        decreases n - i,
    {
        let b = bytes[i];
        let alnum = (b >= 0x61 && b <= 0x7a) || (b >= 0x41 && b <= 0x5a) || (b >= 0x30 && b <= 0x39);
        if !(alnum || (slash_allowed && b == 0x2f)) {
            assert(!(is_alnum(bytes@[i as int]) || (slash_allowed && is_slash(bytes@[i as int]))));
            return Err(CallsignError::InvalidCharacter);
        }
        i += 1;
    }
    if bytes[0] == 0x2f || bytes[n - 1] == 0x2f {
        return Err(CallsignError::EmptyComponent);
    }
    let mut j: usize = 0;
    while j + 1 < n
        invariant
            n == bytes@.len(),
            1 <= n <= 32,
            j < n,
            shape_alphabet(bytes@, slash_allowed),
            !is_slash(bytes@[0]),
            !is_slash(bytes@[n - 1]),
            forall|k: int| 0 <= k < j ==> !(is_slash(#[trigger] bytes@[k]) && is_slash(bytes@[k + 1])),
        decreases n - j,
    {
        if bytes[j] == 0x2f && bytes[j + 1] == 0x2f {
            assert(is_slash(bytes@[j as int]) && is_slash(bytes@[j + 1]));
            return Err(CallsignError::EmptyComponent);
        }
        j += 1;
    }
    Ok(())
}

/// Scans the components of a well-shaped full callsign for its base component.
fn find_base(bytes: &[u8]) -> (res: Option<(usize, usize)>)
    requires
        bytes@.len() <= 32,
    ensures
        match res {
            Some((s, e)) => chosen_base(bytes@, s as int, e as int),
            None => forall|s: int, e: int| !candidate(bytes@, s, e),
        },
{
    let n = bytes.len();
    let ghost v = bytes@;
    let mut cur: usize = 0;
    let mut has_a = false;
    let mut has_d = false;
    let mut best: Option<(usize, usize)> = None;
    let mut i: usize = 0;
    while i <= n
        invariant
            n == v.len(),
            v == bytes@,
            n <= 32,
            cur <= i <= n + 1,
            i <= n ==> cur <= i,
            i == n + 1 ==> cur == n + 1,
            cur == 0 || cur == n + 1 || (cur - 1 < n && is_slash(v[cur - 1])),
            i <= n ==> forall|k: int| cur <= k < i ==> !is_slash(#[trigger] v[k]),
            has_a == (exists|k: int| cur <= k < i && k < n && is_alpha(#[trigger] v[k])),
            has_d == (exists|k: int| cur <= k < i && k < n && is_digit(#[trigger] v[k])),
            match best {
                Some((s, e)) => {
                    &&& candidate(v, s as int, e as int)
                    &&& e < cur
                    &&& forall|s2: int, e2: int| #[trigger] candidate(v, s2, e2) && s2 < cur ==> e2 - s2 <= e - s && (s2 > s ==> e2 - s2 < e - s)
                },
                None => forall|s2: int, e2: int| #[trigger] candidate(v, s2, e2) ==> s2 >= cur,
            },
        decreases n + 1 - i,
    {
        if i == n || bytes[i] == 0x2f {
            let ghost old_best = best;
            proof {
                assert(is_component(v, cur as int, i as int));
                // The only component starting at `cur` ends at `i`.
                assert forall|e2: int| is_component(v, cur as int, e2) implies e2 == i by {
                    if e2 < i {
                        assert(!is_slash(v[e2]));
                    } else if e2 > i {
                        assert(!is_slash(v[i as int]));
                    }
                }
            }
            if has_a && has_d {
                let better = match best {
                    Some((s, e)) => i - cur >= e - s,
                    None => true,
                };
                if better {
                    best = Some((cur, i));
                }
            }
            proof {
                let ghost new_cur = i + 1;
                if has_a && has_d {
                    assert(qualifies(v, cur as int, i as int));
                }
                // Components starting before the new cursor start before `cur` or at `cur`.
                assert forall|s2: int, e2: int| #[trigger] candidate(v, s2, e2) && s2 < new_cur && s2 >= cur implies s2 == cur && e2 == i by {
                    if s2 > cur {
                        assert(is_slash(v[s2 - 1]));
                        assert(!is_slash(v[s2 - 1]));
                    }
                }
                match best {
                    Some((s, e)) => {
                        assert(candidate(v, s as int, e as int));
                        assert forall|s2: int, e2: int| #[trigger] candidate(v, s2, e2) && s2 < new_cur implies e2 - s2 <= e - s && (s2 > s ==> e2 - s2 < e - s) by {
                            if s2 >= cur {
                                assert(s2 == cur && e2 == i);
                            } else {
                                match old_best {
                                    Some((os, oe)) => {}
                                    None => {}
                                }
                            }
                        }
                    }
                    None => {}
                }
            }
            cur = i + 1;
            has_a = false;
            has_d = false;
        } else {
            let b = bytes[i];
            if (b >= 0x61 && b <= 0x7a) || (b >= 0x41 && b <= 0x5a) {
                has_a = true;
            }
            if b >= 0x30 && b <= 0x39 {
                has_d = true;
            }
        }
        i += 1;
    }
    best
}

/// A canonical uppercase callsign key used only by explicit normalization policy.
#[derive(Debug, PartialEq, Eq, Hash, PartialOrd, Ord)]
pub struct BaseCallsign {
    value: String,
}

impl View for BaseCallsign {
    type V = Seq<char>;

    closed spec fn view(&self) -> Seq<char> {
        self.value@
    }
}

impl Clone for BaseCallsign {
    fn clone(&self) -> (res: Self)
        ensures
            res == *self,
    {
        proof {
            use_type_invariant(self);
        }
        BaseCallsign { value: self.value.clone() }
    }
}

impl BaseCallsign {
    #[verifier::type_invariant]
    spec fn inv(self) -> bool {
        valid_base(utf8(self.value@))
    }

    /// Parses an already-normalized base callsign.
    pub fn parse(value: &str) -> (res: Result<Self, CallsignError>)
        ensures
            base_result(utf8(value@)) == match res { Ok(_) => Ok(()), Err(e) => Err(e) },
            res matches Ok(b) ==> b@ == value@,
    {
        let bytes = value.as_bytes();
        if bytes.len() >= 1 && bytes.len() <= 32 && contains_slash(bytes) {
            return Err(CallsignError::NonCanonicalBase);
        }
        check_shape(bytes, false)?;
        let n = bytes.len();
        let mut i: usize = 0;
        let mut has_a = false;
        let mut has_d = false;
        while i < n
            invariant
                i <= n,
                n == bytes@.len(),
                shape_result(bytes@, false) == Ok::<(), CallsignError>(()),
                bytes@ == utf8(value@),
                forall|j: int| 0 <= j < i ==> !is_lower(#[trigger] bytes@[j]),
                has_a == exists|k: int| 0 <= k < i && is_alpha(#[trigger] bytes@[k]),
                has_d == exists|k: int| 0 <= k < i && is_digit(#[trigger] bytes@[k]),
            decreases n - i,
        {
            let b = bytes[i];
            if b >= 0x61 && b <= 0x7a {
                assert(is_lower(bytes@[i as int]));
                return Err(CallsignError::NonCanonicalBase);
            }
            if b >= 0x41 && b <= 0x5a {
                has_a = true;
            }
            if b >= 0x30 && b <= 0x39 {
                has_d = true;
            }
            i += 1;
        }
        if !has_a || !has_d {
            return Err(CallsignError::MissingBaseCall);
        }
        Ok(BaseCallsign { value: value.to_owned() })
    }

    /// Returns the canonical uppercase wire value.
    pub fn as_str(&self) -> (res: &str)
        ensures
            res@ == self@,
            valid_base(utf8(res@)),
    {
        proof {
            use_type_invariant(self);
        }
        self.value.as_str()
    }
}

impl core::str::FromStr for BaseCallsign {
    type Err = CallsignError;

    fn from_str(value: &str) -> (res: Result<Self, CallsignError>)
        ensures
            base_result(utf8(value@)) == match res { Ok(_) => Ok(()), Err(e) => Err(e) },
            res matches Ok(b) ==> b@ == value@,
    {
        Self::parse(value)
    }
}

/// A full callsign exactly as supplied, plus a separate normalized base key.
///
/// The original spelling is preserved. The normalized base is available only
/// through [`Self::base`].
#[derive(Debug, PartialEq, Eq, Hash)]
pub struct FullCallsign {
    original: String,
    base: BaseCallsign,
}

impl View for FullCallsign {
    type V = (Seq<char>, Seq<char>);

    closed spec fn view(&self) -> (Seq<char>, Seq<char>) {
        (self.original@, self.base@)
    }
}

/// Whether `base` is the normalized base key of the full callsign `v`.
pub open spec fn is_base_of(v: Seq<u8>, base: Seq<u8>) -> bool {
    exists|s: int, e: int| chosen_base(v, s, e) && base == base_bytes(v, s, e)
}

impl Clone for FullCallsign {
    fn clone(&self) -> (res: Self)
        ensures
            res == *self,
    {
        proof {
            use_type_invariant(self);
        }
        FullCallsign { original: self.original.clone(), base: self.base.clone() }
    }
}

impl FullCallsign {
    #[verifier::type_invariant]
    spec fn inv(self) -> bool {
        &&& full_result(utf8(self.original@)) == Ok::<(), CallsignError>(())
        &&& is_base_of(utf8(self.original@), utf8(self.base@))
    }

    /// Parses a full callsign, keeping the exact spelling and deriving its base.
    pub fn parse(value: &str) -> (res: Result<Self, CallsignError>)
        ensures
            full_result(utf8(value@)) == match res { Ok(_) => Ok(()), Err(e) => Err(e) },
            res matches Ok(c) ==> c@.0 == value@ && is_base_of(utf8(value@), utf8(c@.1)),
    {
        let bytes = value.as_bytes();
        check_shape(bytes, true)?;
        let found = find_base(bytes);
        let (s, e) = match found {
            Some(range) => range,
            None => {
                return Err(CallsignError::MissingBaseCall);
            },
        };
        let mut out: Vec<u8> = Vec::new();
        let mut i = s;
        while i < e
            invariant
                s <= i <= e,
                e <= bytes@.len(),
                out@ == base_bytes(bytes@, s as int, i as int),
            decreases e - i,
        {
            let b = bytes[i];
            let u = if b >= 0x61 && b <= 0x7a { b - 32 } else { b };
            out.push(u);
            i += 1;
            assert(out@ =~= base_bytes(bytes@, s as int, i as int));
        }
        let ghost v = bytes@;
        let ghost bb = out@;
        proof {
            assert(chosen_base(v, s as int, e as int));
            assert forall|k: int| 0 <= k < bb.len() implies is_ascii_byte(#[trigger] bb[k]) && is_alnum(bb[k]) && !is_lower(bb[k]) by {
                assert(bb[k] == upper_byte(v[s + k]));
                assert(is_alnum(v[s + k]) || is_slash(v[s + k]));
                assert(!is_slash(v[s + k]));
            }
            let ka = choose|k: int| s <= k < e && is_alpha(#[trigger] v[k]);
            assert(is_alpha(bb[ka - s]));
            let kd = choose|k: int| s <= k < e && is_digit(#[trigger] v[k]);
            assert(is_digit(bb[kd - s]));
            assert(shape_alphabet(bb, false));
            assert(!has_empty_component(bb));
        }
        let base_value = ascii_string(out.as_slice());
        let base = BaseCallsign { value: base_value };
        Ok(FullCallsign { original: value.to_owned(), base })
    }

    /// Returns the exact full callsign spelling supplied during parsing.
    pub fn original(&self) -> (res: &str)
        ensures
            res@ == self@.0,
    {
        self.original.as_str()
    }

    /// Returns the separate normalized key used by explicit base-call policy.
    pub fn base(&self) -> (res: &BaseCallsign)
        ensures
            res@ == self@.1,
            is_base_of(utf8(self@.0), utf8(res@)),
    {
        proof {
            use_type_invariant(self);
        }
        &self.base
    }
}

impl core::str::FromStr for FullCallsign {
    type Err = CallsignError;

    fn from_str(value: &str) -> (res: Result<Self, CallsignError>)
        ensures
            full_result(utf8(value@)) == match res { Ok(_) => Ok(()), Err(e) => Err(e) },
            res matches Ok(c) ==> c@.0 == value@ && is_base_of(utf8(value@), utf8(c@.1)),
    {
        Self::parse(value)
    }
}

/// Callsign presented by the station on air.
#[derive(Debug, Clone, PartialEq, Eq, Hash)]
pub struct StationCallsign(pub FullCallsign);

/// Callsign of the licensed operator.
#[derive(Debug, Clone, PartialEq, Eq, Hash)]
pub struct OperatorCallsign(pub FullCallsign);

/// Callsign of the station owner or host.
#[derive(Debug, Clone, PartialEq, Eq, Hash)]
pub struct OwnerCallsign(pub FullCallsign);

impl StationCallsign {
    /// Parses the full callsign of this role.
    pub fn parse(value: &str) -> (res: Result<Self, CallsignError>)
        ensures
            full_result(utf8(value@)) == match res { Ok(_) => Ok(()), Err(e) => Err(e) },
            res matches Ok(c) ==> c.0@.0 == value@,
    {
        let call = FullCallsign::parse(value)?;
        Ok(StationCallsign(call))
    }

    /// Returns the complete callsign value for this identity role.
    pub fn callsign(&self) -> (res: &FullCallsign)
        ensures
            *res == self.0,
    {
        &self.0
    }
}

impl OperatorCallsign {
    /// Parses the full callsign of this role.
    pub fn parse(value: &str) -> (res: Result<Self, CallsignError>)
        ensures
            full_result(utf8(value@)) == match res { Ok(_) => Ok(()), Err(e) => Err(e) },
            res matches Ok(c) ==> c.0@.0 == value@,
    {
        let call = FullCallsign::parse(value)?;
        Ok(OperatorCallsign(call))
    }

    /// Returns the complete callsign value for this identity role.
    pub fn callsign(&self) -> (res: &FullCallsign)
        ensures
            *res == self.0,
    {
        &self.0
    }
}

impl OwnerCallsign {
    /// Parses the full callsign of this role.
    pub fn parse(value: &str) -> (res: Result<Self, CallsignError>)
        ensures
            full_result(utf8(value@)) == match res { Ok(_) => Ok(()), Err(e) => Err(e) },
            res matches Ok(c) ==> c.0@.0 == value@,
    {
        let call = FullCallsign::parse(value)?;
        Ok(OwnerCallsign(call))
    }

    /// Returns the complete callsign value for this identity role.
    pub fn callsign(&self) -> (res: &FullCallsign)
        ensures
            *res == self.0,
    {
        &self.0
    }
}

impl core::str::FromStr for StationCallsign {
    type Err = CallsignError;

    fn from_str(value: &str) -> (res: Result<Self, CallsignError>)
        ensures
            full_result(utf8(value@)) == match res { Ok(_) => Ok(()), Err(e) => Err(e) },
            res matches Ok(c) ==> c.0@.0 == value@,
    {
        Self::parse(value)
    }
}

impl core::str::FromStr for OperatorCallsign {
    type Err = CallsignError;

    fn from_str(value: &str) -> (res: Result<Self, CallsignError>)
        ensures
            full_result(utf8(value@)) == match res { Ok(_) => Ok(()), Err(e) => Err(e) },
            res matches Ok(c) ==> c.0@.0 == value@,
    {
        Self::parse(value)
    }
}

impl core::str::FromStr for OwnerCallsign {
    type Err = CallsignError;

    fn from_str(value: &str) -> (res: Result<Self, CallsignError>)
        ensures
            full_result(utf8(value@)) == match res { Ok(_) => Ok(()), Err(e) => Err(e) },
            res matches Ok(c) ==> c.0@.0 == value@,
    {
        Self::parse(value)
    }
}

} // verus!
