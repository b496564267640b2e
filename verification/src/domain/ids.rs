//! Opaque identities shared across SlotPilot boundaries.
//!
//! Every identity is a lowercase four-byte type prefix (ending in `_`)
//! followed by 8 to 64 lowercase ASCII letters or digits.
use vstd::prelude::*;
use crate::text::{utf8, is_lower, is_digit, all_lower_or_digit, ascii_string};

verus! {

/// Failure parsing a typed SlotPilot identity.
#[derive(Debug, Clone, PartialEq, Eq)]
pub enum IdError {
    /// The textual prefix does not match the requested identity type.
    WrongPrefix {
        /// Required prefix, including its trailing underscore.
        expected: &'static str,
    },
    /// The payload length is outside the stable wire bounds.
    InvalidLength,
    /// The payload contains a character outside the portable wire alphabet.
    InvalidCharacter,
}

/// Whether `v` begins with the four prefix bytes.
pub open spec fn has_prefix(v: Seq<u8>, prefix: Seq<u8>) -> bool {
    prefix.len() <= v.len() && v.subrange(0, prefix.len() as int) == prefix
}

/// Whether an identity payload has a valid length and alphabet.
pub open spec fn valid_payload(p: Seq<u8>) -> bool {
    &&& 8 <= p.len() <= 64
    &&& forall|i: int| 0 <= i < p.len() ==> (is_lower(#[trigger] p[i]) || is_digit(p[i]))
}

/// Whether `v` is a complete identity wire value for `prefix`.
pub open spec fn valid_id(v: Seq<u8>, prefix: Seq<u8>) -> bool {
    has_prefix(v, prefix) && valid_payload(v.skip(prefix.len() as int))
}

/// The outcome of checking `v` against `prefix`, in the order the checks are made:
/// prefix, then payload length, then payload alphabet.
pub open spec fn id_check(v: Seq<u8>, prefix: Seq<u8>, expected: &'static str, res: Result<(), IdError>) -> bool {
    match res {
        Ok(()) => valid_id(v, prefix),
        Err(IdError::WrongPrefix { expected: e }) => !has_prefix(v, prefix) && e == expected,
        Err(IdError::InvalidLength) => has_prefix(v, prefix) && !(8 <= v.len() - prefix.len() <= 64),
        Err(IdError::InvalidCharacter) => has_prefix(v, prefix) && 8 <= v.len() - prefix.len() <= 64
            && !valid_payload(v.skip(prefix.len() as int)),
    }
}

/// Checks one identity wire value against a four-byte prefix.
fn check_id(value: &str, prefix: [u8; 4], expected: &'static str) -> (res: Result<(), IdError>)
    ensures
        id_check(utf8(value@), prefix@, expected, res),
{
    let bytes = value.as_bytes();
    if bytes.len() < 4 || bytes[0] != prefix[0] || bytes[1] != prefix[1] || bytes[2] != prefix[2]
        || bytes[3] != prefix[3] {
        proof {
            if has_prefix(bytes@, prefix@) {
                assert(bytes@.subrange(0, 4)[0] == bytes@[0]);
                assert(bytes@.subrange(0, 4)[1] == bytes@[1]);
                assert(bytes@.subrange(0, 4)[2] == bytes@[2]);
                assert(bytes@.subrange(0, 4)[3] == bytes@[3]);
            }
        }
        return Err(IdError::WrongPrefix { expected });
    }
    assert(bytes@.subrange(0, 4) =~= prefix@);
    let payload_len = bytes.len() - 4;
    if payload_len < 8 || payload_len > 64 {
        return Err(IdError::InvalidLength);
    }
    let ok = all_lower_or_digit(bytes, 4);
    proof {
        let p = bytes@.skip(4);
        assert forall|i: int| 0 <= i < p.len() implies p[i] == bytes@[i + 4] by {}
        if ok {
            assert forall|i: int| 0 <= i < p.len() implies (is_lower(#[trigger] p[i]) || is_digit(p[i])) by {
                assert(p[i] == bytes@[i + 4]);
            }
        } else {
            let k = choose|k: int| 4 <= k < bytes@.len() && !(is_lower(#[trigger] bytes@[k]) || is_digit(bytes@[k]));
            assert(p[k - 4] == bytes@[k]);
        }
    }
    if !ok {
        return Err(IdError::InvalidCharacter);
    }
    Ok(())
}

/// The prefix bytes of [`RequestId`].
pub open spec fn requestid_prefix() -> Seq<u8> {
    seq![0x72, 0x65, 0x71, 0x5f]
}

/// Identity supplied by a client for a request.
#[derive(Debug, PartialEq, Eq, Hash, PartialOrd, Ord)]
pub struct RequestId {
    value: String,
}

impl View for RequestId {
    type V = Seq<char>;

    closed spec fn view(&self) -> Seq<char> {
        self.value@
    }
}

impl RequestId {
    #[verifier::type_invariant]
    spec fn inv(self) -> bool {
        valid_id(utf8(self.value@), requestid_prefix())
    }

    /// Parses a complete wire value, including its type prefix.
    pub fn parse(value: &str) -> (res: Result<Self, IdError>)
        ensures
            id_check(utf8(value@), requestid_prefix(), "req_", match res { Ok(_) => Ok(()), Err(e) => Err(e) }),
            res matches Ok(id) ==> id@ == value@,
    {
        let prefix: [u8; 4] = [0x72, 0x65, 0x71, 0x5f];
        assert(prefix@ =~= requestid_prefix());
        match check_id(value, prefix, "req_") {
            Ok(()) => Ok(RequestId { value: value.to_owned() }),
            Err(e) => Err(e),
        }
    }

    /// Returns the complete stable wire value, including its type prefix.
    pub fn as_str(&self) -> (res: &str)
        ensures
            res@ == self@,
            valid_id(utf8(res@), requestid_prefix()),
    {
        proof {
            use_type_invariant(self);
        }
        self.value.as_str()
    }

    /// Returns the owned wire value.
    pub fn into_string(self) -> (res: String)
        ensures
            res@ == self@,
    {
        self.value
    }
}

impl core::str::FromStr for RequestId {
    type Err = IdError;

    fn from_str(value: &str) -> (res: Result<Self, IdError>)
        ensures
            id_check(utf8(value@), requestid_prefix(), "req_", match res { Ok(_) => Ok(()), Err(e) => Err(e) }),
            res matches Ok(id) ==> id@ == value@,
    {
        Self::parse(value)
    }
}

/// The prefix bytes of [`CommandId`].
pub open spec fn commandid_prefix() -> Seq<u8> {
    seq![0x63, 0x6d, 0x64, 0x5f]
}

/// Identity assigned to an accepted command.
#[derive(Debug, PartialEq, Eq, Hash, PartialOrd, Ord)]
pub struct CommandId {
    value: String,
}

impl View for CommandId {
    type V = Seq<char>;

    closed spec fn view(&self) -> Seq<char> {
        self.value@
    }
}

impl CommandId {
    #[verifier::type_invariant]
    spec fn inv(self) -> bool {
        valid_id(utf8(self.value@), commandid_prefix())
    }

    /// Parses a complete wire value, including its type prefix.
    pub fn parse(value: &str) -> (res: Result<Self, IdError>)
        ensures
            id_check(utf8(value@), commandid_prefix(), "cmd_", match res { Ok(_) => Ok(()), Err(e) => Err(e) }),
            res matches Ok(id) ==> id@ == value@,
    {
        let prefix: [u8; 4] = [0x63, 0x6d, 0x64, 0x5f];
        assert(prefix@ =~= commandid_prefix());
        match check_id(value, prefix, "cmd_") {
            Ok(()) => Ok(CommandId { value: value.to_owned() }),
            Err(e) => Err(e),
        }
    }

    /// Returns the complete stable wire value, including its type prefix.
    pub fn as_str(&self) -> (res: &str)
        ensures
            res@ == self@,
            valid_id(utf8(res@), commandid_prefix()),
    {
        proof {
            use_type_invariant(self);
        }
        self.value.as_str()
    }

    /// Returns the owned wire value.
    pub fn into_string(self) -> (res: String)
        ensures
            res@ == self@,
    {
        self.value
    }
}

impl core::str::FromStr for CommandId {
    type Err = IdError;

    fn from_str(value: &str) -> (res: Result<Self, IdError>)
        ensures
            id_check(utf8(value@), commandid_prefix(), "cmd_", match res { Ok(_) => Ok(()), Err(e) => Err(e) }),
            res matches Ok(id) ==> id@ == value@,
    {
        Self::parse(value)
    }
}

/// The prefix bytes of [`EventId`].
pub open spec fn eventid_prefix() -> Seq<u8> {
    seq![0x65, 0x76, 0x74, 0x5f]
}

/// Identity assigned to an operational event.
#[derive(Debug, PartialEq, Eq, Hash, PartialOrd, Ord)]
pub struct EventId {
    value: String,
}

impl View for EventId {
    type V = Seq<char>;

    closed spec fn view(&self) -> Seq<char> {
        self.value@
    }
}

impl EventId {
    #[verifier::type_invariant]
    spec fn inv(self) -> bool {
        valid_id(utf8(self.value@), eventid_prefix())
    }

    /// Parses a complete wire value, including its type prefix.
    pub fn parse(value: &str) -> (res: Result<Self, IdError>)
        ensures
            id_check(utf8(value@), eventid_prefix(), "evt_", match res { Ok(_) => Ok(()), Err(e) => Err(e) }),
            res matches Ok(id) ==> id@ == value@,
    {
        let prefix: [u8; 4] = [0x65, 0x76, 0x74, 0x5f];
        assert(prefix@ =~= eventid_prefix());
        match check_id(value, prefix, "evt_") {
            Ok(()) => Ok(EventId { value: value.to_owned() }),
            Err(e) => Err(e),
        }
    }

    /// Returns the complete stable wire value, including its type prefix.
    pub fn as_str(&self) -> (res: &str)
        ensures
            res@ == self@,
            valid_id(utf8(res@), eventid_prefix()),
    {
        proof {
            use_type_invariant(self);
        }
        self.value.as_str()
    }

    /// Returns the owned wire value.
    pub fn into_string(self) -> (res: String)
        ensures
            res@ == self@,
    {
        self.value
    }
}

impl core::str::FromStr for EventId {
    type Err = IdError;

    fn from_str(value: &str) -> (res: Result<Self, IdError>)
        ensures
            id_check(utf8(value@), eventid_prefix(), "evt_", match res { Ok(_) => Ok(()), Err(e) => Err(e) }),
            res matches Ok(id) ==> id@ == value@,
    {
        Self::parse(value)
    }
}

/// The prefix bytes of [`SessionId`].
pub open spec fn sessionid_prefix() -> Seq<u8> {
    seq![0x73, 0x65, 0x73, 0x5f]
}

/// Identity of an operating session.
#[derive(Debug, PartialEq, Eq, Hash, PartialOrd, Ord)]
pub struct SessionId {
    value: String,
}

impl View for SessionId {
    type V = Seq<char>;

    closed spec fn view(&self) -> Seq<char> {
        self.value@
    }
}

impl SessionId {
    #[verifier::type_invariant]
    spec fn inv(self) -> bool {
        valid_id(utf8(self.value@), sessionid_prefix())
    }

    /// Parses a complete wire value, including its type prefix.
    pub fn parse(value: &str) -> (res: Result<Self, IdError>)
        ensures
            id_check(utf8(value@), sessionid_prefix(), "ses_", match res { Ok(_) => Ok(()), Err(e) => Err(e) }),
            res matches Ok(id) ==> id@ == value@,
    {
        let prefix: [u8; 4] = [0x73, 0x65, 0x73, 0x5f];
        assert(prefix@ =~= sessionid_prefix());
        match check_id(value, prefix, "ses_") {
            Ok(()) => Ok(SessionId { value: value.to_owned() }),
            Err(e) => Err(e),
        }
    }

    /// Returns the complete stable wire value, including its type prefix.
    pub fn as_str(&self) -> (res: &str)
        ensures
            res@ == self@,
            valid_id(utf8(res@), sessionid_prefix()),
    {
        proof {
            use_type_invariant(self);
        }
        self.value.as_str()
    }

    /// Returns the owned wire value.
    pub fn into_string(self) -> (res: String)
        ensures
            res@ == self@,
    {
        self.value
    }
}

impl core::str::FromStr for SessionId {
    type Err = IdError;

    fn from_str(value: &str) -> (res: Result<Self, IdError>)
        ensures
            id_check(utf8(value@), sessionid_prefix(), "ses_", match res { Ok(_) => Ok(()), Err(e) => Err(e) }),
            res matches Ok(id) ==> id@ == value@,
    {
        Self::parse(value)
    }
}

/// The prefix bytes of [`ServiceInstanceId`].
pub open spec fn serviceinstanceid_prefix() -> Seq<u8> {
    seq![0x73, 0x76, 0x63, 0x5f]
}

/// Identity of one running daemon process generation.
#[derive(Debug, PartialEq, Eq, Hash, PartialOrd, Ord)]
pub struct ServiceInstanceId {
    value: String,
}

impl View for ServiceInstanceId {
    type V = Seq<char>;

    closed spec fn view(&self) -> Seq<char> {
        self.value@
    }
}

impl ServiceInstanceId {
    #[verifier::type_invariant]
    spec fn inv(self) -> bool {
        valid_id(utf8(self.value@), serviceinstanceid_prefix())
    }

    /// Parses a complete wire value, including its type prefix.
    pub fn parse(value: &str) -> (res: Result<Self, IdError>)
        ensures
            id_check(utf8(value@), serviceinstanceid_prefix(), "svc_", match res { Ok(_) => Ok(()), Err(e) => Err(e) }),
            res matches Ok(id) ==> id@ == value@,
    {
        let prefix: [u8; 4] = [0x73, 0x76, 0x63, 0x5f];
        assert(prefix@ =~= serviceinstanceid_prefix());
        match check_id(value, prefix, "svc_") {
            Ok(()) => Ok(ServiceInstanceId { value: value.to_owned() }),
            Err(e) => Err(e),
        }
    }

    /// Returns the complete stable wire value, including its type prefix.
    pub fn as_str(&self) -> (res: &str)
        ensures
            res@ == self@,
            valid_id(utf8(res@), serviceinstanceid_prefix()),
    {
        proof {
            use_type_invariant(self);
        }
        self.value.as_str()
    }

    /// Returns the owned wire value.
    pub fn into_string(self) -> (res: String)
        ensures
            res@ == self@,
    {
        self.value
    }
}

impl core::str::FromStr for ServiceInstanceId {
    type Err = IdError;

    fn from_str(value: &str) -> (res: Result<Self, IdError>)
        ensures
            id_check(utf8(value@), serviceinstanceid_prefix(), "svc_", match res { Ok(_) => Ok(()), Err(e) => Err(e) }),
            res matches Ok(id) ==> id@ == value@,
    {
        Self::parse(value)
    }
}

/// The prefix bytes of [`ReceiveWindowId`].
pub open spec fn receivewindowid_prefix() -> Seq<u8> {
    seq![0x72, 0x78, 0x77, 0x5f]
}

/// Stable identity of one persisted receive window and its diagnostic evidence.
#[derive(Debug, PartialEq, Eq, Hash, PartialOrd, Ord)]
pub struct ReceiveWindowId {
    value: String,
}

impl View for ReceiveWindowId {
    type V = Seq<char>;

    closed spec fn view(&self) -> Seq<char> {
        self.value@
    }
}

impl ReceiveWindowId {
    #[verifier::type_invariant]
    spec fn inv(self) -> bool {
        valid_id(utf8(self.value@), receivewindowid_prefix())
    }

    /// Parses a complete wire value, including its type prefix.
    pub fn parse(value: &str) -> (res: Result<Self, IdError>)
        ensures
            id_check(utf8(value@), receivewindowid_prefix(), "rxw_", match res { Ok(_) => Ok(()), Err(e) => Err(e) }),
            res matches Ok(id) ==> id@ == value@,
    {
        let prefix: [u8; 4] = [0x72, 0x78, 0x77, 0x5f];
        assert(prefix@ =~= receivewindowid_prefix());
        match check_id(value, prefix, "rxw_") {
            Ok(()) => Ok(ReceiveWindowId { value: value.to_owned() }),
            Err(e) => Err(e),
        }
    }

    /// Returns the complete stable wire value, including its type prefix.
    pub fn as_str(&self) -> (res: &str)
        ensures
            res@ == self@,
            valid_id(utf8(res@), receivewindowid_prefix()),
    {
        proof {
            use_type_invariant(self);
        }
        self.value.as_str()
    }

    /// Returns the owned wire value.
    pub fn into_string(self) -> (res: String)
        ensures
            res@ == self@,
    {
        self.value
    }
}

impl core::str::FromStr for ReceiveWindowId {
    type Err = IdError;

    fn from_str(value: &str) -> (res: Result<Self, IdError>)
        ensures
            id_check(utf8(value@), receivewindowid_prefix(), "rxw_", match res { Ok(_) => Ok(()), Err(e) => Err(e) }),
            res matches Ok(id) ==> id@ == value@,
    {
        Self::parse(value)
    }
}

/// The prefix bytes of [`ProfileRevisionId`].
pub open spec fn profilerevisionid_prefix() -> Seq<u8> {
    seq![0x70, 0x72, 0x76, 0x5f]
}

/// Identity of one immutable profile revision.
#[derive(Debug, PartialEq, Eq, Hash, PartialOrd, Ord)]
pub struct ProfileRevisionId {
    value: String,
}

impl View for ProfileRevisionId {
    type V = Seq<char>;

    closed spec fn view(&self) -> Seq<char> {
        self.value@
    }
}

impl ProfileRevisionId {
    #[verifier::type_invariant]
    spec fn inv(self) -> bool {
        valid_id(utf8(self.value@), profilerevisionid_prefix())
    }

    /// Parses a complete wire value, including its type prefix.
    pub fn parse(value: &str) -> (res: Result<Self, IdError>)
        ensures
            id_check(utf8(value@), profilerevisionid_prefix(), "prv_", match res { Ok(_) => Ok(()), Err(e) => Err(e) }),
            res matches Ok(id) ==> id@ == value@,
    {
        let prefix: [u8; 4] = [0x70, 0x72, 0x76, 0x5f];
        assert(prefix@ =~= profilerevisionid_prefix());
        match check_id(value, prefix, "prv_") {
            Ok(()) => Ok(ProfileRevisionId { value: value.to_owned() }),
            Err(e) => Err(e),
        }
    }

    /// Returns the complete stable wire value, including its type prefix.
    pub fn as_str(&self) -> (res: &str)
        ensures
            res@ == self@,
            valid_id(utf8(res@), profilerevisionid_prefix()),
    {
        proof {
            use_type_invariant(self);
        }
        self.value.as_str()
    }

    /// Returns the owned wire value.
    pub fn into_string(self) -> (res: String)
        ensures
            res@ == self@,
    {
        self.value
    }
}

impl core::str::FromStr for ProfileRevisionId {
    type Err = IdError;

    fn from_str(value: &str) -> (res: Result<Self, IdError>)
        ensures
            id_check(utf8(value@), profilerevisionid_prefix(), "prv_", match res { Ok(_) => Ok(()), Err(e) => Err(e) }),
            res matches Ok(id) ==> id@ == value@,
    {
        Self::parse(value)
    }
}

/// The prefix bytes of [`QsoId`].
pub open spec fn qsoid_prefix() -> Seq<u8> {
    seq![0x71, 0x73, 0x6f, 0x5f]
}

/// Identity of a completed contact.
#[derive(Debug, PartialEq, Eq, Hash, PartialOrd, Ord)]
pub struct QsoId {
    value: String,
}

impl View for QsoId {
    type V = Seq<char>;

    closed spec fn view(&self) -> Seq<char> {
        self.value@
    }
}

impl QsoId {
    #[verifier::type_invariant]
    spec fn inv(self) -> bool {
        valid_id(utf8(self.value@), qsoid_prefix())
    }

    /// Parses a complete wire value, including its type prefix.
    pub fn parse(value: &str) -> (res: Result<Self, IdError>)
        ensures
            id_check(utf8(value@), qsoid_prefix(), "qso_", match res { Ok(_) => Ok(()), Err(e) => Err(e) }),
            res matches Ok(id) ==> id@ == value@,
    {
        let prefix: [u8; 4] = [0x71, 0x73, 0x6f, 0x5f];
        assert(prefix@ =~= qsoid_prefix());
        match check_id(value, prefix, "qso_") {
            Ok(()) => Ok(QsoId { value: value.to_owned() }),
            Err(e) => Err(e),
        }
    }

    /// Returns the complete stable wire value, including its type prefix.
    pub fn as_str(&self) -> (res: &str)
        ensures
            res@ == self@,
            valid_id(utf8(res@), qsoid_prefix()),
    {
        proof {
            use_type_invariant(self);
        }
        self.value.as_str()
    }

    /// Returns the owned wire value.
    pub fn into_string(self) -> (res: String)
        ensures
            res@ == self@,
    {
        self.value
    }
}

impl core::str::FromStr for QsoId {
    type Err = IdError;

    fn from_str(value: &str) -> (res: Result<Self, IdError>)
        ensures
            id_check(utf8(value@), qsoid_prefix(), "qso_", match res { Ok(_) => Ok(()), Err(e) => Err(e) }),
            res matches Ok(id) ==> id@ == value@,
    {
        Self::parse(value)
    }
}

/// The prefix bytes of [`QsoAttemptId`].
pub open spec fn qsoattemptid_prefix() -> Seq<u8> {
    seq![0x71, 0x61, 0x74, 0x5f]
}

/// Identity of a contact attempt, whether completed or not.
#[derive(Debug, PartialEq, Eq, Hash, PartialOrd, Ord)]
pub struct QsoAttemptId {
    value: String,
}

impl View for QsoAttemptId {
    type V = Seq<char>;

    closed spec fn view(&self) -> Seq<char> {
        self.value@
    }
}

impl QsoAttemptId {
    #[verifier::type_invariant]
    spec fn inv(self) -> bool {
        valid_id(utf8(self.value@), qsoattemptid_prefix())
    }

    /// Parses a complete wire value, including its type prefix.
    pub fn parse(value: &str) -> (res: Result<Self, IdError>)
        ensures
            id_check(utf8(value@), qsoattemptid_prefix(), "qat_", match res { Ok(_) => Ok(()), Err(e) => Err(e) }),
            res matches Ok(id) ==> id@ == value@,
    {
        let prefix: [u8; 4] = [0x71, 0x61, 0x74, 0x5f];
        assert(prefix@ =~= qsoattemptid_prefix());
        match check_id(value, prefix, "qat_") {
            Ok(()) => Ok(QsoAttemptId { value: value.to_owned() }),
            Err(e) => Err(e),
        }
    }

    /// Returns the complete stable wire value, including its type prefix.
    pub fn as_str(&self) -> (res: &str)
        ensures
            res@ == self@,
            valid_id(utf8(res@), qsoattemptid_prefix()),
    {
        proof {
            use_type_invariant(self);
        }
        self.value.as_str()
    }

    /// Returns the owned wire value.
    pub fn into_string(self) -> (res: String)
        ensures
            res@ == self@,
    {
        self.value
    }
}

impl core::str::FromStr for QsoAttemptId {
    type Err = IdError;

    fn from_str(value: &str) -> (res: Result<Self, IdError>)
        ensures
            id_check(utf8(value@), qsoattemptid_prefix(), "qat_", match res { Ok(_) => Ok(()), Err(e) => Err(e) }),
            res matches Ok(id) ==> id@ == value@,
    {
        Self::parse(value)
    }
}

/// The prefix bytes of [`TransmissionId`].
pub open spec fn transmissionid_prefix() -> Seq<u8> {
    seq![0x74, 0x78, 0x6d, 0x5f]
}

/// Identity of a proposed or recorded transmission.
#[derive(Debug, PartialEq, Eq, Hash, PartialOrd, Ord)]
pub struct TransmissionId {
    value: String,
}

impl View for TransmissionId {
    type V = Seq<char>;

    closed spec fn view(&self) -> Seq<char> {
        self.value@
    }
}

impl TransmissionId {
    #[verifier::type_invariant]
    spec fn inv(self) -> bool {
        valid_id(utf8(self.value@), transmissionid_prefix())
    }

    /// Parses a complete wire value, including its type prefix.
    pub fn parse(value: &str) -> (res: Result<Self, IdError>)
        ensures
            id_check(utf8(value@), transmissionid_prefix(), "txm_", match res { Ok(_) => Ok(()), Err(e) => Err(e) }),
            res matches Ok(id) ==> id@ == value@,
    {
        let prefix: [u8; 4] = [0x74, 0x78, 0x6d, 0x5f];
        assert(prefix@ =~= transmissionid_prefix());
        match check_id(value, prefix, "txm_") {
            Ok(()) => Ok(TransmissionId { value: value.to_owned() }),
            Err(e) => Err(e),
        }
    }

    /// Returns the complete stable wire value, including its type prefix.
    pub fn as_str(&self) -> (res: &str)
        ensures
            res@ == self@,
            valid_id(utf8(res@), transmissionid_prefix()),
    {
        proof {
            use_type_invariant(self);
        }
        self.value.as_str()
    }

    /// Returns the owned wire value.
    pub fn into_string(self) -> (res: String)
        ensures
            res@ == self@,
    {
        self.value
    }
}

impl core::str::FromStr for TransmissionId {
    type Err = IdError;

    fn from_str(value: &str) -> (res: Result<Self, IdError>)
        ensures
            id_check(utf8(value@), transmissionid_prefix(), "txm_", match res { Ok(_) => Ok(()), Err(e) => Err(e) }),
            res matches Ok(id) ==> id@ == value@,
    {
        Self::parse(value)
    }
}

impl Clone for RequestId {
    fn clone(&self) -> (res: Self)
        ensures
            res == *self,
    {
        proof {
            use_type_invariant(self);
        }
        RequestId { value: self.value.clone() }
    }
}

impl Clone for CommandId {
    fn clone(&self) -> (res: Self)
        ensures
            res == *self,
    {
        proof {
            use_type_invariant(self);
        }
        CommandId { value: self.value.clone() }
    }
}

impl Clone for EventId {
    fn clone(&self) -> (res: Self)
        ensures
            res == *self,
    {
        proof {
            use_type_invariant(self);
        }
        EventId { value: self.value.clone() }
    }
}

impl Clone for SessionId {
    fn clone(&self) -> (res: Self)
        ensures
            res == *self,
    {
        proof {
            use_type_invariant(self);
        }
        SessionId { value: self.value.clone() }
    }
}

impl Clone for ServiceInstanceId {
    fn clone(&self) -> (res: Self)
        ensures
            res == *self,
    {
        proof {
            use_type_invariant(self);
        }
        ServiceInstanceId { value: self.value.clone() }
    }
}

impl Clone for ReceiveWindowId {
    fn clone(&self) -> (res: Self)
        ensures
            res == *self,
    {
        proof {
            use_type_invariant(self);
        }
        ReceiveWindowId { value: self.value.clone() }
    }
}

impl Clone for ProfileRevisionId {
    fn clone(&self) -> (res: Self)
        ensures
            res == *self,
    {
        proof {
            use_type_invariant(self);
        }
        ProfileRevisionId { value: self.value.clone() }
    }
}

impl Clone for QsoId {
    fn clone(&self) -> (res: Self)
        ensures
            res == *self,
    {
        proof {
            use_type_invariant(self);
        }
        QsoId { value: self.value.clone() }
    }
}

impl Clone for QsoAttemptId {
    fn clone(&self) -> (res: Self)
        ensures
            res == *self,
    {
        proof {
            use_type_invariant(self);
        }
        QsoAttemptId { value: self.value.clone() }
    }
}

impl Clone for TransmissionId {
    fn clone(&self) -> (res: Self)
        ensures
            res == *self,
    {
        proof {
            use_type_invariant(self);
        }
        TransmissionId { value: self.value.clone() }
    }
}

impl CommandId {
    /// Derives the accepted-command identity from its request: the request
    /// payload behind the `cmd_` prefix.
    ///
    /// This preserves one stable command identity per accepted request without
    /// introducing a random or clock dependency into retry handling.
    pub fn for_request(request_id: &RequestId) -> (res: CommandId)
        ensures
            utf8(res@) == commandid_prefix() + utf8(request_id@).skip(4),
    {
        proof {
            use_type_invariant(request_id);
        }
        let bytes = request_id.value.as_str().as_bytes();
        let mut out: Vec<u8> = Vec::new();
        out.push(0x63);
        out.push(0x6d);
        out.push(0x64);
        out.push(0x5f);
        let mut i: usize = 4;
        while i < bytes.len()
            invariant
                4 <= i <= bytes@.len(),
                bytes@ == utf8(request_id.value@),
                valid_id(bytes@, requestid_prefix()),
                out@ == commandid_prefix() + bytes@.subrange(4, i as int),
            decreases bytes@.len() - i,
        {
            out.push(bytes[i]);
            i += 1;
            assert(out@ =~= commandid_prefix() + bytes@.subrange(4, i as int));
        }
        let ghost whole = out@;
        proof {
            assert(bytes@.subrange(4, bytes@.len() as int) =~= bytes@.skip(4));
            assert(whole.subrange(0, 4) =~= commandid_prefix());
            assert(whole.skip(4) =~= bytes@.skip(4));
            assert forall|j: int| 0 <= j < whole.len() implies crate::text::is_ascii_byte(#[trigger] whole[j]) by {
                if j >= 4 {
                    assert(whole[j] == bytes@.skip(4)[j - 4]);
                }
            }
        }
        let value = ascii_string(out.as_slice());
        CommandId { value }
    }
}

} // verus!
