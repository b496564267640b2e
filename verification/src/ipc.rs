//! User-scoped local IPC: frame bounds, the length prefix, user-scope tokens,
//! peer authorization policy and cooperative cancellation.
//!
//! A frame is a four-byte big-endian length followed by one JSON value of at
//! most `MAX_FRAME_BYTES` bytes. Sockets, pipes, ownership locks and the JSON
//! codec belong to the platform transport, which consults this module for
//! every bound and every authorization decision.
use std::sync::Arc;
use std::sync::atomic::{AtomicBool, Ordering};
use vstd::prelude::*;
use crate::text::{bytes_of, is_alnum, utf8};

verus! {

/// Maximum JSON payload accepted by the local transport.
pub const MAX_FRAME_BYTES: usize = 65536;

/// Longest accepted per-user scope token, in bytes.
pub const MAX_USER_SCOPE_BYTES: usize = 64;

#[verifier::external_type_specification]
#[verifier::external_body]
pub struct ExIoError(std::io::Error);

#[verifier::external_type_specification]
#[verifier::external_body]
pub struct ExJsonError(serde_json::Error);

/// Stable local-transport failure.
#[derive(Debug)]
pub enum IpcError {
    /// Runtime directory, socket, pipe, or stream operation failed.
    Io(std::io::Error),
    /// Another daemon owns the endpoint lock.
    EndpointActive,
    /// The runtime directory is not private and owned by the current user.
    InsecureRuntimeDirectory,
    /// The per-user scope token is not portable and bounded.
    InvalidUserScope,
    /// A frame declared or serialized more than the fixed maximum.
    FrameTooLarge {
        /// Observed frame length.
        length: usize,
        /// Configured maximum.
        maximum: usize,
    },
    /// JSON framing contained a malformed or incompatible value.
    MalformedFrame(serde_json::Error),
    /// The peer disconnected before a complete frame.
    Disconnected,
    /// Cooperative cancellation was requested.
    Cancelled,
    /// The address kind is not valid on this build platform.
    UnsupportedEndpoint,
    /// Peer credentials identify another local user.
    CrossUserRejected,
    /// The platform did not provide identity evidence required by its policy.
    PeerIdentityUnavailable,
}

/// Whether an error reports a frame of `length` bytes over the fixed maximum.
pub open spec fn is_frame_too_large(e: IpcError, length: nat) -> bool {
    e matches IpcError::FrameTooLarge { length: l, maximum: m } && l == length && m == MAX_FRAME_BYTES
}

/// A byte of a portable user-scope token: ASCII letter, digit, `-` or `_`.
pub open spec fn is_scope_byte(b: u8) -> bool {
    is_alnum(b) || b == 0x2d || b == 0x5f
}

/// A user-scope token of 1 to 64 portable bytes.
pub open spec fn valid_user_scope(bytes: Seq<u8>) -> bool {
    &&& 1 <= bytes.len() <= MAX_USER_SCOPE_BYTES
    &&& forall|i: int| 0 <= i < bytes.len() ==> is_scope_byte(#[trigger] bytes[i])
}

/// Checks the stable sanitized per-user token that scopes an endpoint.
pub fn validate_user_scope(user_scope: &str) -> (res: Result<(), IpcError>)
    ensures
        match res {
            Ok(()) => valid_user_scope(utf8(user_scope@)),
            Err(e) => !valid_user_scope(utf8(user_scope@)) && e is InvalidUserScope,
        },
{
    let bytes = bytes_of(user_scope);
    if bytes.len() < 1 || bytes.len() > MAX_USER_SCOPE_BYTES {
        return Err(IpcError::InvalidUserScope);
    }
    let mut i: usize = 0;
    while i < bytes.len()
        invariant
            i <= bytes@.len(),
            bytes@ == utf8(user_scope@),
            forall|j: int| 0 <= j < i ==> is_scope_byte(#[trigger] bytes@[j]),
        decreases bytes@.len() - i,
    {
        let b: u8 = bytes[i];
        let allowed = (b >= 0x61 && b <= 0x7a) || (b >= 0x41 && b <= 0x5a) || (b >= 0x30 && b <= 0x39)
            || b == 0x2d || b == 0x5f;
        if !allowed {
            assert(!is_scope_byte(bytes@[i as int]));
            return Err(IpcError::InvalidUserScope);
        }
        i += 1;
    }
    Ok(())
}

/// The big-endian bytes of a length below 2^32.
pub open spec fn be_bytes(n: nat) -> Seq<u8> {
    seq![
        (n / 0x100_0000 % 0x100) as u8,
        (n / 0x1_0000 % 0x100) as u8,
        (n / 0x100 % 0x100) as u8,
        (n % 0x100) as u8,
    ]
}

/// The length that four big-endian prefix bytes declare.
pub open spec fn be_value(b: Seq<u8>) -> nat {
    (b[0] * 0x100_0000 + b[1] * 0x1_0000 + b[2] * 0x100 + b[3]) as nat
}

proof fn lemma_be_split(n: u32)
    ensures
        n as int == (n / 0x100_0000 % 0x100) * 0x100_0000 + (n / 0x1_0000 % 0x100) * 0x1_0000
            + (n / 0x100 % 0x100) * 0x100 + n % 0x100,
{
    assert(n == (n / 0x100_0000 % 0x100) * 0x100_0000 + (n / 0x1_0000 % 0x100) * 0x1_0000
        + (n / 0x100 % 0x100) * 0x100 + n % 0x100) by (bit_vector);
}

proof fn lemma_be_join(b0: u8, b1: u8, b2: u8, b3: u8)
    ensures
        ({
            let n: int = b0 * 0x100_0000 + b1 * 0x1_0000 + b2 * 0x100 + b3;
            &&& 0 <= n < 0x1_0000_0000
            &&& n / 0x100_0000 % 0x100 == b0
            &&& n / 0x1_0000 % 0x100 == b1
            &&& n / 0x100 % 0x100 == b2
            &&& n % 0x100 == b3
        }),
{
    assert((b0 * 0x100_0000 + b1 * 0x1_0000 + b2 * 0x100 + b3) / 0x100_0000 % 0x100 == b0
        && (b0 * 0x100_0000 + b1 * 0x1_0000 + b2 * 0x100 + b3) / 0x1_0000 % 0x100 == b1
        && (b0 * 0x100_0000 + b1 * 0x1_0000 + b2 * 0x100 + b3) / 0x100 % 0x100 == b2
        && (b0 * 0x100_0000 + b1 * 0x1_0000 + b2 * 0x100 + b3) % 0x100 == b3) by (bit_vector);
}

/// The length prefix and the declared length determine each other: reading the
/// prefix written for a length gives that length back, and writing the length a
/// prefix declares gives that prefix back.
pub proof fn law_frame_prefix_round_trip(n: nat, prefix: Seq<u8>)
    requires
        n < 0x1_0000_0000,
        prefix.len() == 4,
    ensures
        be_value(be_bytes(n)) == n,
        be_bytes(be_value(prefix)) == prefix,
{
    lemma_be_split(n as u32);
    lemma_be_join(prefix[0], prefix[1], prefix[2], prefix[3]);
    assert(be_bytes(be_value(prefix)) =~= prefix);
}

/// Builds the four-byte prefix of a serialized payload of `length` bytes.
pub fn frame_header(length: usize) -> (res: Result<[u8; 4], IpcError>)
    ensures
        match res {
            Ok(prefix) => length <= MAX_FRAME_BYTES && prefix@ == be_bytes(length as nat),
            Err(e) => length > MAX_FRAME_BYTES && is_frame_too_large(e, length as nat),
        },
{
    if length > MAX_FRAME_BYTES {
        return Err(IpcError::FrameTooLarge { length, maximum: MAX_FRAME_BYTES });
    }
    let n: u32 = length as u32;
    let prefix: [u8; 4] = [
        (n / 0x100_0000 % 0x100) as u8,
        (n / 0x1_0000 % 0x100) as u8,
        (n / 0x100 % 0x100) as u8,
        (n % 0x100) as u8,
    ];
    assert(prefix@ =~= be_bytes(length as nat));
    Ok(prefix)
}

/// Frames one serialized payload: its length prefix followed by the payload.
pub fn encode_frame(payload: &[u8]) -> (res: Result<Vec<u8>, IpcError>)
    ensures
        match res {
            Ok(frame) => payload@.len() <= MAX_FRAME_BYTES && frame@ == be_bytes(payload@.len()) + payload@,
            Err(e) => payload@.len() > MAX_FRAME_BYTES && is_frame_too_large(e, payload@.len()),
        },
{
    let prefix = frame_header(payload.len())?;
    let mut frame: Vec<u8> = Vec::with_capacity(4 + payload.len());
    frame.push(prefix[0]);
    frame.push(prefix[1]);
    frame.push(prefix[2]);
    frame.push(prefix[3]);
    let mut i: usize = 0;
    while i < payload.len()
        invariant
            i <= payload@.len(),
            frame@ == be_bytes(payload@.len()) + payload@.subrange(0, i as int),
        decreases payload@.len() - i,
    {
        frame.push(payload[i]);
        i += 1;
        assert(payload@.subrange(0, i as int) =~= payload@.subrange(0, i - 1) + seq![payload@[i - 1]]);
    }
    assert(payload@.subrange(0, payload@.len() as int) =~= payload@);
    Ok(frame)
}

/// Reads the payload length that a received prefix declares, refusing any
/// length over the maximum before a payload buffer is allocated.
pub fn frame_length(prefix: [u8; 4]) -> (res: Result<usize, IpcError>)
    ensures
        match res {
            Ok(length) => length == be_value(prefix@) && length <= MAX_FRAME_BYTES,
            Err(e) => be_value(prefix@) > MAX_FRAME_BYTES && is_frame_too_large(e, be_value(prefix@)),
        },
{
    let value: u32 = (prefix[0] as u32) * 0x100_0000 + (prefix[1] as u32) * 0x1_0000 + (prefix[2] as u32) * 0x100
        + (prefix[3] as u32);
    let length: usize = value as usize;
    if length > MAX_FRAME_BYTES {
        return Err(IpcError::FrameTooLarge { length, maximum: MAX_FRAME_BYTES });
    }
    Ok(length)
}

/// Strength of peer authentication available from the platform adapter.
#[derive(Debug, Clone, Copy, PartialEq, Eq, Structural)]
pub enum PeerAuthorization {
    /// Unix peer credentials match the daemon's effective user ID.
    SameUserVerified,
    /// Windows named-pipe DACL restricts endpoint opening to owner/system, but
    /// the portable adapter exposes only the peer process ID.
    PrivateEndpointOnly,
}

impl PeerAuthorization {
    /// Whether this evidence is sufficient for a future privileged command.
    ///
    /// Only verified same-user credentials qualify; a reusable process ID never does.
    pub fn permits_future_privileged_command(self) -> (res: bool)
        ensures
            res == (self == PeerAuthorization::SameUserVerified),
    {
        match self {
            PeerAuthorization::SameUserVerified => true,
            PeerAuthorization::PrivateEndpointOnly => false,
        }
    }
}

/// Authorizes a Unix peer from its effective user ID, if the platform gave one,
/// against the daemon's own effective user ID.
pub fn authorize_same_user(peer_effective_user: Option<u32>, effective_user: u32) -> (res: Result<
    PeerAuthorization,
    IpcError,
>)
    ensures
        match peer_effective_user {
            None => res matches Err(e) && e is PeerIdentityUnavailable,
            Some(peer) => if peer == effective_user {
                res matches Ok(a) && a == PeerAuthorization::SameUserVerified
            } else {
                res matches Err(e) && e is CrossUserRejected
            },
        },
{
    match peer_effective_user {
        None => Err(IpcError::PeerIdentityUnavailable),
        Some(peer) => if peer == effective_user {
            Ok(PeerAuthorization::SameUserVerified)
        } else {
            Err(IpcError::CrossUserRejected)
        },
    }
}

/// Authorizes a named-pipe peer, whose endpoint is private to its owner, from
/// the process ID the platform reported, if any.
pub fn authorize_private_endpoint(peer_process_id: Option<u32>) -> (res: Result<PeerAuthorization, IpcError>)
    ensures
        match peer_process_id {
            None => res matches Err(e) && e is PeerIdentityUnavailable,
            Some(_) => res matches Ok(a) && a == PeerAuthorization::PrivateEndpointOnly,
        },
{
    match peer_process_id {
        None => Err(IpcError::PeerIdentityUnavailable),
        Some(_) => Ok(PeerAuthorization::PrivateEndpointOnly),
    }
}

/// Cooperative cancellation checked at connection and frame boundaries.
///
/// Clones share one flag, which other threads may set at any time; what a read
/// returns therefore depends on them, and only `cancel` followed by a read on
/// the same thread is certain to observe the request.
#[derive(Debug, Clone)]
pub struct CancellationToken(Arc<AtomicBool>);

impl CancellationToken {
    /// Creates an active token.
    pub fn new() -> (res: Self) {
        CancellationToken(Arc::new(AtomicBool::new(false)))
    }

    /// Requests cancellation.
    pub fn cancel(&self) {
        self.0.store(true, Ordering::Release);
    }

    /// Returns whether cancellation was requested.
    pub fn is_cancelled(&self) -> (res: bool) {
        self.0.load(Ordering::Acquire)
    }

    /// Fails with `Cancelled` once cancellation was observed, else succeeds.
    pub fn check(&self) -> (res: Result<(), IpcError>)
        ensures
            res is Ok || (res matches Err(e) && e is Cancelled),
    {
        if self.is_cancelled() {
            Err(IpcError::Cancelled)
        } else {
            Ok(())
        }
    }
}

impl Default for CancellationToken {
    fn default() -> (res: Self) {
        CancellationToken::new()
    }
}

} // verus!
