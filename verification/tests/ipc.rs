use slotpilot::ipc::{
    authorize_private_endpoint, authorize_same_user, encode_frame, frame_header, frame_length,
    validate_user_scope, CancellationToken, IpcError, PeerAuthorization, MAX_FRAME_BYTES,
};

#[test]
fn oversized_prefix_and_cancellation_are_deterministic() {
    let token = CancellationToken::new();
    let oversized = ((MAX_FRAME_BYTES + 1) as u32).to_be_bytes();
    assert!(matches!(
        frame_length(oversized),
        Err(IpcError::FrameTooLarge { length, maximum }) if length == MAX_FRAME_BYTES + 1 && maximum == MAX_FRAME_BYTES
    ));
    assert!(token.check().is_ok());
    token.cancel();
    assert!(token.is_cancelled());
    assert!(matches!(token.check(), Err(IpcError::Cancelled)));
    let shared = token.clone();
    assert!(matches!(shared.check(), Err(IpcError::Cancelled)));
}

#[test]
fn frame_prefix_is_big_endian_and_round_trips() {
    assert_eq!(frame_header(0).unwrap(), [0, 0, 0, 0]);
    assert_eq!(frame_header(8).unwrap(), [0, 0, 0, 8]);
    assert_eq!(frame_header(0x1234).unwrap(), [0, 0, 0x12, 0x34]);
    assert_eq!(frame_header(MAX_FRAME_BYTES).unwrap(), [0, 1, 0, 0]);
    for length in [0usize, 1, 255, 256, 4095, 65535, MAX_FRAME_BYTES] {
        let prefix = frame_header(length).unwrap();
        assert_eq!(prefix, (length as u32).to_be_bytes());
        assert_eq!(frame_length(prefix).unwrap(), length);
    }
}

#[test]
fn oversized_payload_is_refused_before_framing() {
    assert!(matches!(
        frame_header(MAX_FRAME_BYTES + 1),
        Err(IpcError::FrameTooLarge { length, maximum }) if length == MAX_FRAME_BYTES + 1 && maximum == MAX_FRAME_BYTES
    ));
    let payload = vec![b'x'; MAX_FRAME_BYTES + 1];
    assert!(matches!(encode_frame(&payload), Err(IpcError::FrameTooLarge { .. })));
    assert!(matches!(frame_length([0xff, 0xff, 0xff, 0xff]), Err(IpcError::FrameTooLarge { length, .. }) if length == 0xffff_ffff));
}

#[test]
fn encoded_frame_is_prefix_then_payload() {
    let payload = b"{\"a\":1}";
    let frame = encode_frame(payload).unwrap();
    assert_eq!(&frame[..4], &[0, 0, 0, 7]);
    assert_eq!(&frame[4..], payload);
    assert_eq!(encode_frame(&[]).unwrap(), vec![0, 0, 0, 0]);
    let full = vec![0u8; MAX_FRAME_BYTES];
    let framed = encode_frame(&full).unwrap();
    assert_eq!(framed.len(), MAX_FRAME_BYTES + 4);
    assert_eq!(&framed[..4], &[0, 1, 0, 0]);
}

#[test]
fn user_scope_tokens_are_bounded_and_portable() {
    assert!(validate_user_scope("test_user").is_ok());
    assert!(validate_user_scope("a").is_ok());
    assert!(validate_user_scope("Cli-Test_09").is_ok());
    assert!(validate_user_scope(&"u".repeat(64)).is_ok());
    for bad in ["", "has space", "dot.user", "slash/user", "ümlaut", "semi;colon"] {
        assert!(matches!(validate_user_scope(bad), Err(IpcError::InvalidUserScope)), "{bad}");
    }
    assert!(matches!(validate_user_scope(&"u".repeat(65)), Err(IpcError::InvalidUserScope)));
}

#[test]
fn peer_policy_fails_closed() {
    assert!(matches!(authorize_same_user(Some(501), 501), Ok(PeerAuthorization::SameUserVerified)));
    assert!(matches!(authorize_same_user(Some(0), 501), Err(IpcError::CrossUserRejected)));
    assert!(matches!(authorize_same_user(None, 501), Err(IpcError::PeerIdentityUnavailable)));
    assert!(matches!(authorize_private_endpoint(Some(4242)), Ok(PeerAuthorization::PrivateEndpointOnly)));
    assert!(matches!(authorize_private_endpoint(None), Err(IpcError::PeerIdentityUnavailable)));
    assert!(PeerAuthorization::SameUserVerified.permits_future_privileged_command());
    assert!(!PeerAuthorization::PrivateEndpointOnly.permits_future_privileged_command());
}
