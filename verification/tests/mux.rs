use chitin_net::{endpoint, ConnState, Frame, NODE_CONC, SVC_NODE};

#[test]
fn conn_state_roundtrip() {
    assert_eq!(ConnState::from_u32(0), ConnState::Active);
    assert_eq!(ConnState::from_u32(1), ConnState::Dead);
    assert_eq!(ConnState::from_u32(2), ConnState::Shutdown);
    assert_eq!(ConnState::from_u32(3), ConnState::Connecting);
    assert_eq!(ConnState::from_u32(99), ConnState::Connecting);
    assert!(ConnState::Active.is_alive());
    assert!(!ConnState::Dead.is_alive());
    assert!(!ConnState::Shutdown.is_alive());
}

#[test]
fn frame_encode_decode() {
    let frame = Frame::jsonl(
        endpoint(1, SVC_NODE),
        endpoint(NODE_CONC, SVC_NODE),
        r#"{"type":"Ping"}"#,
    );
    let encoded = frame.encode();
    let (decoded, consumed) = Frame::decode(&encoded).unwrap();
    assert_eq!(consumed, encoded.len());
    assert_eq!(decoded.payload, frame.payload);
}
