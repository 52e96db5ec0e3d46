use chitin_net::{
    addr_label, endpoint, ep_display, ep_node, ep_parse, ep_service, mesh_dst, mesh_key, mesh_src,
    res_display, res_id, res_node, res_owner, res_parse, res_service, resource, role_to_svc,
    svc_to_role, Entry, Frame, ServiceHandle, FRAME_HEADER_SIZE, NODE_BROADCAST, NODE_CONC,
    NODE_RESOLVE, ROLE_DISPLAY, ROLE_FAST_THINKER, ROLE_NODE, SVC_DISPLAY, SVC_FAST_THINKER,
    SVC_NODE, SVC_PROCESS_ENGINE, SVC_REPO_HOST, SVC_TERMINAL,
};

#[test]
fn endpoint_pack_unpack() {
    let ep = endpoint(5, SVC_FAST_THINKER);
    assert_eq!(ep_node(ep), 5);
    assert_eq!(ep_service(ep), SVC_FAST_THINKER);

    let ep2 = endpoint(NODE_BROADCAST, 63);
    assert_eq!(ep_node(ep2), NODE_BROADCAST);
    assert_eq!(ep_service(ep2), 63);
}

#[test]
fn mesh_key_pack_unpack() {
    let src = endpoint(2, SVC_FAST_THINKER);
    let dst = endpoint(5, SVC_PROCESS_ENGINE);
    let key = mesh_key(src, dst);
    assert_eq!(mesh_src(key), src);
    assert_eq!(mesh_dst(key), dst);
}

#[test]
fn ep_display_parse_roundtrip() {
    for ep in [0u16, 1, 42, 63, endpoint(5, SVC_FAST_THINKER), endpoint(NODE_BROADCAST, 63)] {
        let s = ep_display(ep);
        let parsed = ep_parse(&s).unwrap();
        assert_eq!(parsed, ep, "roundtrip failed for ep={}: display='{}' parsed={}", ep, s, parsed);
    }
}

#[test]
fn ep_parse_hex() {
    assert_eq!(ep_parse("0x0401"), Some(endpoint(1, 1)));
    assert_eq!(ep_parse("0x0000"), Some(0));
    assert_eq!(ep_parse("0xFFFF"), Some(u16::MAX));
}

#[test]
fn ep_label_well_known() {
    assert_eq!(addr_label(endpoint(3, SVC_FAST_THINKER)), "3/fast_thinker");
    assert_eq!(addr_label(endpoint(NODE_CONC, SVC_NODE)), "conc/node");
    assert_eq!(addr_label(endpoint(NODE_RESOLVE, SVC_TERMINAL)), "?/terminal");
    assert_eq!(addr_label(endpoint(5, 20)), "5/svc:20"); // dynamic service
}

#[test]
fn resource_address() {
    let owner = endpoint(5, SVC_REPO_HOST);
    let r = resource(owner, 1);
    assert_eq!(res_owner(r), owner);
    assert_eq!(res_id(r), 1);
    assert_eq!(res_node(r), 5);
    assert_eq!(res_service(r), SVC_REPO_HOST);
}

#[test]
fn resource_display_parse() {
    let r = resource(endpoint(5, SVC_REPO_HOST), 42);
    let s = res_display(r);
    let parsed = res_parse(&s).unwrap();
    assert_eq!(parsed, r);
    // Hex also works
    assert_eq!(res_parse("0x00010002"), Some(resource(1, 2)));
}

#[test]
fn entry_builders() {
    let owner = endpoint(5, SVC_REPO_HOST);
    let e = Entry::resource(owner, 1, "htc-kernel-msm7x30");
    assert_eq!(e.name, "htc-kernel-msm7x30");
    assert_eq!(e.owner(), owner);
    assert_eq!(e.id(), 1);
    assert_eq!(e.node(), 5);
    assert!(e.meta.is_none());

    let e2 = Entry::service(owner, "repo_host");
    assert_eq!(e2.id(), 0);
    assert_eq!(e2.owner(), owner);
}

#[test]
fn frame_jsonl_roundtrip() {
    let f = Frame::jsonl(endpoint(1, SVC_NODE), endpoint(2, SVC_FAST_THINKER),
        r#"{"op":"infer","prompt":"hello"}"#);
    let encoded = f.encode();
    assert!(encoded.len() >= FRAME_HEADER_SIZE);
    let (decoded, consumed) = Frame::decode(&encoded).unwrap();
    assert_eq!(consumed, encoded.len());
    assert_eq!(decoded.from_node(), 1);
    assert_eq!(decoded.to_service(), SVC_FAST_THINKER);
    assert_eq!(decoded.format(), 0); // JSONL
    assert_eq!(std::str::from_utf8(&decoded.payload).unwrap(), r#"{"op":"infer","prompt":"hello"}"#);
}

#[test]
fn frame_raw_binary_roundtrip() {
    let data = vec![0xDE, 0xAD, 0xBE, 0xEF];
    let f = Frame::raw(endpoint(3, SVC_TERMINAL), endpoint(4, SVC_DISPLAY), data.clone());
    let encoded = f.encode();
    let (decoded, _) = Frame::decode(&encoded).unwrap();
    assert_eq!(decoded.format(), 2); // raw
    assert_eq!(decoded.payload, data);
}

#[test]
fn frame_syn_with_ttl() {
    let f = Frame::syn(endpoint(1, 0), endpoint(2, SVC_TERMINAL), 8, vec![]); // TTL=1hr
    assert!(f.is_syn());
    assert_eq!(f.ttl(), 8);
    assert_eq!(f.ttl_seconds(), 3600);

    let encoded = f.encode();
    let (decoded, _) = Frame::decode(&encoded).unwrap();
    assert!(decoded.is_syn());
    assert_eq!(decoded.ttl_seconds(), 3600);
}

#[test]
fn frame_fin_rst() {
    let fin = Frame::fin(endpoint(1, 0), endpoint(2, 0));
    assert!(fin.is_fin());
    assert!(!fin.is_rst());

    let rst = Frame::rst(endpoint(1, 0), endpoint(2, 0));
    assert!(rst.is_rst());
    assert!(!rst.is_fin());
}

#[test]
fn frame_checksum_corruption() {
    let f = Frame::jsonl(endpoint(1, 0), endpoint(2, 0), "test");
    let mut encoded = f.encode();
    if let Some(b) = encoded.last_mut() { *b ^= 0xFF; }
    assert!(Frame::decode(&encoded).is_none());
}

#[test]
fn frame_large_payload_no_checksum_overflow() {
    let body = "x".repeat(200_000);
    let f = Frame::jsonl(endpoint(1, 0), endpoint(2, 0), &body);
    let encoded = f.encode();
    let (decoded, _) = Frame::decode(&encoded).expect("large frame must round-trip");
    assert_eq!(decoded.payload.len(), body.len());
}

#[test]
fn ext_obo_irt() {
    let f = Frame::jsonl_reply(endpoint(1, 0), endpoint(2, 0), 42, "reply");
    assert_eq!(f.in_reply_to(), 42);
    assert_eq!(f.obo(), 0);

    let encoded = f.encode();
    let (decoded, _) = Frame::decode(&encoded).unwrap();
    assert_eq!(decoded.in_reply_to(), 42);
}

#[test]
fn service_handle_fire_reply() {
    let mut h = ServiceHandle::new(endpoint(1, SVC_NODE), endpoint(2, SVC_FAST_THINKER));
    let f1 = h.fire_json(r#"{"op":"status"}"#);
    assert_eq!(f1.from_node(), 1);
    assert_eq!(f1.to_service(), SVC_FAST_THINKER);

    // Simulate receiving a reply
    let reply = Frame::jsonl_reply(endpoint(2, SVC_FAST_THINKER), endpoint(1, SVC_NODE), 1, "ok");
    h.received(&reply);

    let f2 = h.reply_json(r#"{"ack":true}"#);
    assert_eq!(f2.in_reply_to(), 1); // correlates to the received frame
}

#[test]
fn role_svc_conversion() {
    assert_eq!(svc_to_role(SVC_FAST_THINKER), ROLE_FAST_THINKER);
    assert_eq!(role_to_svc(ROLE_FAST_THINKER), SVC_FAST_THINKER);
    assert_eq!(svc_to_role(SVC_NODE), ROLE_NODE);
    assert_eq!(svc_to_role(SVC_DISPLAY), ROLE_DISPLAY);
}

#[test]
fn resolve_endpoint() {
    let ep = endpoint(NODE_RESOLVE, SVC_FAST_THINKER);
    assert_eq!(ep_node(ep), NODE_RESOLVE);
    assert_eq!(ep_service(ep), SVC_FAST_THINKER);
}

#[test]
fn frame_incomplete() {
    assert!(Frame::decode(&[0; 15]).is_none()); // less than header
    let f = Frame::jsonl(endpoint(1, 0), endpoint(2, 0), "test");
    let encoded = f.encode();
    assert!(Frame::decode(&encoded[..FRAME_HEADER_SIZE]).is_none()); // header but no payload
}

#[test]
fn debug_string() {
    let f = Frame::syn(endpoint(1, SVC_NODE), endpoint(2, SVC_TERMINAL), 5, b"hello".to_vec());
    let s = f.to_debug_string();
    assert!(s.contains("1/0"));
    assert!(s.contains("2/9"));
    assert!(s.contains("S")); // SYN flag
}
