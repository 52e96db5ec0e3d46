use chitin_net::checksum::inet_checksum;
use chitin_net::audio::{audio_frame_payload_bits, parse_audio_frame_bits};
use chitin_net::{addr_id, addr_node, addr_type, ext_irt, ext_obo, ext_pack, ConnEvent};
use chitin_net::heap::{OutboundHeap, Priority};
use chitin_net::{
    addr, addr_label, encode_frames, endpoint, ep_display, ep_parse, flags_format, flags_ttl,
    node_display, res_display, res_parse, role_to_svc, serial_cmd, serial_error, serial_resp,
    services_from_strs, services_to_str, split_frames, ttl_seconds, Attachment, ConnState, EspChip,
    Frame, SerialCmd, SerialResp, ServiceHandle, FMT_RAW, ROLE_ASR, ROLE_FAST_THINKER, ROLE_NODE,
    ROLE_REPO_HOST, ROLE_SKILLS, SVC_FEEDBACK, SVC_SKILLS, TYPE_TASK,
};
use std::sync::atomic::{AtomicUsize, Ordering};
use std::sync::Arc;
use std::task::{Wake, Waker};

#[test]
fn checksum_known_values() {
    assert_eq!(inet_checksum(&[]), 0xFFFF);
    assert_eq!(inet_checksum(&[0x01, 0x02]), 0xFDFE);
    assert_eq!(inet_checksum(&[0x01]), 0xFFFE);
    // 0xFFFF + 0x0001 carries into bit 16 and folds back to 0x0001.
    assert_eq!(inet_checksum(&[0xFF, 0xFF, 0x01, 0x00]), 0xFFFE);
}

#[test]
fn encode_exact_bytes() {
    let f = Frame::fin(endpoint(1, 0), endpoint(2, 0));
    assert_eq!(
        f.encode(),
        vec![1, 0, 0xFF, 0xE3, 0x00, 0x08, 0x00, 0x04, 0, 0, 0, 0, 0x00, 0x10, 0, 0]
    );
}

#[test]
fn encode_pads_to_words() {
    let f = Frame::raw(1, 2, vec![1, 2, 3, 4, 5]);
    let e = f.encode();
    assert_eq!(e.len(), 16 + 8);
    assert_eq!(e[14], 2);
    assert_eq!(&e[16..], &[1, 2, 3, 4, 5, 0, 0, 0]);
}

#[test]
fn decode_keeps_raw_padding_and_trims_text() {
    let raw = Frame::raw(1, 2, vec![1, 2, 3]);
    let (d, _) = Frame::decode(&raw.encode()).unwrap();
    assert_eq!(d.payload, vec![1, 2, 3, 0]);

    let text = Frame { mesh_key: 7, ext: 0, flags: 0, payload: vec![b'a', b'b', 0, 0, 0] };
    let (d, n) = Frame::decode(&text.encode()).unwrap();
    assert_eq!(d.payload, b"ab".to_vec());
    assert_eq!(n, 24);
}

#[test]
fn decode_rejects_other_version() {
    let mut e = Frame::fin(1, 2).encode();
    e[0] = 2;
    assert!(Frame::decode(&e).is_none());
}

#[test]
fn decode_rejects_corrupted_header_and_checksum() {
    let e = Frame::jsonl(endpoint(1, 0), endpoint(2, 0), "hello world").encode();
    for i in [1usize, 2, 3, 4, 9, 12, 13, 16, 20, e.len() - 1] {
        let mut c = e.clone();
        c[i] ^= 0x5A;
        assert!(Frame::decode(&c).is_none(), "byte {} not caught", i);
    }
}

#[test]
fn decode_ignores_trailing_bytes() {
    let f = Frame::jsonl_reply(3, 4, 9, "x");
    let mut e = f.encode();
    let len = e.len();
    e.extend_from_slice(&[9, 9, 9]);
    let (d, n) = Frame::decode(&e).unwrap();
    assert_eq!(n, len);
    assert_eq!(d, f);
}

#[test]
fn stream_split_and_batch_encode() {
    let a = Frame::jsonl(1, 2, "first");
    let b = Frame::raw(3, 4, vec![1, 2, 3, 4]);
    let bytes = encode_frames(&vec![a.clone(), b.clone()]);
    let mut expected = a.encode();
    expected.extend_from_slice(&b.encode());
    assert_eq!(bytes, expected);

    let mut pending = bytes.clone();
    pending.extend_from_slice(&[1, 0, 0]); // start of a frame still in flight
    let (frames, used) = split_frames(&pending);
    assert_eq!(frames, vec![a, b]);
    assert_eq!(used, bytes.len());

    let (none, zero) = split_frames(&[1, 2, 3]);
    assert!(none.is_empty());
    assert_eq!(zero, 0);
}

#[test]
fn compact_display_forms() {
    assert_eq!(ep_display(0), "0");
    assert_eq!(ep_display(58), "~");
    assert_eq!(ep_display(59), "10");
    assert_eq!(node_display(57), ".");
    assert_eq!(res_display(59 * 59 + 18), "10J");
}

#[test]
fn compact_parse_edge_cases() {
    assert_eq!(res_parse(""), Some(0));
    assert_eq!(ep_parse("I"), None); // not in the alphabet
    assert_eq!(ep_parse("zzzz"), None); // above u16::MAX
    assert_eq!(ep_parse("~"), Some(58));
    // The compact value is cut to its low 32 bits.
    let v: u64 = 1 << 32;
    let mut s = String::new();
    let mut n = v + 5;
    let alphabet = "0123456789ABCDEFGHJKLMNPQRSTUVWXYZabcdefghjkmnpqrstuvwxyz.~".as_bytes();
    let mut digits = Vec::new();
    while n > 0 {
        digits.push(alphabet[(n % 59) as usize] as char);
        n /= 59;
    }
    for c in digits.iter().rev() {
        s.push(*c);
    }
    assert_eq!(res_parse(&s), Some(5));
}

#[test]
fn hex_parse_edge_cases() {
    assert_eq!(ep_parse("0x+1F"), Some(31));
    assert_eq!(ep_parse("0x1f"), Some(31));
    assert_eq!(ep_parse("0x"), None);
    assert_eq!(ep_parse("0x+"), None);
    assert_eq!(ep_parse("0x1G"), None);
    assert_eq!(ep_parse("0x10000"), None);
    assert_eq!(res_parse("0xFFFFFFFF"), Some(u32::MAX));
    assert_eq!(res_parse("0x100000000"), None);
}

#[test]
fn labels_of_other_types() {
    assert_eq!(addr_label(addr(3, TYPE_TASK, 7)), "3/task:7");
    assert_eq!(addr_label(addr(63, 9, 1)), "*/t9:1");
    assert_eq!(addr_label(endpoint(5, SVC_SKILLS)), "5/svc:16");
    assert_eq!(addr_label(endpoint(5, SVC_FEEDBACK)), "5/feedback");
    assert_eq!(addr_label(endpoint(12, 0)), "12/node");
}

#[test]
fn services_text() {
    assert_eq!(services_to_str(0), "none");
    assert_eq!(services_to_str(ROLE_NODE | ROLE_ASR), "node, asr");
    assert_eq!(services_to_str(1 << SVC_FEEDBACK), "none");
    assert_eq!(services_to_str(ROLE_SKILLS), "skills");
}

#[test]
fn services_from_names() {
    let names = vec!["thinker".to_string(), "repo".to_string(), "bogus".to_string()];
    assert_eq!(services_from_strs(&names), ROLE_NODE | ROLE_FAST_THINKER | ROLE_REPO_HOST);
    assert_eq!(services_from_strs(&[]), ROLE_NODE);
}

#[test]
fn flag_fields() {
    assert_eq!(flags_format(FMT_RAW), 2);
    assert_eq!(flags_ttl(0x0F << 5), 15);
    assert_eq!(ttl_seconds(12), 31536000);
    assert_eq!(ttl_seconds(13), 0);
    assert_eq!(ttl_seconds(0x1C), 31536000); // only the low 4 bits count
    assert_eq!(role_to_svc(0), 64);
}

#[test]
fn reply_and_forward_routing() {
    let req = Frame::jsonl_reply(endpoint(1, 3), endpoint(2, 4), 77, "q");
    let r = req.reply_jsonl(endpoint(2, 4), "a");
    assert_eq!(r.to_ep(), endpoint(1, 3));
    assert_eq!(r.in_reply_to(), endpoint(1, 3));

    let fwd = req.forward(endpoint(2, 4), endpoint(6, 1));
    assert_eq!(fwd.obo(), endpoint(1, 3));
    assert_eq!(fwd.in_reply_to(), 77);
    assert_eq!(fwd.to_ep(), endpoint(6, 1));
    let back = fwd.reply_raw(endpoint(6, 1), vec![9]);
    assert_eq!(back.to_ep(), endpoint(1, 3)); // to the obo
    let svc = fwd.reply_jsonl_svc(5, 7, "s");
    assert_eq!(svc.from_ep(), endpoint(6, 5));
    assert_eq!(svc.to_ep(), endpoint(1, 7));
}

#[test]
fn service_handle_ids() {
    let mut h = ServiceHandle::new(1, 2);
    assert_eq!(h.fire_json("a").in_reply_to(), 1);
    assert_eq!(h.fire_json("b").in_reply_to(), 2);
    h.last_sent_id = u16::MAX;
    assert_eq!(h.fire_json("c").in_reply_to(), 0);
    h.received(&Frame::jsonl_reply(2, 1, 33, "r"));
    let f = h.reply_json_obo(9, "x");
    assert_eq!(f.obo(), 9);
    assert_eq!(f.in_reply_to(), 33);
    assert_eq!(h.fire_raw(vec![1]).ext, 0);
}

#[test]
fn heap_fifo_within_priority_and_pop() {
    let mut heap = OutboundHeap::new();
    heap.push(Priority::Normal, Frame::raw(1, 2, vec![1]));
    heap.push(Priority::Bulk, Frame::raw(1, 2, vec![2]));
    heap.push(Priority::Normal, Frame::raw(1, 2, vec![3]));
    heap.push(Priority::Realtime, Frame::raw(1, 2, vec![4]));
    assert_eq!(heap.pop().unwrap().payload, vec![4]);
    let rest: Vec<Vec<u8>> = heap.drain().into_iter().map(|f| f.payload).collect();
    assert_eq!(rest, vec![vec![1], vec![3], vec![2]]);
    assert!(heap.pop().is_none());
    assert!(heap.is_empty());
}

#[test]
fn heap_push_raw() {
    let mut heap = OutboundHeap::new();
    assert!(!heap.push_raw(Priority::Normal, vec![1, 2, 3]));
    assert!(heap.is_empty());
    let f = Frame::jsonl(1, 2, "ok");
    assert!(heap.push_raw(Priority::Normal, f.encode()));
    assert_eq!(heap.drain(), vec![f]);
}

struct CountingWaker(AtomicUsize);

impl Wake for CountingWaker {
    fn wake(self: Arc<Self>) {
        self.0.fetch_add(1, Ordering::SeqCst);
    }
    fn wake_by_ref(self: &Arc<Self>) {
        self.0.fetch_add(1, Ordering::SeqCst);
    }
}

#[test]
fn heap_push_wakes_registered_writer() {
    let counter = Arc::new(CountingWaker(AtomicUsize::new(0)));
    let waker = Waker::from(counter.clone());
    let mut heap = OutboundHeap::new();
    heap.push(Priority::Normal, Frame::fin(1, 2));
    assert_eq!(counter.0.load(Ordering::SeqCst), 0);
    heap.register_waker(&waker);
    heap.push(Priority::Normal, Frame::fin(1, 2));
    heap.push(Priority::Bulk, Frame::fin(1, 2));
    assert_eq!(counter.0.load(Ordering::SeqCst), 2);
}

#[test]
fn heap_wakes_only_latest_waker_and_not_on_failed_push() {
    let first = Arc::new(CountingWaker(AtomicUsize::new(0)));
    let second = Arc::new(CountingWaker(AtomicUsize::new(0)));
    let mut heap = OutboundHeap::new();
    heap.register_waker(&Waker::from(first.clone()));
    heap.register_waker(&Waker::from(second.clone()));
    assert!(heap.push(Priority::Realtime, Frame::fin(1, 2)));
    assert_eq!(first.0.load(Ordering::SeqCst), 0);
    assert_eq!(second.0.load(Ordering::SeqCst), 1);
    assert!(!heap.push_raw(Priority::Normal, vec![1, 2, 3]));
    assert_eq!(second.0.load(Ordering::SeqCst), 1);
    assert!(heap.push_raw(Priority::Normal, Frame::fin(3, 4).encode()));
    assert_eq!(second.0.load(Ordering::SeqCst), 2);
    assert_eq!(first.0.load(Ordering::SeqCst), 0);
}

#[test]
fn serial_payloads() {
    assert_eq!(serial_cmd(SerialCmd::Connect, &[1, 2]), vec![0x02, 1, 2]);
    assert_eq!(serial_resp(SerialResp::ScrollbackData, &[]), vec![0x86]);
    assert_eq!(serial_error("hi"), vec![0xFF, 2, 0, b'h', b'i']);
    assert_eq!(SerialCmd::from_u8(0x18), Some(SerialCmd::FlashESPStub));
    assert_eq!(SerialCmd::from_u8(0x11), None);
    assert_eq!(SerialResp::from_u8(0xFF), Some(SerialResp::Error));
    assert_eq!(SerialResp::from_u8(0x87), None);
    assert_eq!(EspChip::from_u8(1), Some(EspChip::ESP32S3));
    assert_eq!(EspChip::from_u8(2), None);
}

#[test]
fn attachment_kinds() {
    assert_eq!(Attachment::new("rust", String::new()).mime(), "text/x-rust");
    assert_eq!(Attachment::new("", String::new()).mime(), "text/markdown");
    assert_eq!(Attachment::new("weird", String::new()).mime(), "text/plain");
    assert!(Attachment::new("md", "x".into()).is_writable());
    assert!(!Attachment::new("json", "{}".into()).is_writable());
}

#[test]
fn conn_state_codes() {
    for s in [ConnState::Active, ConnState::Dead, ConnState::Shutdown, ConnState::Connecting] {
        assert_eq!(ConnState::from_u32(s.code()), s);
    }
}

#[test]
fn debug_string_exact() {
    let f = Frame::syn(endpoint(1, 0), endpoint(2, 9), 5, b"hello".to_vec());
    assert_eq!(f.to_debug_string(), "[1/0 → 2/9 RS 5B]");
    let g = Frame::jsonl_reply(endpoint(1, 0), endpoint(2, 9), 4, "");
    assert_eq!(g.to_debug_string(), "[1/0 → 2/9 J irt=4 0B]");
}

#[test]
fn address_repack() {
    for a in [0u16, 1, 0x0401, 0xABCD, u16::MAX] {
        assert_eq!(addr(addr_node(a), addr_type(a), addr_id(a)), a);
    }
    // Fields wider than their slot are cut to it.
    assert_eq!(addr(64 + 2, 16 + 1, 64 + 3), addr(2, 1, 3));
    let x = ext_pack(0x1234, 0xBEEF);
    assert_eq!((ext_obo(x), ext_irt(x)), (0x1234, 0xBEEF));
}

#[test]
fn reply_preserves_obo() {
    let f = Frame::jsonl(endpoint(1, 0), endpoint(2, 0), "x").forward(endpoint(2, 0), endpoint(3, 1));
    assert_eq!(f.obo(), 1024);
    let r = f.reply_jsonl(endpoint(3, 1), "y");
    assert_eq!(r.obo(), 1024);
    assert_eq!(r.to_ep(), 1024);
    assert_eq!(r.in_reply_to(), endpoint(2, 0));
}

#[test]
fn audio_bits_roundtrip_and_errors() {
    let samples = [0x3F80_0000u32, 0xBF00_0000, 0];
    let p = audio_frame_payload_bits(16000, &samples);
    assert_eq!(&p[0..4], b"PCMf");
    assert_eq!(p.len(), 12 + 12);
    assert_eq!(parse_audio_frame_bits(&p), Some((16000, samples.to_vec())));
    let mut longer = p.clone();
    longer.push(7);
    assert_eq!(parse_audio_frame_bits(&longer), Some((16000, samples.to_vec())));
    assert_eq!(parse_audio_frame_bits(&p[..11]), None);
    assert_eq!(parse_audio_frame_bits(&p[..p.len() - 1]), None);
    let mut bad = p.clone();
    bad[3] = b'g';
    assert_eq!(parse_audio_frame_bits(&bad), None);
}

#[test]
fn services_text_parses_back() {
    for s in [0u64, 1, ROLE_ASR, ROLE_NODE | ROLE_ASR | ROLE_SKILLS, 0x1EFFF, 0x0F0F] {
        let names: Vec<String> = services_to_str(s).split(", ").map(String::from).collect();
        assert_eq!(services_from_strs(&names), s | ROLE_NODE, "bitmap {:#x}", s);
    }
}

#[test]
fn reader_delivers_same_frames_for_any_chunking() {
    let frames = vec![Frame::jsonl(1, 2, "one"), Frame::raw(3, 4, vec![9, 8, 7, 6]), Frame::fin(5, 6)];
    let bytes = encode_frames(&frames);
    for chunk in [1usize, 3, 7, 16, 1000] {
        let mut pending: Vec<u8> = Vec::new();
        let mut got: Vec<Frame> = Vec::new();
        for piece in bytes.chunks(chunk) {
            pending.extend_from_slice(piece);
            let (fs, used) = split_frames(&pending);
            got.extend(fs);
            pending.drain(..used);
        }
        assert_eq!(got, frames, "chunk size {}", chunk);
        assert!(pending.is_empty());
    }
}

#[test]
fn connection_events() {
    assert_eq!(ConnState::after_event(ConnEvent::Dropped), ConnState::Shutdown);
    for ev in [ConnEvent::MuxClosed, ConnEvent::ReadEof, ConnEvent::ReadError, ConnEvent::WriteError] {
        assert_eq!(ConnState::after_event(ev), ConnState::Dead);
    }
}
