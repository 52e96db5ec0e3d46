use chitin_net::heap::{OutboundHeap, Priority};
use chitin_net::{endpoint, Frame, SVC_NODE};

#[test]
fn push_and_drain_priority_order() {
    let mut heap = OutboundHeap::new();
    let f1 = Frame::jsonl(endpoint(1, SVC_NODE), endpoint(2, SVC_NODE), "bulk");
    let f2 = Frame::jsonl(endpoint(1, SVC_NODE), endpoint(2, SVC_NODE), "realtime");
    let f3 = Frame::jsonl(endpoint(1, SVC_NODE), endpoint(2, SVC_NODE), "normal");

    heap.push(Priority::Bulk, f1);
    heap.push(Priority::Realtime, f2);
    heap.push(Priority::Normal, f3);

    let frames = heap.drain();
    assert_eq!(frames.len(), 3);
    assert_eq!(std::str::from_utf8(&frames[0].payload).unwrap(), "realtime");
    assert_eq!(std::str::from_utf8(&frames[1].payload).unwrap(), "normal");
    assert_eq!(std::str::from_utf8(&frames[2].payload).unwrap(), "bulk");
}

#[test]
fn push_returns_true() {
    let mut heap = OutboundHeap::new();
    let f = Frame::jsonl(endpoint(1, SVC_NODE), endpoint(2, SVC_NODE), "test");
    assert!(heap.push(Priority::Normal, f));
}

#[test]
fn empty_drain() {
    let mut heap = OutboundHeap::new();
    assert!(heap.drain().is_empty());
    assert!(heap.is_empty());
}
