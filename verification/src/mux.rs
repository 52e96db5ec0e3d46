//! The decisions of a multiplexed session: its connection state, how the reader
//! splits received bytes into frames, and how the writer lays out a batch of frames.

use vstd::prelude::*;
use vstd::slice::slice_subrange;
use crate::frame::{Frame, FrameView, decode_spec, encode_spec, read16};
use crate::frame_laws::{lemma_encode_decode_roundtrip, lemma_decode_prefix, decoded_payload};
use crate::frame::push_bytes;

verus! {

/// Connection lifecycle state, shared between the session's tasks as a `u32` code.
#[derive(Clone, Copy, PartialEq, Eq, Debug)]
pub enum ConnState {
    /// Connection is active and healthy.
    Active,
    /// Connection died (yamux error, read EOF, write error).
    Dead,
    /// Clean shutdown requested.
    Shutdown,
    /// Connecting (not yet established).
    Connecting,
}

impl ConnState {
    /// The shared code of a state.
    pub open spec fn code_spec(self) -> u32 {
        match self {
            ConnState::Active => 0,
            ConnState::Dead => 1,
            ConnState::Shutdown => 2,
            ConnState::Connecting => 3,
        }
    }

    /// The shared code of a state.
    pub fn code(self) -> (r: u32)
        ensures
            r == self.code_spec(),
    {
        match self {
            ConnState::Active => 0,
            ConnState::Dead => 1,
            ConnState::Shutdown => 2,
            ConnState::Connecting => 3,
        }
    }

    /// The state of a shared code; every unknown code reads as Connecting.
    pub fn from_u32(v: u32) -> (r: ConnState)
        ensures
            v <= 3 ==> r.code_spec() == v,
            v > 3 ==> r == ConnState::Connecting,
    {
        match v {
            0 => ConnState::Active,
            1 => ConnState::Dead,
            2 => ConnState::Shutdown,
            _ => ConnState::Connecting,
        }
    }

    /// Whether the connection is usable.
    pub fn is_alive(self) -> (r: bool)
        ensures
            r == (self == ConnState::Active),
    {
        match self {
            ConnState::Active => true,
            _ => false,
        }
    }
}

/// What a session's task observes that ends the connection, or the session being dropped.
#[derive(Clone, Copy, PartialEq, Eq, Debug)]
pub enum ConnEvent {
    /// The multiplexed connection reported an error or closed.
    MuxClosed,
    /// Stream 0 reached its end.
    ReadEof,
    /// Reading stream 0 failed.
    ReadError,
    /// Writing or flushing stream 0 failed.
    WriteError,
    /// The session is dropped: a clean shutdown.
    Dropped,
}

impl ConnState {
    /// The state a connection enters on `ev`: Shutdown when the session is dropped,
    /// Dead on any failure or end of stream.
    pub fn after_event(ev: ConnEvent) -> (r: ConnState)
        ensures
            ev == ConnEvent::Dropped ==> r == ConnState::Shutdown,
            ev != ConnEvent::Dropped ==> r == ConnState::Dead,
    {
        match ev {
            ConnEvent::Dropped => ConnState::Shutdown,
            _ => ConnState::Dead,
        }
    }
}

/// The shared codes of the states: Active 0, Dead 1, Shutdown 2, Connecting 3.
pub proof fn lemma_conn_state_codes()
    ensures
        ConnState::Active.code_spec() == 0,
        ConnState::Dead.code_spec() == 1,
        ConnState::Shutdown.code_spec() == 2,
        ConnState::Connecting.code_spec() == 3,
{
}

/// Reading back the code of a state gives the state.
pub proof fn lemma_conn_state_code_roundtrip(s: ConnState, t: ConnState)
    ensures
        s.code_spec() <= 3,
        s.code_spec() == t.code_spec() ==> s == t,
{
}

/// The frames at the start of a byte stream, decoded one after another until no
/// whole valid frame is left, and the number of bytes they take.
pub open spec fn split_spec(d: Seq<u8>) -> (Seq<FrameView>, nat)
    decreases d.len(),
{
    match decode_spec(d) {
        Some((f, n)) => if 0 < n <= d.len() {
            let rest = split_spec(d.skip(n as int));
            (seq![f] + rest.0, n + rest.1)
        } else {
            (Seq::empty(), 0)
        },
        None => (Seq::empty(), 0),
    }
}

/// A decoded frame takes at least a header and at most the bytes given.
pub proof fn lemma_decode_length(d: Seq<u8>)
    requires
        decode_spec(d) is Some,
    ensures
        16 <= decode_spec(d).unwrap().1 <= d.len(),
{
    assert(read16(d, 14) >= 0);
}

/// Splits the pending bytes of a stream into the whole frames at their start; returns
/// the frames and the number of bytes they take. The bytes after them wait for more input.
pub fn split_frames(pending: &[u8]) -> (r: (Vec<Frame>, usize))
    ensures
        r.0@.map_values(|f: Frame| f@) == split_spec(pending@).0,
        r.1 == split_spec(pending@).1,
{
    let n = pending.len();
    let mut frames: Vec<Frame> = Vec::new();
    let mut pos: usize = 0;
    assert(pending@.skip(0) =~= pending@);
    loop
        invariant
            n == pending@.len(),
            pos <= n,
            split_spec(pending@).0 == frames@.map_values(|f: Frame| f@) + split_spec(pending@.skip(pos as int)).0,
            split_spec(pending@).1 == pos + split_spec(pending@.skip(pos as int)).1,
        decreases n - pos,
    {
        let rest = slice_subrange(pending, pos, n);
        assert(rest@ =~= pending@.skip(pos as int));
        match Frame::decode(rest) {
            Some((f, used)) => {
                proof {
                    lemma_decode_length(rest@);
                    assert(rest@.skip(used as int) =~= pending@.skip(pos + used));
                }
                let ghost before = frames@.map_values(|f: Frame| f@);
                let ghost fv = f@;
                frames.push(f);
                assert(frames@.map_values(|f: Frame| f@) =~= before.push(fv));
                pos = pos + used;
            },
            None => {
                assert(split_spec(pending@.skip(pos as int)).0 =~= Seq::<FrameView>::empty());
                assert(frames@.map_values(|f: Frame| f@) + Seq::<FrameView>::empty() =~= frames@.map_values(
                    |f: Frame| f@,
                ));
                return (frames, pos);
            },
        }
    }
}

/// The byte strings of `parts`, one after another.
pub open spec fn concat_bytes(parts: Seq<Seq<u8>>) -> Seq<u8>
    decreases parts.len(),
{
    if parts.len() == 0 {
        Seq::empty()
    } else {
        parts[0] + concat_bytes(parts.skip(1))
    }
}

/// The encodings of `fs`, one after another.
pub open spec fn encode_all_spec(fs: Seq<FrameView>) -> Seq<u8> {
    concat_bytes(fs.map_values(|f: FrameView| encode_spec(f)))
}

/// One more part appends its bytes.
proof fn lemma_concat_push(parts: Seq<Seq<u8>>, p: Seq<u8>)
    ensures
        concat_bytes(parts.push(p)) == concat_bytes(parts) + p,
    decreases parts.len(),
{
    if parts.len() == 0 {
        assert(parts.push(p).skip(1) =~= Seq::<Seq<u8>>::empty());
        assert(concat_bytes(parts.push(p).skip(1)) == Seq::<u8>::empty());
        assert(parts.push(p)[0] == p);
        assert(concat_bytes(parts.push(p)) =~= p);
        assert(concat_bytes(parts) == Seq::<u8>::empty());
    } else {
        assert(parts.push(p).skip(1) =~= parts.skip(1).push(p));
        lemma_concat_push(parts.skip(1), p);
        assert(concat_bytes(parts.push(p)) =~= concat_bytes(parts) + p);
    }
}

/// Lays out a batch of frames for the wire: their encodings, one after another.
pub fn encode_frames(frames: &Vec<Frame>) -> (r: Vec<u8>)
    requires
        forall|i: int| 0 <= i < frames@.len() ==> #[trigger] frames@[i].payload@.len() + 19 <= usize::MAX,
    ensures
        r@ == encode_all_spec(frames@.map_values(|f: Frame| f@)),
{
    let ghost views = frames@.map_values(|f: Frame| f@);
    let mut out: Vec<u8> = Vec::new();
    let mut i: usize = 0;
    while i < frames.len()
        invariant
            i <= frames@.len(),
            views == frames@.map_values(|f: Frame| f@),
            forall|i: int| 0 <= i < frames@.len() ==> #[trigger] frames@[i].payload@.len() + 19 <= usize::MAX,
            out@ == encode_all_spec(views.take(i as int)),
        decreases frames@.len() - i,
    {
        let e = frames[i].encode();
        push_bytes(&mut out, e.as_slice(), 0, e.len());
        proof {
            assert(e@.subrange(0, e@.len() as int) =~= e@);
            let enc = |f: FrameView| encode_spec(f);
            assert(views.take(i + 1).map_values(enc) =~= views.take(i as int).map_values(enc).push(e@));
            lemma_concat_push(views.take(i as int).map_values(enc), e@);
        }
        i = i + 1;
    }
    assert(views.take(i as int) =~= views);
    out
}

/// The frame a decoder gives back for `f`'s encoding.
pub open spec fn decoded_frame(f: FrameView) -> FrameView {
    FrameView { mesh_key: f.mesh_key, ext: f.ext, flags: f.flags, payload: decoded_payload(f) }
}

/// What the reader gives back of what the writer sent: splitting the encodings of a
/// batch of frames, whose payloads fit the length field, yields each frame as the decoder
/// keeps it, in order, and consumes every byte.
pub proof fn lemma_stream_roundtrip(fs: Seq<FrameView>)
    requires
        forall|i: int| 0 <= i < fs.len() ==> (#[trigger] fs[i]).payload.len() <= 65535 * 4,
    ensures
        split_spec(encode_all_spec(fs)).0 == fs.map_values(|f: FrameView| decoded_frame(f)),
        split_spec(encode_all_spec(fs)).1 == encode_all_spec(fs).len(),
    decreases fs.len(),
{
    if fs.len() == 0 {
        assert(fs.map_values(|f: FrameView| decoded_frame(f)) =~= Seq::<FrameView>::empty());
        assert(decode_spec(Seq::<u8>::empty()) is None);
    } else {
        let t = fs.skip(1);
        assert forall|i: int| 0 <= i < t.len() implies (#[trigger] t[i]).payload.len() <= 65535 * 4 by {
            assert(t[i] == fs[i + 1]);
        }
        lemma_stream_roundtrip(t);
        let e0 = encode_spec(fs[0]);
        let rest = encode_all_spec(t);
        let d = e0 + rest;
        let enc = |f: FrameView| encode_spec(f);
        assert(fs.map_values(enc).skip(1) =~= t.map_values(enc));
        assert(encode_all_spec(fs) == d);
        assert(fs[0].payload.len() <= 65535 * 4);
        lemma_encode_decode_roundtrip(fs[0]);
        lemma_decode_prefix(e0, rest);
        assert(d.skip(e0.len() as int) =~= rest);
        assert(fs.map_values(|f: FrameView| decoded_frame(f)) =~= seq![decoded_frame(fs[0])] + t.map_values(
            |f: FrameView| decoded_frame(f),
        ));
    }
}

/// Splitting takes no more bytes than there are.
proof fn lemma_split_len(d: Seq<u8>)
    ensures
        split_spec(d).1 <= d.len(),
    decreases d.len(),
{
    if let Some((f, n)) = decode_spec(d) {
        lemma_decode_length(d);
        lemma_split_len(d.skip(n as int));
    }
}

/// Splitting in two steps, first what is at hand and then what is left of it with
/// the bytes that follow, gives the frames and length of splitting all at once.
pub proof fn lemma_split_in_two(x: Seq<u8>, y: Seq<u8>)
    ensures
        ({
            let first = split_spec(x);
            let second = split_spec(x.skip(first.1 as int) + y);
            split_spec(x + y) == (first.0 + second.0, first.1 + second.1)
        }),
    decreases x.len(),
{
    let first = split_spec(x);
    match decode_spec(x) {
        Some((f, n)) => {
            lemma_decode_length(x);
            lemma_decode_prefix(x, y);
            assert((x + y).skip(n as int) =~= x.skip(n as int) + y);
            lemma_split_in_two(x.skip(n as int), y);
            let inner = split_spec(x.skip(n as int));
            assert(first == (seq![f] + inner.0, n + inner.1));
            lemma_split_len(x.skip(n as int));
            assert(x.skip(n as int).skip(inner.1 as int) =~= x.skip(first.1 as int));
            assert(seq![f] + inner.0 + split_spec(x.skip(first.1 as int) + y).0 =~= seq![f] + (inner.0
                + split_spec(x.skip(first.1 as int) + y).0));
        },
        None => {
            assert(x.skip(0) =~= x);
            assert(Seq::<FrameView>::empty() + split_spec(x + y).0 =~= split_spec(x + y).0);
        },
    }
}

/// The frames a reader delivers when the stream arrives as `chunks` and it starts with
/// `pending` bytes: after each chunk it splits what it holds, delivers those frames
/// and keeps the bytes after them.
pub open spec fn reader_deliveries(pending: Seq<u8>, chunks: Seq<Seq<u8>>) -> Seq<FrameView>
    decreases chunks.len(),
{
    if chunks.len() == 0 {
        Seq::empty()
    } else {
        let held = pending + chunks[0];
        let (fs, n) = split_spec(held);
        fs + reader_deliveries(held.skip(n as int), chunks.skip(1))
    }
}

/// However the stream is cut into reads, the reader delivers the frames of splitting
/// the whole stream at once.
pub proof fn lemma_reader_chunking(pending: Seq<u8>, chunks: Seq<Seq<u8>>)
    requires
        chunks.len() > 0,
    ensures
        reader_deliveries(pending, chunks) == split_spec(pending + concat_bytes(chunks)).0,
    decreases chunks.len(),
{
    let held = pending + chunks[0];
    let first = split_spec(held);
    let rest = chunks.skip(1);
    if rest.len() == 0 {
        assert(concat_bytes(rest) =~= Seq::<u8>::empty());
        assert(concat_bytes(chunks) =~= chunks[0]);
        assert(pending + concat_bytes(chunks) =~= held);
        assert(reader_deliveries(held.skip(first.1 as int), rest) =~= Seq::<FrameView>::empty());
        assert(first.0 + Seq::<FrameView>::empty() =~= first.0);
    } else {
        lemma_reader_chunking(held.skip(first.1 as int), rest);
        lemma_split_in_two(held, concat_bytes(rest));
        assert(pending + concat_bytes(chunks) =~= held + concat_bytes(rest));
    }
}

} // verus!
