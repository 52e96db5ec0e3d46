//! The frame and its wire format:
//!
//!   [version: u16 LE][checksum: u16 LE][mesh_key: u32 LE][ext: u32 LE][flags: u16 LE][len: u16 LE][payload]
//!
//! `len` counts the payload in 4-byte words; the payload is zero-padded to a word boundary.

use vstd::prelude::*;
use vstd::slice::slice_to_vec;
use vstd::string::StringSliceAdditionalSpecFns;
use crate::address::{PROTOCOL_VERSION, FRAME_HEADER_SIZE, pair_spec, addr_spec, mesh_key, mesh_src, mesh_dst, ep_node, ep_service, addr_type, endpoint, TYPE_SERVICE};
use crate::checksum::{inet_checksum, inet_checksum_spec};
use crate::flags::{FMT_JSONL, FMT_RAW, FLAG_FIN, FLAG_RST, FLAG_SYN, TTL_LUT, TTL_SHIFT, ext_pack, ext_irt, ext_obo, flags_format, flags_ttl, flags_is_fin, flags_is_rst, flags_is_ack, flags_is_syn};
use crate::text::{push_char, push_decimal, dec_digits};

verus! {

/// A frame: routing key, ext field, flags and payload.
#[derive(Debug, Clone, PartialEq)]
pub struct Frame {
    pub mesh_key: u32,
    pub ext: u32,
    pub flags: u16,
    pub payload: Vec<u8>,
}

/// The mathematical value of a frame.
pub struct FrameView {
    pub mesh_key: u32,
    pub ext: u32,
    pub flags: u16,
    pub payload: Seq<u8>,
}

impl View for Frame {
    type V = FrameView;

    open spec fn view(&self) -> FrameView {
        FrameView { mesh_key: self.mesh_key, ext: self.ext, flags: self.flags, payload: self.payload@ }
    }
}

impl FrameView {
    pub open spec fn from_ep(self) -> u16 {
        (self.mesh_key / 0x10000) as u16
    }

    pub open spec fn to_ep(self) -> u16 {
        (self.mesh_key % 0x10000) as u16
    }

    pub open spec fn obo(self) -> u16 {
        (self.ext / 0x10000) as u16
    }

    pub open spec fn in_reply_to(self) -> u16 {
        (self.ext % 0x10000) as u16
    }

    pub open spec fn format(self) -> u16 {
        (self.flags / 8192) as u16
    }
}

// ── Wire format ──

/// Little-endian bytes of a 16-bit value.
pub open spec fn le16(v: int) -> Seq<u8> {
    seq![(v % 256) as u8, (v / 256 % 256) as u8]
}

/// Little-endian bytes of a 32-bit value.
pub open spec fn le32(v: int) -> Seq<u8> {
    seq![(v % 256) as u8, (v / 256 % 256) as u8, (v / 0x10000 % 256) as u8, (v / 0x1000000 % 256) as u8]
}

/// The 16-bit little-endian value at `i`.
pub open spec fn read16(d: Seq<u8>, i: int) -> int {
    d[i] + 256 * d[i + 1]
}

/// The 32-bit little-endian value at `i`.
pub open spec fn read32(d: Seq<u8>, i: int) -> int {
    d[i] + 256 * d[i + 1] + 0x10000 * d[i + 2] + 0x1000000 * d[i + 3]
}

/// A run of `n` zero bytes.
pub open spec fn zeros(n: nat) -> Seq<u8> {
    Seq::new(n, |i: int| 0u8)
}

/// The number of 4-byte words that hold `n` payload bytes.
pub open spec fn padded_words(n: nat) -> nat {
    (n + 3) / 4
}

/// The encoded frame with the version and checksum fields zeroed: the bytes
/// that the checksum covers. The length field keeps the low 16 bits of the word count.
pub open spec fn checksummed_bytes(f: FrameView) -> Seq<u8> {
    let words = padded_words(f.payload.len());
    le16(0) + le16(0) + le32(f.mesh_key as int) + le32(f.ext as int) + le16(f.flags as int)
        + le16((words % 0x10000) as int) + f.payload + zeros((words * 4 - f.payload.len()) as nat)
}

/// The wire encoding of a frame.
pub open spec fn encode_spec(f: FrameView) -> Seq<u8> {
    let body = checksummed_bytes(f);
    le16(PROTOCOL_VERSION as int) + le16(inet_checksum_spec(body) as int) + body.skip(4)
}

/// `s` without its trailing zero bytes.
pub open spec fn trim_trailing_zeros(s: Seq<u8>) -> Seq<u8>
    decreases s.len(),
{
    if s.len() > 0 && s.last() == 0 {
        trim_trailing_zeros(s.drop_last())
    } else {
        s
    }
}

/// The payload that a decoder keeps of the padded wire payload: all of it for raw
/// frames (format 2), the bytes before the trailing zeros otherwise.
pub open spec fn kept_payload(flags: u16, raw: Seq<u8>) -> Seq<u8> {
    if flags / 8192 == 2 {
        raw
    } else {
        trim_trailing_zeros(raw)
    }
}

/// The frame at the start of `d` and the number of bytes it takes, if `d` starts with
/// a whole frame of the current protocol version whose checksum matches.
pub open spec fn decode_spec(d: Seq<u8>) -> Option<(FrameView, nat)> {
    if d.len() < 16 {
        None
    } else {
        let total = 16 + 4 * read16(d, 14);
        if read16(d, 0) != PROTOCOL_VERSION as int {
            None
        } else if d.len() < total {
            None
        } else if inet_checksum_spec(le16(0) + le16(0) + d.subrange(4, total)) as int != read16(d, 2) {
            None
        } else {
            let flags = read16(d, 12) as u16;
            Some(
                (
                    FrameView {
                        mesh_key: read32(d, 4) as u32,
                        ext: read32(d, 8) as u32,
                        flags,
                        payload: kept_payload(flags, d.subrange(16, total)),
                    },
                    total as nat,
                ),
            )
        }
    }
}

fn push_le16(buf: &mut Vec<u8>, v: u16)
    ensures
        final(buf)@ == old(buf)@ + le16(v as int),
{
    buf.push((v % 256) as u8);
    buf.push((v / 256) as u8);
    assert(final(buf)@ =~= old(buf)@ + le16(v as int));
}

pub(crate) fn push_le32(buf: &mut Vec<u8>, v: u32)
    ensures
        final(buf)@ == old(buf)@ + le32(v as int),
{
    buf.push((v % 256) as u8);
    buf.push((v / 256 % 256) as u8);
    buf.push((v / 0x10000 % 256) as u8);
    buf.push((v / 0x1000000) as u8);
    assert(final(buf)@ =~= old(buf)@ + le32(v as int));
}

/// Appends `src[from..to]`.
pub(crate) fn push_bytes(buf: &mut Vec<u8>, src: &[u8], from: usize, to: usize)
    requires
        from <= to <= src@.len(),
    ensures
        final(buf)@ == old(buf)@ + src@.subrange(from as int, to as int),
{
    let mut i = from;
    while i < to
        invariant
            from <= i <= to <= src@.len(),
            buf@ == old(buf)@ + src@.subrange(from as int, i as int),
        decreases to - i,
    {
        buf.push(src[i]);
        i = i + 1;
        assert(buf@ =~= old(buf)@ + src@.subrange(from as int, i as int));
    }
}

fn read_le16(d: &[u8], i: usize) -> (r: u16)
    requires
        i + 2 <= d@.len(),
    ensures
        r == read16(d@, i as int),
{
    d[i] as u16 + 256 * (d[i + 1] as u16)
}

pub(crate) fn read_le32(d: &[u8], i: usize) -> (r: u32)
    requires
        i + 4 <= d@.len(),
    ensures
        r == read32(d@, i as int),
{
    d[i] as u32 + 256 * (d[i + 1] as u32) + 0x10000 * (d[i + 2] as u32) + 0x1000000 * (d[i + 3] as u32)
}

/// The length of `raw[from..to]` once its trailing zeros are dropped.
fn trimmed_end(raw: &[u8], from: usize, to: usize) -> (n: usize)
    requires
        from <= to <= raw@.len(),
    ensures
        from <= n <= to,
        raw@.subrange(from as int, n as int) == trim_trailing_zeros(raw@.subrange(from as int, to as int)),
{
    let mut n = to;
    while n > from && raw[n - 1] == 0
        invariant
            from <= n <= to <= raw@.len(),
            trim_trailing_zeros(raw@.subrange(from as int, n as int)) == trim_trailing_zeros(
                raw@.subrange(from as int, to as int),
            ),
        decreases n,
    {
        proof {
            let s = raw@.subrange(from as int, n as int);
            assert(s.drop_last() =~= raw@.subrange(from as int, n - 1));
        }
        n = n - 1;
    }
    n
}

impl Frame {
    /// Encodes to wire bytes. The length field holds the payload size in 4-byte
    /// words, truncated to 16 bits; payloads up to 65535 * 4 bytes fit.
    pub fn encode(&self) -> (r: Vec<u8>)
        requires
            self.payload@.len() + 19 <= usize::MAX,
        ensures
            r@ == encode_spec(self@),
    {
        let plen = self.payload.len();
        let padded_len = (plen + 3) / 4;
        let wire_payload_bytes = padded_len * 4;
        let len_words = (padded_len % 0x10000) as u16;
        let mut buf: Vec<u8> = Vec::with_capacity(FRAME_HEADER_SIZE + wire_payload_bytes);
        push_le16(&mut buf, 0);
        push_le16(&mut buf, 0);
        push_le32(&mut buf, self.mesh_key);
        push_le32(&mut buf, self.ext);
        push_le16(&mut buf, self.flags);
        push_le16(&mut buf, len_words);
        push_bytes(&mut buf, self.payload.as_slice(), 0, plen);
        let pad = wire_payload_bytes - plen;
        let ghost before_pad = buf@;
        let mut k: usize = 0;
        while k < pad
            invariant
                k <= pad,
                buf@ == before_pad + zeros(k as nat),
            decreases pad - k,
        {
            buf.push(0);
            k = k + 1;
            assert(buf@ =~= before_pad + zeros(k as nat));
        }
        let ghost body = buf@;
        proof {
            assert(self.payload@.subrange(0, plen as int) =~= self.payload@);
            assert(body =~= checksummed_bytes(self@));
        }
        let checksum = inet_checksum(buf.as_slice());
        buf.set(0, (PROTOCOL_VERSION % 256) as u8);
        buf.set(1, (PROTOCOL_VERSION / 256) as u8);
        buf.set(2, (checksum % 256) as u8);
        buf.set(3, (checksum / 256) as u8);
        assert(buf@ =~= encode_spec(self@));
        buf
    }

    /// Decodes the frame at the start of `data`; returns it with the number of bytes
    /// it takes. Fails on a short buffer, another protocol version or a checksum
    /// mismatch. Trailing padding is dropped from the payload except for raw frames.
    pub fn decode(data: &[u8]) -> (r: Option<(Frame, usize)>)
        ensures
            r is None <==> decode_spec(data@) is None,
            r matches Some((f, n)) ==> decode_spec(data@) == Some((f@, n as nat)),
    {
        if data.len() < FRAME_HEADER_SIZE {
            return None;
        }
        let version = read_le16(data, 0);
        let stored_csum = read_le16(data, 2);
        let mesh_key = read_le32(data, 4);
        let ext = read_le32(data, 8);
        let flags = read_le16(data, 12);
        let len_words = read_le16(data, 14) as usize;
        let wire_bytes = len_words * 4;
        if version != PROTOCOL_VERSION {
            return None;
        }
        let total = FRAME_HEADER_SIZE + wire_bytes;
        if data.len() < total {
            return None;
        }
        let mut check: Vec<u8> = Vec::with_capacity(total);
        push_le16(&mut check, 0);
        push_le16(&mut check, 0);
        push_bytes(&mut check, data, 4, total);
        if inet_checksum(check.as_slice()) != stored_csum {
            return None;
        }
        let fmt = (flags >> 13) & 0x7;
        assert((flags >> 13) & 0x7 == flags / 8192) by (bit_vector);
        let mut payload: Vec<u8> = Vec::new();
        if fmt == 2 {
            push_bytes(&mut payload, data, FRAME_HEADER_SIZE, total);
        } else {
            let end = trimmed_end(data, FRAME_HEADER_SIZE, total);
            push_bytes(&mut payload, data, FRAME_HEADER_SIZE, end);
        }
        assert(payload@ =~= kept_payload(flags, data@.subrange(16, total as int)));
        Some((Frame { mesh_key, ext, flags, payload }, total))
    }
}

impl Frame {
    // ── Builders ──

    /// JSONL fire-and-forget (no SYN/FIN).
    pub fn jsonl(from: u16, to: u16, payload: &str) -> (r: Frame)
        ensures
            r@ == (FrameView { mesh_key: pair_spec(from, to), ext: 0, flags: FMT_JSONL, payload: payload.spec_bytes() }),
    {
        Frame { mesh_key: mesh_key(from, to), ext: 0, flags: FMT_JSONL, payload: slice_to_vec(payload.as_bytes()) }
    }

    /// JSONL with in_reply_to.
    pub fn jsonl_reply(from: u16, to: u16, irt: u16, payload: &str) -> (r: Frame)
        ensures
            r@ == (FrameView {
                mesh_key: pair_spec(from, to),
                ext: pair_spec(0, irt),
                flags: FMT_JSONL,
                payload: payload.spec_bytes(),
            }),
    {
        Frame {
            mesh_key: mesh_key(from, to),
            ext: ext_pack(0, irt),
            flags: FMT_JSONL,
            payload: slice_to_vec(payload.as_bytes()),
        }
    }

    /// Raw binary fire-and-forget.
    pub fn raw(from: u16, to: u16, payload: Vec<u8>) -> (r: Frame)
        ensures
            r@ == (FrameView { mesh_key: pair_spec(from, to), ext: 0, flags: FMT_RAW, payload: payload@ }),
    {
        Frame { mesh_key: mesh_key(from, to), ext: 0, flags: FMT_RAW, payload }
    }

    /// SYN (stream open) with TTL; only the low 4 bits of `ttl` are kept.
    pub fn syn(from: u16, to: u16, ttl: u8, payload: Vec<u8>) -> (r: Frame)
        ensures
            r@ == (FrameView {
                mesh_key: pair_spec(from, to),
                ext: 0,
                flags: (FMT_RAW + FLAG_SYN + (ttl % 16) * 32) as u16,
                payload: payload@,
            }),
    {
        let t = (ttl as u16 & 0xF) << TTL_SHIFT;
        assert((2u16 << 13u16) == 0x4000u16 && (1u16 << 9u16) == 0x200u16) by (bit_vector);
        assert(t == (ttl as u16 & 0xF) << 5u16);
        assert((ttl as u16 & 0xF) << 5u16 == (ttl % 16) * 32) by (bit_vector);
        let flags = FMT_RAW | FLAG_SYN | t;
        assert(t < 512 && t % 32 == 0 ==> 0x4000u16 | 0x200u16 | t == 0x4200 + t) by (bit_vector);
        Frame { mesh_key: mesh_key(from, to), ext: 0, flags, payload }
    }

    /// FIN (stream close).
    pub fn fin(from: u16, to: u16) -> (r: Frame)
        ensures
            r@ == (FrameView { mesh_key: pair_spec(from, to), ext: 0, flags: FLAG_FIN, payload: Seq::empty() }),
    {
        Frame { mesh_key: mesh_key(from, to), ext: 0, flags: FLAG_FIN, payload: Vec::new() }
    }

    /// RST (abort).
    pub fn rst(from: u16, to: u16) -> (r: Frame)
        ensures
            r@ == (FrameView { mesh_key: pair_spec(from, to), ext: 0, flags: FLAG_RST, payload: Seq::empty() }),
    {
        Frame { mesh_key: mesh_key(from, to), ext: 0, flags: FLAG_RST, payload: Vec::new() }
    }

    // ── Reply builders ──

    /// Builds a JSONL reply to this frame: it goes to the frame's obo if set, else to
    /// its sender, from `my_ep`, in reply to the sender's endpoint, and preserves the obo.
    pub fn reply_jsonl(&self, my_ep: u16, payload: &str) -> (r: Frame)
        ensures
            r@ == (FrameView {
                mesh_key: pair_spec(my_ep, reply_target(self@)),
                ext: pair_spec(self@.obo(), self@.from_ep()),
                flags: FMT_JSONL,
                payload: payload.spec_bytes(),
            }),
    {
        let reply_to = if self.obo() != 0 { self.obo() } else { self.from_ep() };
        Frame {
            mesh_key: mesh_key(my_ep, reply_to),
            ext: ext_pack(self.obo(), self.from_ep()),
            flags: FMT_JSONL,
            payload: slice_to_vec(payload.as_bytes()),
        }
    }

    /// Builds a JSONL reply routed to service `to_svc` on the requester's node (the
    /// obo's node if set, else the sender's), from service `from_svc` on this frame's
    /// destination node.
    pub fn reply_jsonl_svc(&self, from_svc: u8, to_svc: u8, payload: &str) -> (r: Frame)
        ensures
            r@ == (FrameView {
                mesh_key: pair_spec(
                    addr_spec(self@.to_ep() as int / 1024, TYPE_SERVICE as int, from_svc as int) as u16,
                    addr_spec(reply_target(self@) as int / 1024, TYPE_SERVICE as int, to_svc as int) as u16,
                ),
                ext: pair_spec(0, self@.from_ep()),
                flags: FMT_JSONL,
                payload: payload.spec_bytes(),
            }),
    {
        let from_node = ep_node(self.to_ep());
        let reply_to_node = if self.obo() != 0 { ep_node(self.obo()) } else { self.from_node() };
        Frame {
            mesh_key: mesh_key(endpoint(from_node, from_svc), endpoint(reply_to_node, to_svc)),
            ext: ext_pack(0, self.from_ep()),
            flags: FMT_JSONL,
            payload: slice_to_vec(payload.as_bytes()),
        }
    }

    /// Builds a raw binary reply to this frame, routed as `reply_jsonl`.
    pub fn reply_raw(&self, my_ep: u16, payload: Vec<u8>) -> (r: Frame)
        ensures
            r@ == (FrameView {
                mesh_key: pair_spec(my_ep, reply_target(self@)),
                ext: pair_spec(0, self@.from_ep()),
                flags: FMT_RAW,
                payload: payload@,
            }),
    {
        let reply_to = if self.obo() != 0 { self.obo() } else { self.from_ep() };
        Frame { mesh_key: mesh_key(my_ep, reply_to), ext: ext_pack(0, self.from_ep()), flags: FMT_RAW, payload }
    }

    /// Forwards this frame to `to_ep` from `my_ep`, with obo set to the original
    /// sender so that the response routes back; keeps in_reply_to, flags and payload.
    pub fn forward(&self, my_ep: u16, to_ep: u16) -> (r: Frame)
        ensures
            r@ == (FrameView {
                mesh_key: pair_spec(my_ep, to_ep),
                ext: pair_spec(self@.from_ep(), self@.in_reply_to()),
                flags: self.flags,
                payload: self.payload@,
            }),
    {
        Frame {
            mesh_key: mesh_key(my_ep, to_ep),
            ext: ext_pack(self.from_ep(), ext_irt(self.ext)),
            flags: self.flags,
            payload: self.payload.clone(),
        }
    }

    // ── Accessors ──

    pub fn from_ep(&self) -> (r: u16)
        ensures
            r == self@.from_ep(),
    {
        mesh_src(self.mesh_key)
    }

    pub fn to_ep(&self) -> (r: u16)
        ensures
            r == self@.to_ep(),
    {
        mesh_dst(self.mesh_key)
    }

    pub fn from_node(&self) -> (r: u8)
        ensures
            r == self@.from_ep() / 1024,
    {
        ep_node(self.from_ep())
    }

    pub fn to_node(&self) -> (r: u8)
        ensures
            r == self@.to_ep() / 1024,
    {
        ep_node(self.to_ep())
    }

    pub fn from_service(&self) -> (r: u8)
        ensures
            r == self@.from_ep() % 64,
    {
        ep_service(self.from_ep())
    }

    pub fn to_service(&self) -> (r: u8)
        ensures
            r == self@.to_ep() % 64,
    {
        ep_service(self.to_ep())
    }

    pub fn from_type(&self) -> (r: u8)
        ensures
            r == self@.from_ep() / 64 % 16,
    {
        addr_type(self.from_ep())
    }

    pub fn to_type(&self) -> (r: u8)
        ensures
            r == self@.to_ep() / 64 % 16,
    {
        addr_type(self.to_ep())
    }

    pub fn format(&self) -> (r: u16)
        ensures
            r == self@.format(),
    {
        flags_format(self.flags)
    }

    pub fn is_fin(&self) -> (r: bool)
        ensures
            r == (self.flags / 4096 % 2 == 1),
    {
        flags_is_fin(self.flags)
    }

    pub fn is_rst(&self) -> (r: bool)
        ensures
            r == (self.flags / 2048 % 2 == 1),
    {
        flags_is_rst(self.flags)
    }

    pub fn is_ack(&self) -> (r: bool)
        ensures
            r == (self.flags / 1024 % 2 == 1),
    {
        flags_is_ack(self.flags)
    }

    pub fn is_syn(&self) -> (r: bool)
        ensures
            r == (self.flags / 512 % 2 == 1),
    {
        flags_is_syn(self.flags)
    }

    pub fn obo(&self) -> (r: u16)
        ensures
            r == self@.obo(),
    {
        ext_obo(self.ext)
    }

    pub fn in_reply_to(&self) -> (r: u16)
        ensures
            r == self@.in_reply_to(),
    {
        ext_irt(self.ext)
    }

    pub fn ttl(&self) -> (r: u8)
        ensures
            r == self.flags / 32 % 16,
    {
        flags_ttl(self.flags)
    }

    pub fn ttl_seconds(&self) -> (r: u32)
        ensures
            r == TTL_LUT@[self.flags as int / 32 % 16],
    {
        crate::flags::ttl_seconds(self.ttl())
    }

    /// A one-line summary: `[node/svc → node/svc <fmt><flags>[ irt=N] <len>B]`.
    pub fn to_debug_string(&self) -> (r: String)
        ensures
            r@ == debug_text(self@),
    {
        let mut s = String::new();
        s.append("[");
        push_node_service(&mut s, self.from_node(), self.from_service());
        s.append(" → ");
        push_node_service(&mut s, self.to_node(), self.to_service());
        s.append(" ");
        push_format_and_flags(&mut s, self.flags);
        let irt = self.in_reply_to();
        if irt != 0 {
            s.append(" irt=");
            push_decimal(&mut s, irt as u64);
        }
        s.append(" ");
        push_decimal(&mut s, self.payload.len() as u64);
        s.append("B]");
        assert(s@ =~= debug_text(self@));
        s
    }
}

fn push_node_service(s: &mut String, node: u8, svc: u8)
    ensures
        final(s)@ == old(s)@ + dec_digits(node as nat) + "/"@ + dec_digits(svc as nat),
{
    push_decimal(s, node as u64);
    s.append("/");
    push_decimal(s, svc as u64);
}

fn push_format_and_flags(s: &mut String, flags: u16)
    ensures
        final(s)@ == old(s)@ + format_flags_text(flags),
{
    let fmt = flags_format(flags);
    let fmt_str = if fmt == 0 { "J" } else if fmt == 1 { "B" } else if fmt == 2 { "R" } else { "?" };
    s.append(fmt_str);
    if flags_is_syn(flags) {
        push_char(s, 'S');
    }
    if flags_is_fin(flags) {
        push_char(s, 'F');
    }
    if flags_is_rst(flags) {
        push_char(s, 'R');
    }
    if flags_is_ack(flags) {
        push_char(s, 'A');
    }
    assert(final(s)@ =~= old(s)@ + format_flags_text(flags));
}

/// Where a reply to `f` goes: its obo if set, else its sender.
pub open spec fn reply_target(f: FrameView) -> u16 {
    if f.obo() != 0 {
        f.obo()
    } else {
        f.from_ep()
    }
}

/// `c` as a one-character text if `b` holds, else nothing.
pub open spec fn flag_char(b: bool, c: char) -> Seq<char> {
    if b {
        seq![c]
    } else {
        Seq::empty()
    }
}

/// The format letter followed by the letters of the set SYN, FIN, RST and ACK flags.
pub open spec fn format_flags_text(flags: u16) -> Seq<char> {
    let fmt = flags / 8192;
    let fmt_str = if fmt == 0 { "J"@ } else if fmt == 1 { "B"@ } else if fmt == 2 { "R"@ } else { "?"@ };
    fmt_str + flag_char(flags / 512 % 2 == 1, 'S') + flag_char(flags / 4096 % 2 == 1, 'F')
        + flag_char(flags / 2048 % 2 == 1, 'R') + flag_char(flags / 1024 % 2 == 1, 'A')
}

/// The text of `Frame::to_debug_string`.
pub open spec fn debug_text(f: FrameView) -> Seq<char> {
    "["@ + dec_digits((f.from_ep() / 1024) as nat) + "/"@ + dec_digits((f.from_ep() % 64) as nat) + " → "@
        + dec_digits((f.to_ep() / 1024) as nat) + "/"@ + dec_digits((f.to_ep() % 64) as nat) + " "@
        + format_flags_text(f.flags)
        + (if f.in_reply_to() != 0 { " irt="@ + dec_digits(f.in_reply_to() as nat) } else { Seq::empty() })
        + " "@ + dec_digits(f.payload.len()) + "B]"@
}

} // verus!
