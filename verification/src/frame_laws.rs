//! Properties of the wire format: what decoding gives back of an encoding, that
//! trailing bytes do not disturb a decode, and that the checksum catches any
//! single corrupted byte outside the length field.

use vstd::prelude::*;
use crate::checksum::{word_sum, fold_carries, inet_checksum_spec, lemma_fold_closed};
use crate::frame::{
    FrameView, le16, le32, read16, read32, zeros, padded_words, checksummed_bytes, encode_spec,
    decode_spec, kept_payload, trim_trailing_zeros, reply_target,
};
use vstd::arithmetic::div_mod::lemma_fundamental_div_mod;
use crate::address::{pair_spec, lemma_pair_unpack};

verus! {

proof fn lemma_read_le16(v: int)
    requires
        0 <= v < 0x10000,
    ensures
        read16(le16(v), 0) == v,
{
}

pub(crate) proof fn lemma_read_le32(v: int)
    requires
        0 <= v < 0x1_0000_0000,
    ensures
        read32(le32(v), 0) == v,
{
    let b0 = v % 256;
    let b1 = v / 256 % 256;
    let b2 = v / 0x10000 % 256;
    let b3 = v / 0x1000000 % 256;
    assert(v / 256 == b1 + 256 * (v / 0x10000));
    assert(v / 0x10000 == b2 + 256 * (v / 0x1000000));
    assert(v / 0x1000000 == b3);
}

/// The decoded payload of an encoded frame: the payload with its padding, as the
/// decoder keeps it.
pub open spec fn decoded_payload(f: FrameView) -> Seq<u8> {
    kept_payload(f.flags, f.payload + zeros((padded_words(f.payload.len()) * 4 - f.payload.len()) as nat))
}

/// Whether the decoder gives back a frame's payload unchanged: a raw frame whose
/// payload fills whole words, or another frame whose payload does not end in a zero byte.
pub open spec fn payload_survives(f: FrameView) -> bool {
    if f.flags / 8192 == 2 {
        f.payload.len() % 4 == 0
    } else {
        f.payload.len() == 0 || f.payload.last() != 0
    }
}

/// Decoding the encoding of a frame whose payload fits the length field (65535 words)
/// gives back its routing key, ext field and flags, the payload as the decoder keeps it,
/// and consumes the whole encoding; the payload itself comes back where
/// `payload_survives` holds.
pub proof fn lemma_encode_decode_roundtrip(f: FrameView)
    requires
        f.payload.len() <= 65535 * 4,
    ensures
        decode_spec(encode_spec(f)) == Some(
            (
                FrameView { mesh_key: f.mesh_key, ext: f.ext, flags: f.flags, payload: decoded_payload(f) },
                encode_spec(f).len(),
            ),
        ),
        payload_survives(f) ==> decoded_payload(f) == f.payload,
{
    let w = padded_words(f.payload.len());
    let pad = (w * 4 - f.payload.len()) as nat;
    let b = checksummed_bytes(f);
    let c = inet_checksum_spec(b);
    let e = encode_spec(f);
    assert(w <= 65535);
    assert(w % 0x10000 == w);
    let total = 16 + 4 * w;
    assert(b.len() == total);
    assert(e.len() == total);
    lemma_read_le16(1);
    lemma_read_le16(c as int);
    lemma_read_le16(f.flags as int);
    lemma_read_le16(w as int);
    lemma_read_le32(f.mesh_key as int);
    lemma_read_le32(f.ext as int);
    assert(read16(e, 0) == 1);
    assert(read16(e, 2) == c);
    assert(e.subrange(4, 8) =~= le32(f.mesh_key as int));
    assert(read32(e, 4) == read32(le32(f.mesh_key as int), 0));
    assert(e.subrange(8, 12) =~= le32(f.ext as int));
    assert(read32(e, 8) == read32(le32(f.ext as int), 0));
    assert(read16(e, 12) == f.flags);
    assert(read16(e, 14) == w);
    assert(le16(0) + le16(0) + e.subrange(4, total as int) =~= b);
    assert(e.subrange(16, total as int) =~= f.payload + zeros(pad));
    assert(decode_spec(e) == Some(
        (
            FrameView { mesh_key: f.mesh_key, ext: f.ext, flags: f.flags, payload: decoded_payload(f) },
            e.len(),
        ),
    ));
    if payload_survives(f) {
        if f.flags / 8192 == 2 {
            assert(pad == 0);
            assert(f.payload + zeros(pad) =~= f.payload);
        } else {
            lemma_trim_padding(f.payload, pad);
        }
    }
}

/// Trimming zeros appended to a sequence that does not end in zero gives it back.
proof fn lemma_trim_padding(s: Seq<u8>, n: nat)
    requires
        s.len() == 0 || s.last() != 0,
    ensures
        trim_trailing_zeros(s + zeros(n)) == s,
    decreases n,
{
    if n == 0 {
        assert(s + zeros(0) =~= s);
        if s.len() > 0 {
            assert(trim_trailing_zeros(s) == s);
        } else {
            assert(trim_trailing_zeros(s) == s);
        }
    } else {
        let t = s + zeros(n);
        assert(t.last() == 0);
        assert(t.drop_last() =~= s + zeros((n - 1) as nat));
        lemma_trim_padding(s, (n - 1) as nat);
    }
}

/// A successful decode only reads the bytes of the frame: bytes after it do not
/// change what is decoded.
pub proof fn lemma_decode_prefix(d: Seq<u8>, rest: Seq<u8>)
    requires
        decode_spec(d) is Some,
    ensures
        decode_spec(d + rest) == decode_spec(d),
{
    let x = d + rest;
    let total = 16 + 4 * read16(d, 14);
    assert(read16(x, 0) == read16(d, 0));
    assert(read16(x, 2) == read16(d, 2));
    assert(read32(x, 4) == read32(d, 4));
    assert(read32(x, 8) == read32(d, 8));
    assert(read16(x, 12) == read16(d, 12));
    assert(read16(x, 14) == read16(d, 14));
    assert(x.subrange(4, total) =~= d.subrange(4, total));
    assert(x.subrange(16, total) =~= d.subrange(16, total));
}

/// Changing one byte changes the word sum by the change times the byte's weight.
proof fn lemma_word_sum_update(s: Seq<u8>, j: int, v: u8)
    requires
        0 <= j < s.len(),
    ensures
        word_sum(s.update(j, v)) + (if j % 2 == 0 { 1int } else { 256int }) * s[j] == word_sum(s) + (if j % 2
            == 0 { 1int } else { 256int }) * v,
    decreases s.len(),
{
    let t = s.update(j, v);
    if s.len() == 1 {
    } else if j < 2 {
        assert(t.skip(2) =~= s.skip(2));
    } else {
        assert(t.skip(2) =~= s.skip(2).update(j - 2, v));
        lemma_word_sum_update(s.skip(2), j - 2, v);
        assert((j - 2) % 2 == j % 2);
    }
}

/// Sums that differ by a nonzero amount smaller than 0xFFFF fold to different values.
proof fn lemma_fold_distinguishes(a: nat, b: nat)
    requires
        a != b,
        -0xFFFF < a - b < 0xFFFF,
    ensures
        fold_carries(a) != fold_carries(b),
{
    lemma_fold_closed(a);
    lemma_fold_closed(b);
    if a != 0 && b != 0 {
        let x = (a - 1) as int;
        let y = (b - 1) as int;
        if x % 0xFFFF == y % 0xFFFF {
            lemma_fundamental_div_mod(x, 0xFFFF);
            lemma_fundamental_div_mod(y, 0xFFFF);
            let qx = x / 0xFFFF;
            let qy = y / 0xFFFF;
            assert(x - y == 0xFFFF * (qx - qy));
            if qx - qy >= 1 {
                assert(0xFFFF * (qx - qy) >= 0xFFFF) by (nonlinear_arith)
                    requires
                        qx - qy >= 1,
                ;
            } else if qx - qy <= -1 {
                assert(0xFFFF * (qx - qy) <= -0xFFFF) by (nonlinear_arith)
                    requires
                        qx - qy <= -1,
                ;
            }
        }
    }
}

/// The checksum catches a single corrupted byte anywhere in a frame except in its
/// length field (bytes 14 and 15): the version, the checksum field, the header
/// fields and the payload with its padding.
pub proof fn lemma_single_byte_corruption_detected(d: Seq<u8>, i: int, v: u8)
    requires
        decode_spec(d) is Some,
        0 <= i < decode_spec(d).unwrap().1,
        i != 14 && i != 15,
        v != d[i],
    ensures
        decode_spec(d.update(i, v)) is None,
{
    let x = d.update(i, v);
    let total = 16 + 4 * read16(d, 14);
    assert(read16(x, 14) == read16(d, 14));
    if i >= 4 {
        assert(read16(x, 0) == read16(d, 0));
        assert(read16(x, 2) == read16(d, 2));
        let bd = le16(0) + le16(0) + d.subrange(4, total);
        let bx = le16(0) + le16(0) + x.subrange(4, total);
        assert(bx =~= bd.update(i, v));
        lemma_word_sum_update(bd, i, v);
        let wgt: int = if i % 2 == 0 { 1 } else { 256 };
        assert(word_sum(bx) - word_sum(bd) == wgt * (v - d[i]));
        assert(-0xFFFF < wgt * (v - d[i]) < 0xFFFF) by (nonlinear_arith)
            requires
                wgt == 1 || wgt == 256,
                0 <= v < 256,
                0 <= d[i] < 256,
        ;
        assert(wgt * (v - d[i]) != 0) by (nonlinear_arith)
            requires
                wgt == 1 || wgt == 256,
                v != d[i],
        ;
        lemma_fold_distinguishes(word_sum(bx), word_sum(bd));
        assert(fold_carries(word_sum(bx)) <= 0xFFFF) by {
            lemma_fold_closed(word_sum(bx));
        }
        assert(fold_carries(word_sum(bd)) <= 0xFFFF) by {
            lemma_fold_closed(word_sum(bd));
        }
        assert(inet_checksum_spec(bx) != inet_checksum_spec(bd));
    } else if i >= 2 {
        assert(read16(x, 0) == read16(d, 0));
        assert(x.subrange(4, total) =~= d.subrange(4, total));
        assert(read16(x, 2) != read16(d, 2));
    } else {
        assert(read16(x, 0) != read16(d, 0));
    }
}

/// A forwarded frame carries the original sender as its obo, so a reply to it goes
/// back to that sender (unless the sender is endpoint 0, which reads as "no obo"),
/// answering the same message.
pub proof fn lemma_forward_reply_routes_back(f: FrameView, my_ep: u16, to_ep: u16)
    ensures
        ({
            let g = FrameView {
                mesh_key: pair_spec(my_ep, to_ep),
                ext: pair_spec(f.from_ep(), f.in_reply_to()),
                flags: f.flags,
                payload: f.payload,
            };
            &&& f.from_ep() != 0 ==> reply_target(g) == f.from_ep()
            &&& f.from_ep() == 0 ==> reply_target(g) == my_ep
            &&& g.in_reply_to() == f.in_reply_to()
        }),
{
    lemma_pair_unpack(f.from_ep(), f.in_reply_to());
    lemma_pair_unpack(my_ep, to_ep);
}

} // verus!
