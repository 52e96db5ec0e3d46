//! Binary PCM audio payloads for raw frames:
//! `[PCMf][sample_rate:u32 LE][num_samples:u32 LE][samples: 32-bit LE each]`.
//! Samples are carried as the bit patterns of `f32` values; the application converts.

use vstd::prelude::*;
use crate::frame::{le32, read32, push_le32, read_le32};
use crate::frame_laws::lemma_read_le32;

verus! {

/// The audio fourcc, `PCMf`.
pub const AUDIO_FOURCC: [u8; 4] = [0x50, 0x43, 0x4D, 0x66];

/// fourcc(4) + sample_rate(4) + num_samples(4).
pub const AUDIO_HEADER_SIZE: usize = 12;

/// The little-endian bytes of each sample, one after another.
pub open spec fn samples_le(s: Seq<u32>) -> Seq<u8>
    decreases s.len(),
{
    if s.len() == 0 {
        Seq::empty()
    } else {
        samples_le(s.drop_last()) + le32(s.last() as int)
    }
}

/// An audio payload: the fourcc, the sample rate, the sample count (low 32 bits)
/// and the samples.
pub open spec fn audio_payload_spec(sample_rate: u32, samples: Seq<u32>) -> Seq<u8> {
    AUDIO_FOURCC@ + le32(sample_rate as int) + le32(samples.len() as int % 0x1_0000_0000) + samples_le(samples)
}

/// What parsing an audio payload gives: the sample rate and the announced number of
/// samples, if the payload holds the fourcc and at least that many samples
/// (bytes after them are ignored).
pub open spec fn audio_parse_spec(p: Seq<u8>) -> Option<(u32, Seq<u32>)> {
    if p.len() < 12 {
        None
    } else if p.take(4) != AUDIO_FOURCC@ {
        None
    } else {
        let n = read32(p, 8);
        if p.len() - 12 < 4 * n {
            None
        } else {
            Some((read32(p, 4) as u32, Seq::new(n as nat, |i: int| read32(p, 12 + 4 * i) as u32)))
        }
    }
}

/// Builds an audio payload from the sample rate and the samples' bit patterns.
pub fn audio_frame_payload_bits(sample_rate: u32, samples: &[u32]) -> (r: Vec<u8>)
    ensures
        r@ == audio_payload_spec(sample_rate, samples@),
{
    let num = (samples.len() as u64 % 0x1_0000_0000) as u32;
    let mut buf: Vec<u8> = Vec::new();
    buf.push(AUDIO_FOURCC[0]);
    buf.push(AUDIO_FOURCC[1]);
    buf.push(AUDIO_FOURCC[2]);
    buf.push(AUDIO_FOURCC[3]);
    assert(buf@ =~= AUDIO_FOURCC@);
    push_le32(&mut buf, sample_rate);
    push_le32(&mut buf, num);
    let ghost head = buf@;
    let mut i: usize = 0;
    assert(samples@.take(0) =~= Seq::<u32>::empty());
    while i < samples.len()
        invariant
            i <= samples@.len(),
            buf@ == head + samples_le(samples@.take(i as int)),
        decreases samples@.len() - i,
    {
        push_le32(&mut buf, samples[i]);
        proof {
            let t = samples@.take(i + 1);
            assert(t.drop_last() =~= samples@.take(i as int));
            assert(t.last() == samples@[i as int]);
            assert(buf@ =~= head + samples_le(t));
        }
        i = i + 1;
    }
    assert(samples@.take(i as int) =~= samples@);
    assert(buf@ =~= audio_payload_spec(sample_rate, samples@));
    buf
}

/// Parses an audio payload into the sample rate and the samples' bit patterns.
pub fn parse_audio_frame_bits(payload: &[u8]) -> (r: Option<(u32, Vec<u32>)>)
    ensures
        r is None <==> audio_parse_spec(payload@) is None,
        r matches Some((rate, samples)) ==> audio_parse_spec(payload@) == Some((rate, samples@)),
{
    let len = payload.len();
    if len < AUDIO_HEADER_SIZE {
        return None;
    }
    if payload[0] != AUDIO_FOURCC[0] || payload[1] != AUDIO_FOURCC[1] || payload[2] != AUDIO_FOURCC[2]
        || payload[3] != AUDIO_FOURCC[3] {
        proof {
            let t = payload@.take(4);
            if t == AUDIO_FOURCC@ {
                assert(t[0] == payload@[0] && t[1] == payload@[1] && t[2] == payload@[2] && t[3] == payload@[3]);
            }
        }
        return None;
    }
    assert(payload@.take(4) =~= AUDIO_FOURCC@);
    let sample_rate = read_le32(payload, 4);
    let n = read_le32(payload, 8) as usize;
    let data_len = len - AUDIO_HEADER_SIZE;
    if n > data_len / 4 {
        return None;
    }
    let mut samples: Vec<u32> = Vec::new();
    let mut i: usize = 0;
    while i < n
        invariant
            len == payload@.len(),
            n <= (len - 12) / 4,
            i <= n,
            samples@.len() == i,
            forall|j: int| 0 <= j < i ==> #[trigger] samples@[j] == read32(payload@, 12 + 4 * j) as u32,
        decreases n - i,
    {
        samples.push(read_le32(payload, 12 + 4 * i));
        i = i + 1;
    }
    proof {
        let n_spec = read32(payload@, 8);
        assert(n_spec == n);
        assert(samples@ =~= Seq::new(n as nat, |j: int| read32(payload@, 12 + 4 * j) as u32));
    }
    Some((sample_rate, samples))
}

/// The bytes of the samples take four each, and sample `i` sits at bytes `4i..4i+4`.
proof fn lemma_samples_le(s: Seq<u32>)
    ensures
        samples_le(s).len() == 4 * s.len(),
        forall|i: int| 0 <= i < s.len() ==> #[trigger] read32(samples_le(s), 4 * i) == s[i],
    decreases s.len(),
{
    if s.len() > 0 {
        let p = s.drop_last();
        lemma_samples_le(p);
        lemma_read_le32(s.last() as int);
        let b = samples_le(s);
        assert forall|i: int| 0 <= i < s.len() implies #[trigger] read32(b, 4 * i) == s[i] by {
            if i < p.len() {
                assert(read32(b, 4 * i) == read32(samples_le(p), 4 * i));
                assert(p[i] == s[i]);
            } else {
                assert(b.subrange(4 * i, 4 * i + 4) =~= le32(s.last() as int));
                assert(read32(b, 4 * i) == read32(le32(s.last() as int), 0));
            }
        }
    }
}

/// A payload with the fourcc, the rate, the count and then the samples parses to them.
proof fn lemma_parse_fields(p: Seq<u8>, sample_rate: u32, samples: Seq<u32>)
    requires
        p.len() == 12 + 4 * samples.len(),
        p.take(4) == AUDIO_FOURCC@,
        read32(p, 4) == sample_rate,
        read32(p, 8) == samples.len(),
        forall|i: int| 0 <= i < samples.len() ==> #[trigger] read32(p, 12 + 4 * i) == samples[i],
    ensures
        audio_parse_spec(p) == Some((sample_rate, samples)),
{
    assert(Seq::new(samples.len(), |i: int| read32(p, 12 + 4 * i) as u32) =~= samples);
}

/// Parsing a built audio payload gives back its sample rate and samples, when their
/// number fits the 32-bit count.
pub proof fn lemma_audio_roundtrip(sample_rate: u32, samples: Seq<u32>)
    requires
        samples.len() <= u32::MAX,
    ensures
        audio_parse_spec(audio_payload_spec(sample_rate, samples)) == Some((sample_rate, samples)),
{
    let n = samples.len();
    let head = AUDIO_FOURCC@ + le32(sample_rate as int) + le32(n as int);
    let body = samples_le(samples);
    let p = head + body;
    assert(n as int % 0x1_0000_0000 == n);
    assert(audio_payload_spec(sample_rate, samples) == p);
    lemma_samples_le(samples);
    lemma_read_le32(sample_rate as int);
    lemma_read_le32(n as int);
    assert(p.take(4) =~= AUDIO_FOURCC@);
    assert(p.subrange(4, 8) =~= le32(sample_rate as int));
    assert(read32(p, 4) == read32(le32(sample_rate as int), 0));
    assert(p.subrange(8, 12) =~= le32(n as int));
    assert(read32(p, 8) == read32(le32(n as int), 0));
    assert forall|i: int| 0 <= i < n implies #[trigger] read32(p, 12 + 4 * i) == samples[i] by {
        assert(p[12 + 4 * i] == body[4 * i]);
        assert(p[12 + 4 * i + 1] == body[4 * i + 1]);
        assert(p[12 + 4 * i + 2] == body[4 * i + 2]);
        assert(p[12 + 4 * i + 3] == body[4 * i + 3]);
        assert(read32(body, 4 * i) == samples[i]);
    }
    lemma_parse_fields(p, sample_rate, samples);
}

} // verus!
