//! Reinterpretation of 16-bit signed PCM sample chunks as raw little-endian
//! byte sequences — the payload format of outbound binary frames — and the
//! inverse decoding, with a proved round trip.

use vstd::prelude::*;

verus! {

/// The unsigned 16-bit value whose two's-complement reading is `s`.
pub open spec fn sample_unsigned(s: i16) -> int {
    if s < 0 {
        s + 0x10000
    } else {
        s as int
    }
}

/// The two little-endian bytes that encode one sample.
pub open spec fn sample_le_bytes(s: i16) -> Seq<u8> {
    seq![
        (sample_unsigned(s) % 256) as u8,
        (sample_unsigned(s) / 256) as u8,
    ]
}

/// The raw little-endian byte reinterpretation of a whole chunk:
/// two bytes per sample, low byte first, samples in order.
pub open spec fn le_bytes_of(samples: Seq<i16>) -> Seq<u8>
    decreases samples.len(),
{
    if samples.len() == 0 {
        Seq::empty()
    } else {
        sample_le_bytes(samples[0]) + le_bytes_of(samples.skip(1))
    }
}

/// The sample encoded by a little-endian byte pair.
pub open spec fn sample_from_le(lo: u8, hi: u8) -> i16 {
    if lo + 256 * hi >= 0x8000 {
        (lo + 256 * hi - 0x10000) as i16
    } else {
        (lo + 256 * hi) as i16
    }
}

/// The chunk encoded by an even-length little-endian byte sequence.
pub open spec fn samples_of(bytes: Seq<u8>) -> Seq<i16>
    decreases bytes.len(),
{
    if bytes.len() < 2 {
        Seq::empty()
    } else {
        seq![sample_from_le(bytes[0], bytes[1])] + samples_of(bytes.skip(2))
    }
}

proof fn lemma_le_bytes_push(samples: Seq<i16>, s: i16)
    ensures
        le_bytes_of(samples.push(s)) == le_bytes_of(samples) + sample_le_bytes(s),
    decreases samples.len(),
{
    if samples.len() == 0 {
        let p = samples.push(s);
        assert(p.skip(1) =~= Seq::<i16>::empty());
        assert(le_bytes_of(Seq::<i16>::empty()) == Seq::<u8>::empty());
        assert(le_bytes_of(p) == sample_le_bytes(p[0]) + le_bytes_of(p.skip(1)));
        assert(le_bytes_of(p) =~= le_bytes_of(samples) + sample_le_bytes(s));
    } else {
        assert(samples.push(s).skip(1) =~= samples.skip(1).push(s));
        lemma_le_bytes_push(samples.skip(1), s);
        assert(le_bytes_of(samples.push(s)) =~= le_bytes_of(samples) + sample_le_bytes(s));
    }
}

/// Encode a chunk of samples as the payload of one outbound binary frame.
pub fn chunk_to_frame(samples: &Vec<i16>) -> (bytes: Vec<u8>)
    ensures
        bytes@ == le_bytes_of(samples@),
{
    let mut bytes: Vec<u8> = Vec::new();
    let mut i: usize = 0;
    while i < samples.len()
        invariant
            i <= samples@.len(),
            bytes@ == le_bytes_of(samples@.take(i as int)),
        decreases samples@.len() - i,
    {
        let s = samples[i];
        let w: i32 = if (s as i32) < 0 {
            s as i32 + 0x10000
        } else {
            s as i32
        };
        assert(w == sample_unsigned(s));
        assert(w / 256 < 256) by (nonlinear_arith)
            requires 0 <= w < 0x10000;
        bytes.push((w % 256) as u8);
        bytes.push((w / 256) as u8);
        proof {
            lemma_le_bytes_push(samples@.take(i as int), s);
            assert(samples@.take(i + 1) =~= samples@.take(i as int).push(s));
        }
        i = i + 1;
    }
    proof {
        assert(samples@.take(samples@.len() as int) =~= samples@);
    }
    bytes
}

proof fn lemma_samples_of_push_pair(bytes: Seq<u8>, lo: u8, hi: u8)
    requires
        bytes.len() % 2 == 0,
    ensures
        samples_of(bytes + seq![lo, hi]) == samples_of(bytes).push(sample_from_le(lo, hi)),
    decreases bytes.len(),
{
    let ext = bytes + seq![lo, hi];
    if bytes.len() == 0 {
        assert(ext.skip(2) =~= Seq::<u8>::empty());
        assert(samples_of(Seq::<u8>::empty()) == Seq::<i16>::empty());
        assert(ext[0] == lo && ext[1] == hi);
        assert(samples_of(ext) == seq![sample_from_le(ext[0], ext[1])] + samples_of(ext.skip(2)));
        assert(samples_of(ext) =~= samples_of(bytes).push(sample_from_le(lo, hi)));
    } else {
        assert(ext.skip(2) =~= bytes.skip(2) + seq![lo, hi]);
        lemma_samples_of_push_pair(bytes.skip(2), lo, hi);
        assert(samples_of(ext) =~= samples_of(bytes).push(sample_from_le(lo, hi)));
    }
}

/// Decode a binary frame payload back into samples. Returns `None` exactly
/// when the payload cannot be a whole number of 16-bit samples.
pub fn frame_to_chunk(bytes: &Vec<u8>) -> (chunk: Option<Vec<i16>>)
    ensures
        bytes@.len() % 2 == 0 ==> (chunk matches Some(samples) && samples@ == samples_of(bytes@)),
        bytes@.len() % 2 != 0 ==> chunk is None,
{
    if bytes.len() % 2 != 0 {
        return None;
    }
    let mut samples: Vec<i16> = Vec::new();
    let mut i: usize = 0;
    while i < bytes.len()
        invariant
            i <= bytes@.len(),
            i % 2 == 0,
            bytes@.len() % 2 == 0,
            samples@ == samples_of(bytes@.take(i as int)),
        decreases bytes@.len() - i,
    {
        let lo = bytes[i];
        let hi = bytes[i + 1];
        let u: i32 = lo as i32 + 256 * hi as i32;
        let s: i16 = if u >= 0x8000 {
            (u - 0x10000) as i16
        } else {
            u as i16
        };
        assert(s == sample_from_le(lo, hi));
        samples.push(s);
        proof {
            lemma_samples_of_push_pair(bytes@.take(i as int), lo, hi);
            assert(bytes@.take(i + 2) =~= bytes@.take(i as int) + seq![lo, hi]);
        }
        i = i + 2;
    }
    proof {
        assert(bytes@.take(bytes@.len() as int) =~= bytes@);
    }
    Some(samples)
}

proof fn lemma_sample_round_trip(s: i16)
    ensures
        sample_from_le((sample_unsigned(s) % 256) as u8, (sample_unsigned(s) / 256) as u8) == s,
{
    let u = sample_unsigned(s);
    assert(u / 256 < 256 && 256 * (u / 256) + u % 256 == u) by (nonlinear_arith)
        requires 0 <= u < 0x10000;
}

/// A chunk's frame payload is exactly two bytes per sample, and decoding the
/// payload yields back the identical samples.
pub proof fn lemma_round_trip(samples: Seq<i16>)
    ensures
        le_bytes_of(samples).len() == 2 * samples.len(),
        samples_of(le_bytes_of(samples)) == samples,
    decreases samples.len(),
{
    if samples.len() == 0 {
        assert(samples_of(le_bytes_of(samples)) =~= samples);
    } else {
        lemma_round_trip(samples.skip(1));
        lemma_sample_round_trip(samples[0]);
        let b = le_bytes_of(samples);
        assert(b.skip(2) =~= le_bytes_of(samples.skip(1)));
        assert(samples_of(b) =~= samples);
    }
}

} // verus!
