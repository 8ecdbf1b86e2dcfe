//! Little-endian byte encodings for the integer fields and samples of the
//! PCM container, together with the lemmas the container proofs need.

use vstd::prelude::*;

verus! {

/// The two little-endian bytes of a 16-bit unsigned value.
pub open spec fn u16_le(x: u16) -> Seq<u8> {
    seq![(x % 256) as u8, (x / 256) as u8]
}

/// The four little-endian bytes of a 32-bit unsigned value.
pub open spec fn u32_le(x: u32) -> Seq<u8> {
    seq![
        (x % 256) as u8,
        ((x / 256) % 256) as u8,
        ((x / 65536) % 256) as u8,
        ((x / 16777216) % 256) as u8,
    ]
}

/// The two's-complement 16-bit pattern of a signed sample.
pub open spec fn i16_as_u16(x: i16) -> u16 {
    if x >= 0 {
        x as u16
    } else {
        (x + 65536) as u16
    }
}

/// The two little-endian bytes of a signed 16-bit sample.
pub open spec fn i16_le(x: i16) -> Seq<u8> {
    u16_le(i16_as_u16(x))
}

/// The raw PCM byte stream of a sample sequence: each sample contributes
/// its two little-endian bytes, in order.
pub open spec fn samples_le(s: Seq<i16>) -> Seq<u8>
    decreases s.len(),
{
    if s.len() == 0 {
        Seq::empty()
    } else {
        samples_le(s.drop_last()) + i16_le(s.last())
    }
}

/// Each sample occupies exactly two bytes of the PCM stream.
pub proof fn lemma_samples_le_len(s: Seq<i16>)
    ensures
        samples_le(s).len() == 2 * s.len(),
    decreases s.len(),
{
    if s.len() > 0 {
        lemma_samples_le_len(s.drop_last());
    }
}

/// The PCM stream of a concatenation is the concatenation of the streams.
pub proof fn lemma_samples_le_add(a: Seq<i16>, b: Seq<i16>)
    ensures
        samples_le(a + b) == samples_le(a) + samples_le(b),
    decreases b.len(),
{
    if b.len() == 0 {
        assert(a + b =~= a);
        assert(samples_le(a) + samples_le(b) =~= samples_le(a));
    } else {
        lemma_samples_le_add(a, b.drop_last());
        assert((a + b).drop_last() =~= a + b.drop_last());
        assert((a + b).last() == b.last());
        assert(samples_le(a) + samples_le(b.drop_last()) + i16_le(b.last()) =~= samples_le(a)
            + samples_le(b));
    }
}

/// Appends the two little-endian bytes of a 16-bit unsigned value.
pub fn push_u16_le(out: &mut Vec<u8>, x: u16)
    ensures
        final(out)@ == old(out)@ + u16_le(x),
{
    out.push((x % 256) as u8);
    out.push((x / 256) as u8);
    assert(final(out)@ =~= old(out)@ + u16_le(x));
}

/// Appends the four little-endian bytes of a 32-bit unsigned value.
pub fn push_u32_le(out: &mut Vec<u8>, x: u32)
    ensures
        final(out)@ == old(out)@ + u32_le(x),
{
    out.push((x % 256) as u8);
    out.push(((x / 256) % 256) as u8);
    out.push(((x / 65536) % 256) as u8);
    out.push(((x / 16777216) % 256) as u8);
    assert(final(out)@ =~= old(out)@ + u32_le(x));
}

/// Appends the two little-endian bytes of a signed 16-bit sample.
pub fn push_i16_le(out: &mut Vec<u8>, x: i16)
    ensures
        final(out)@ == old(out)@ + i16_le(x),
{
    let u: u16 = if x >= 0 {
        x as u16
    } else {
        (x as i32 + 65536) as u16
    };
    assert(u == i16_as_u16(x));
    push_u16_le(out, u);
}

/// Appends the raw PCM bytes of a sample slice.
pub fn push_samples_le(out: &mut Vec<u8>, samples: &Vec<i16>)
    ensures
        final(out)@ == old(out)@ + samples_le(samples@),
{
    let n = samples.len();
    let mut i: usize = 0;
    while i < n
        invariant
            n == samples@.len(),
            i <= n,
            out@ == old(out)@ + samples_le(samples@.take(i as int)),
        decreases n - i,
    {
        proof {
            assert(samples@.take(i + 1).drop_last() =~= samples@.take(i as int));
            assert(samples@.take(i + 1).last() == samples@[i as int]);
        }
        push_i16_le(out, samples[i]);
        proof {
            assert(old(out)@ + samples_le(samples@.take(i as int)) + i16_le(samples@[i as int])
                =~= old(out)@ + samples_le(samples@.take(i + 1)));
        }
        i += 1;
    }
    proof {
        assert(samples@.take(n as int) =~= samples@);
    }
}

} // verus!
