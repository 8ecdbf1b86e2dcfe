//! The PCM container: a fixed 44-byte header followed by raw little-endian
//! 16-bit samples.  The header is first written with placeholder size
//! fields; finalizing patches the container size (byte offset 4) and the
//! data-chunk size (byte offset 40) from the accumulated payload length.

use vstd::prelude::*;
use crate::bytes::{
    i16_le, samples_le, u16_le, u32_le, lemma_samples_le_add, lemma_samples_le_len,
    push_samples_le, push_u16_le, push_u32_le,
};

verus! {

/// The 44-byte container header.  Layout, in order: the container tag,
/// the container size field, the format tag, the format chunk (PCM tag,
/// channels, sample rate, byte rate, block alignment, bit depth), the data
/// chunk tag, and the data size field.
#[verifier::opaque]
pub open spec fn wav_header(sample_rate: u32, channels: u16, riff_size: u32, data_size: u32)
    -> Seq<u8>
{
    seq![0x52u8, 0x49u8, 0x46u8, 0x46u8]  // "RIFF"
    + u32_le(riff_size)
    + seq![0x57u8, 0x41u8, 0x56u8, 0x45u8]  // "WAVE"
    + seq![0x66u8, 0x6du8, 0x74u8, 0x20u8]  // "fmt "
    + u32_le(16)  // format chunk length
    + u16_le(1)  // PCM tag
    + u16_le(channels)
    + u32_le(sample_rate)
    + u32_le((sample_rate * channels * 2) as u32)  // byte rate
    + u16_le((channels * 2) as u16)  // block alignment
    + u16_le(16)  // bits per sample
    + seq![0x64u8, 0x61u8, 0x74u8, 0x61u8]  // "data"
    + u32_le(data_size)
}

/// A complete, finalized container holding the given payload samples.
pub open spec fn wav_file(sample_rate: u32, channels: u16, payload: Seq<i16>) -> Seq<u8> {
    wav_header(
        sample_rate,
        channels,
        (2 * payload.len() + 36) as u32,
        (2 * payload.len()) as u32,
    ) + samples_le(payload)
}

/// The header is exactly 44 bytes long.
pub proof fn lemma_wav_header_len(sample_rate: u32, channels: u16, riff_size: u32, data_size: u32)
    ensures
        wav_header(sample_rate, channels, riff_size, data_size).len() == 44,
{
    reveal(wav_header);
}

/// The two size fields sit at their fixed offsets: the container size at
/// bytes 4..8 and the data size at bytes 40..44; every byte outside those
/// two ranges is independent of the sizes.  This is what lets a finalizer
/// patch a placeholder header in place.
pub proof fn lemma_header_patch_offsets(
    sample_rate: u32,
    channels: u16,
    riff_size: u32,
    data_size: u32,
)
    ensures
        wav_header(sample_rate, channels, riff_size, data_size).subrange(4, 8)
            == u32_le(riff_size),
        wav_header(sample_rate, channels, riff_size, data_size).subrange(40, 44)
            == u32_le(data_size),
        forall|i: int|
            0 <= i < 44 && !(4 <= i < 8) && !(40 <= i < 44)
                ==> wav_header(sample_rate, channels, riff_size, data_size)[i]
                == wav_header(sample_rate, channels, 0, 0)[i],
{
    reveal(wav_header);
    let h = wav_header(sample_rate, channels, riff_size, data_size);
    assert(h.subrange(4, 8) =~= u32_le(riff_size));
    assert(h.subrange(40, 44) =~= u32_le(data_size));
}

/// Container round-trip law: a finalized container holding `payload`
/// samples is `44 + 2 * payload.len()` bytes long, reports exactly
/// `2 * payload.len()` in the data-size field at byte offset 40, and
/// reports that plus 36 in the container-size field at byte offset 4.
pub proof fn lemma_container_round_trip(sample_rate: u32, channels: u16, payload: Seq<i16>)
    requires
        2 * payload.len() + 36 <= u32::MAX,
    ensures
        wav_file(sample_rate, channels, payload).len() == 44 + 2 * payload.len(),
        wav_file(sample_rate, channels, payload).subrange(40, 44) == u32_le(
            (2 * payload.len()) as u32),
        wav_file(sample_rate, channels, payload).subrange(4, 8) == u32_le(
            (2 * payload.len() + 36) as u32),
{
    let riff = (2 * payload.len() + 36) as u32;
    let ds = (2 * payload.len()) as u32;
    lemma_samples_le_len(payload);
    lemma_wav_header_len(sample_rate, channels, riff, ds);
    lemma_header_patch_offsets(sample_rate, channels, riff, ds);
    let file = wav_file(sample_rate, channels, payload);
    let h = wav_header(sample_rate, channels, riff, ds);
    assert(file.subrange(40, 44) =~= h.subrange(40, 44));
    assert(file.subrange(4, 8) =~= h.subrange(4, 8));
}

/// Incremental container writer.  `bytes` is the exact image of the file
/// so far: a header whose size fields are still zero placeholders,
/// followed by the little-endian bytes of every sample written; `written`
/// is the mathematical sample sequence those bytes encode.
pub struct WavWriter {
    pub bytes: Vec<u8>,
    pub data_size: u32,
    pub sample_rate: u32,
    pub channels: u16,
    pub written: Ghost<Seq<i16>>,
}

impl WavWriter {
    /// The writer's internal invariant.
    pub open spec fn wf(self) -> bool {
        &&& self.bytes@ == wav_header(self.sample_rate, self.channels, 0, 0)
            + samples_le(self.written@)
        &&& self.data_size == 2 * self.written@.len()
        &&& 2 * self.sample_rate * self.channels <= u32::MAX
        &&& 2 * self.channels <= u16::MAX
    }

    /// Opens a container: writes the header with both size fields zero.
    pub fn new(sample_rate: u32, channels: u16) -> (w: WavWriter)
        requires
            2 * sample_rate * channels <= u32::MAX,
            2 * channels <= u16::MAX,
        ensures
            w.wf(),
            w.written@ == Seq::<i16>::empty(),
            w.data_size == 0,
            w.sample_rate == sample_rate,
            w.channels == channels,
    {
        let bytes = make_header(sample_rate, channels, 0, 0);
        let w = WavWriter {
            bytes,
            data_size: 0,
            sample_rate,
            channels,
            written: Ghost(Seq::empty()),
        };
        proof {
            assert(w.bytes@ =~= wav_header(sample_rate, channels, 0, 0)
                + samples_le(Seq::empty()));
        }
        w
    }

    /// Appends raw sample bytes and grows the payload size accordingly.
    pub fn write_samples(&mut self, samples: &Vec<i16>)
        requires
            old(self).wf(),
            old(self).data_size + 2 * samples@.len() <= u32::MAX,
        ensures
            final(self).wf(),
            final(self).written@ == old(self).written@ + samples@,
            final(self).data_size == old(self).data_size + 2 * samples@.len(),
            final(self).sample_rate == old(self).sample_rate,
            final(self).channels == old(self).channels,
    {
        proof {
            lemma_samples_le_len(old(self).written@);
            lemma_wav_header_len(old(self).sample_rate, old(self).channels, 0, 0);
        }
        push_samples_le(&mut self.bytes, samples);
        let count: u32 = samples.len() as u32;
        self.data_size = self.data_size + count * 2;
        proof {
            self.written@ = old(self).written@ + samples@;
            lemma_samples_le_add(old(self).written@, samples@);
            assert(self.bytes@ =~= wav_header(self.sample_rate, self.channels, 0, 0)
                + samples_le(self.written@));
        }
    }

    /// Finalizes the container: computes the container size and the data
    /// size from the accumulated payload and patches them into the header,
    /// yielding the complete file image.
    pub fn finish(&self) -> (file: Vec<u8>)
        requires
            self.wf(),
            self.data_size <= u32::MAX - 36,
        ensures
            file@ == wav_file(self.sample_rate, self.channels, self.written@),
            file@.len() == 44 + self.data_size,
    {
        proof {
            lemma_samples_le_len(self.written@);
            lemma_wav_header_len(self.sample_rate, self.channels, 0, 0);
            lemma_wav_header_len(self.sample_rate, self.channels,
                (self.data_size + 36) as u32, self.data_size);
        }
        let riff_size = self.data_size + 36;
        let mut file = make_header(self.sample_rate, self.channels, riff_size, self.data_size);
        let n = self.bytes.len();
        let mut i: usize = 44;
        while i < n
            invariant
                44 <= i <= n,
                n == self.bytes@.len(),
                file@ == wav_header(self.sample_rate, self.channels, riff_size, self.data_size)
                    + self.bytes@.subrange(44, i as int),
            decreases n - i,
        {
            file.push(self.bytes[i]);
            proof {
                assert(self.bytes@.subrange(44, i + 1)
                    =~= self.bytes@.subrange(44, i as int) + seq![self.bytes@[i as int]]);
                assert(file@ =~= wav_header(self.sample_rate, self.channels, riff_size,
                    self.data_size) + self.bytes@.subrange(44, i + 1));
            }
            i += 1;
        }
        proof {
            assert(self.bytes@.subrange(44, n as int) =~= samples_le(self.written@));
            assert(file@ =~= wav_file(self.sample_rate, self.channels, self.written@));
        }
        file
    }
}

/// Builds a 44-byte header with the given size fields.
pub fn make_header(sample_rate: u32, channels: u16, riff_size: u32, data_size: u32)
    -> (h: Vec<u8>)
    requires
        2 * sample_rate * channels <= u32::MAX,
        2 * channels <= u16::MAX,
    ensures
        h@ == wav_header(sample_rate, channels, riff_size, data_size),
        h@.len() == 44,
{
    let mut h: Vec<u8> = Vec::new();
    h.push(0x52);
    h.push(0x49);
    h.push(0x46);
    h.push(0x46);
    push_u32_le(&mut h, riff_size);
    h.push(0x57);
    h.push(0x41);
    h.push(0x56);
    h.push(0x45);
    h.push(0x66);
    h.push(0x6d);
    h.push(0x74);
    h.push(0x20);
    push_u32_le(&mut h, 16);
    push_u16_le(&mut h, 1);
    push_u16_le(&mut h, channels);
    push_u32_le(&mut h, sample_rate);
    proof {
        let s = sample_rate as int;
        let c = channels as int;
        assert(s * c * 2 == 2 * s * c && s * c >= 0) by (nonlinear_arith)
            requires
                s >= 0,
                c >= 0,
        ;
    }
    let byte_rate: u32 = sample_rate * (channels as u32) * 2;
    push_u32_le(&mut h, byte_rate);
    let block_align: u16 = channels * 2;
    push_u16_le(&mut h, block_align);
    push_u16_le(&mut h, 16);
    h.push(0x64);
    h.push(0x61);
    h.push(0x74);
    h.push(0x61);
    push_u32_le(&mut h, data_size);
    proof {
        reveal(wav_header);
        assert(h@ =~= wav_header(sample_rate, channels, riff_size, data_size));
    }
    h
}

} // verus!
