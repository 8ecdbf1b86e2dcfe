//! Frame encoder: consumes mono 16-bit sample batches, writes whole
//! 960-sample frames into the container, enforces the maximum-duration cap,
//! and finalizes the container on every termination path.

use vstd::prelude::*;
use vstd::arithmetic::div_mod::{lemma_div_by_multiple, lemma_fundamental_div_mod_converse};
use vstd::arithmetic::mul::lemma_mul_inequality;
use crate::{FRAME_SIZE_SAMPLES, TARGET_SAMPLE_RATE};
use crate::wav::{wav_file, WavWriter};

verus! {

/// Largest frame cap the encoder accepts; keeps every payload size the
/// container can reach well inside a 32-bit size field
/// (1_000_000 frames of 1920 bytes is under 2 GiB).
pub const MAX_SUPPORTED_FRAMES: usize = 1000000;

/// A sample sequence zero-padded up to the next whole frame boundary.
pub open spec fn zero_pad_frame(s: Seq<i16>) -> Seq<i16> {
    if (s.len() as int) % (FRAME_SIZE_SAMPLES as int) == 0 {
        s
    } else {
        s + Seq::new(
            (FRAME_SIZE_SAMPLES - (s.len() as int) % (FRAME_SIZE_SAMPLES as int)) as nat,
            |i: int| 0i16,
        )
    }
}

/// Streaming frame encoder.  `fed` is the mathematical sequence of every
/// sample pushed so far; whole frames of it have gone to the writer and
/// the remainder (always shorter than one frame) waits in `buffer`.
pub struct Encoder {
    pub writer: WavWriter,
    pub buffer: Vec<i16>,
    pub frames_written: usize,
    pub max_frames: usize,
    pub finished: bool,
    pub fed: Ghost<Seq<i16>>,
}

impl Encoder {
    /// The encoder's internal invariant while it is still accepting data.
    pub open spec fn wf(self) -> bool {
        &&& self.writer.wf()
        &&& self.max_frames <= MAX_SUPPORTED_FRAMES
        &&& self.frames_written <= self.max_frames
        &&& self.frames_written * FRAME_SIZE_SAMPLES + self.buffer@.len() == self.fed@.len()
        &&& self.writer.written@ == self.fed@.take(
            (self.frames_written * FRAME_SIZE_SAMPLES) as int)
        &&& self.buffer@ == self.fed@.skip((self.frames_written * FRAME_SIZE_SAMPLES) as int)
        &&& self.buffer@.len() < FRAME_SIZE_SAMPLES
    }

    /// Opens the container and starts an empty encoding session.
    pub fn new(sample_rate: u32, channels: u16, max_frames: usize) -> (e: Encoder)
        requires
            2 * sample_rate * channels <= u32::MAX,
            2 * channels <= u16::MAX,
            max_frames <= MAX_SUPPORTED_FRAMES,
        ensures
            e.wf(),
            !e.finished,
            e.fed@ == Seq::<i16>::empty(),
            e.frames_written == 0,
            e.max_frames == max_frames,
            e.writer.sample_rate == sample_rate,
            e.writer.channels == channels,
    {
        let e = Encoder {
            writer: WavWriter::new(sample_rate, channels),
            buffer: Vec::new(),
            frames_written: 0,
            max_frames,
            finished: false,
            fed: Ghost(Seq::empty()),
        };
        proof {
            assert(e.writer.written@ =~= e.fed@.take(0));
            assert(e.buffer@ =~= e.fed@.skip(0));
        }
        e
    }

    /// Accepts a batch of samples.  Whole frames are written as long as
    /// the frame cap has not been reached; once a further full frame is
    /// available beyond the cap, the container is finalized with exactly
    /// `max_frames` frames of payload and the finished file image is
    /// returned.  Reaching the cap is a normal termination, not an error.
    #[verifier::rlimit(60)]
    pub fn push(&mut self, samples: Vec<i16>) -> (file: Option<Vec<u8>>)
        requires
            old(self).wf(),
            !old(self).finished,
        ensures
            final(self).fed@ == old(self).fed@ + samples@,
            final(self).max_frames == old(self).max_frames,
            final(self).writer.sample_rate == old(self).writer.sample_rate,
            final(self).writer.channels == old(self).writer.channels,
            if final(self).fed@.len() >= (old(self).max_frames + 1) * FRAME_SIZE_SAMPLES {
                &&& final(self).finished
                &&& file matches Some(f) && f@ == wav_file(
                    old(self).writer.sample_rate,
                    old(self).writer.channels,
                    final(self).fed@.take((old(self).max_frames * FRAME_SIZE_SAMPLES) as int),
                )
            } else {
                &&& !final(self).finished
                &&& final(self).wf()
                &&& file is None
                &&& final(self).frames_written == (final(self).fed@.len() as int)
                    / (FRAME_SIZE_SAMPLES as int)
            },
    {
        let ghost new_fed = old(self).fed@ + samples@;
        let ghost k0 = (old(self).frames_written * FRAME_SIZE_SAMPLES) as int;
        let mut incoming = samples;
        self.buffer.append(&mut incoming);
        proof {
            self.fed@ = new_fed;
            assert(self.buffer@ =~= self.fed@.skip(k0));
            assert(self.fed@.take(k0) =~= old(self).fed@.take(k0));
        }
        while self.buffer.len() >= FRAME_SIZE_SAMPLES
            invariant
                self.writer.wf(),
                self.max_frames == old(self).max_frames,
                self.max_frames <= MAX_SUPPORTED_FRAMES,
                self.frames_written <= self.max_frames,
                self.fed@ == new_fed,
                new_fed == old(self).fed@ + samples@,
                self.finished == false,
                self.writer.sample_rate == old(self).writer.sample_rate,
                self.writer.channels == old(self).writer.channels,
                self.frames_written * FRAME_SIZE_SAMPLES + self.buffer@.len()
                    == self.fed@.len(),
                self.writer.written@ == self.fed@.take(
                    (self.frames_written * FRAME_SIZE_SAMPLES) as int),
                self.buffer@ == self.fed@.skip(
                    (self.frames_written * FRAME_SIZE_SAMPLES) as int),
            decreases self.buffer.len(),
        {
            proof {
                lemma_mul_inequality(
                    self.frames_written as int,
                    MAX_SUPPORTED_FRAMES as int,
                    FRAME_SIZE_SAMPLES as int,
                );
            }
            if self.frames_written >= self.max_frames {
                // The duration cap is reached: finalize and stop.
                proof {
                    lemma_mul_inequality(
                        (self.max_frames + 1) as int,
                        (self.frames_written + 1) as int,
                        FRAME_SIZE_SAMPLES as int,
                    );
                }
                let file = self.writer.finish();
                self.finished = true;
                return Some(file);
            }
            let ghost k = (self.frames_written * FRAME_SIZE_SAMPLES) as int;
            let rest = self.buffer.split_off(FRAME_SIZE_SAMPLES);
            self.writer.write_samples(&self.buffer);
            self.buffer = rest;
            self.frames_written = self.frames_written + 1;
            proof {
                assert(self.fed@.take(k).add(
                    self.fed@.skip(k).subrange(0, FRAME_SIZE_SAMPLES as int))
                    =~= self.fed@.take(k + FRAME_SIZE_SAMPLES));
                assert(self.fed@.skip(k).subrange(
                    FRAME_SIZE_SAMPLES as int,
                    self.fed@.skip(k).len() as int,
                ) =~= self.fed@.skip(k + FRAME_SIZE_SAMPLES));
            }
        }
        proof {
            // Not capped: the frame counter equals the number of whole
            // frames the fed stream holds.
            let f = FRAME_SIZE_SAMPLES as int;
            let w = self.frames_written as int;
            lemma_fundamental_div_mod_converse(
                self.fed@.len() as int, f, w, self.buffer@.len() as int);
            lemma_mul_inequality(w + 1, self.max_frames + 1 as int, f);
        }
        None
    }

    /// Terminates the session on a stop signal: zero-pads any partial
    /// trailing frame, writes it, and finalizes the container.
    pub fn stop(self) -> (file: Vec<u8>)
        requires
            self.wf(),
            !self.finished,
        ensures
            file@ == wav_file(
                self.writer.sample_rate,
                self.writer.channels,
                zero_pad_frame(self.fed@),
            ),
    {
        let mut enc = self;
        proof {
            let f = FRAME_SIZE_SAMPLES as int;
            lemma_fundamental_div_mod_converse(
                enc.fed@.len() as int, f, enc.frames_written as int,
                enc.buffer@.len() as int);
            lemma_mul_inequality(
                enc.frames_written as int, MAX_SUPPORTED_FRAMES as int, f);
        }
        if enc.buffer.len() > 0 {
            let ghost orig_buf = enc.buffer@;
            while enc.buffer.len() < FRAME_SIZE_SAMPLES
                invariant
                    0 < orig_buf.len() <= enc.buffer@.len() <= FRAME_SIZE_SAMPLES,
                    enc.writer == self.writer,
                    enc.fed == self.fed,
                    enc.frames_written == self.frames_written,
                    enc.buffer@ == orig_buf + Seq::new(
                        (enc.buffer@.len() - orig_buf.len()) as nat,
                        |i: int| 0i16,
                    ),
                decreases FRAME_SIZE_SAMPLES - enc.buffer.len(),
            {
                enc.buffer.push(0);
                proof {
                    assert(enc.buffer@ =~= orig_buf + Seq::new(
                        (enc.buffer@.len() - orig_buf.len()) as nat,
                        |i: int| 0i16,
                    ));
                }
            }
            enc.writer.write_samples(&enc.buffer);
            proof {
                assert(self.fed@.take((self.frames_written * FRAME_SIZE_SAMPLES) as int)
                    + self.buffer@ =~= self.fed@);
                assert(enc.writer.written@ =~= zero_pad_frame(self.fed@));
            }
        } else {
            proof {
                assert(enc.writer.written@ =~= zero_pad_frame(self.fed@));
            }
        }
        enc.writer.finish()
    }
}

/// Derives the frame cap from the requested maximum duration: one frame
/// covers 20 ms, so a duration of `max_duration_seconds` allows
/// `48000 * seconds / 960 == 50 * seconds` frames.
pub fn max_frames_for(max_duration_seconds: u64) -> (n: usize)
    requires
        max_duration_seconds <= 20000,
    ensures
        n == 50 * max_duration_seconds,
        n <= MAX_SUPPORTED_FRAMES,
{
    proof {
        let d = max_duration_seconds as int;
        assert(48000 * d == (50 * d) * 960);
        lemma_div_by_multiple(50 * d, 960);
    }
    ((TARGET_SAMPLE_RATE as u64 * max_duration_seconds) / (FRAME_SIZE_SAMPLES as u64)) as usize
}

/// Duration cap law: with the frame cap derived from a duration of `d`
/// seconds, a capped container's payload holds exactly the cap's worth of
/// samples, which never exceeds `ceil(d * 48000 / 960) * 960`.
pub proof fn lemma_duration_cap(d: u64, fed: Seq<i16>)
    requires
        fed.len() >= (50 * d + 1) * FRAME_SIZE_SAMPLES,
    ensures
        fed.take((50 * d * FRAME_SIZE_SAMPLES) as int).len()
            == 50 * d * FRAME_SIZE_SAMPLES,
        50 * d * FRAME_SIZE_SAMPLES <= ((d * 48000 + 959) / 960) * 960,
{
    let f = FRAME_SIZE_SAMPLES as int;
    let m = 50 * d as int;
    lemma_mul_inequality(m, m + 1, f);
    assert((d * 48000 + 959) / 960 == m) by {
        assert(d * 48000 + 959 == m * 960 + 959);
        lemma_fundamental_div_mod_converse(m * 960 + 959, 960, m, 959);
    }
}

} // verus!
