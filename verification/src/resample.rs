//! Streaming linear-interpolation resampler: converts a mono stream at the
//! device's native rate into the canonical target rate.  A running
//! fractional source position is kept exactly, as an integer numerator
//! over the target rate, so no drift accumulates across long recordings;
//! interpolation weights use a fixed-point precision of 1/1024.

use vstd::prelude::*;
use vstd::arithmetic::div_mod::{
    lemma_basic_div, lemma_div_by_multiple, lemma_div_is_ordered, lemma_div_pos_is_pos,
    lemma_fundamental_div_mod, lemma_fundamental_div_mod_converse,
    lemma_hoist_over_denominator, lemma_mod_multiples_basic, lemma_mod_multiples_vanish,
    lemma_multiply_divide_lt,
};
use vstd::arithmetic::mul::{
    lemma_mul_inequality, lemma_mul_is_distributive_add_other_way,
    lemma_mul_is_distributive_sub, lemma_mul_is_distributive_sub_other_way,
    lemma_mul_nonnegative, lemma_mul_strict_inequality, lemma_mul_strictly_positive,
    lemma_mul_upper_bound,
};

verus! {

/// Highest sample rate the resampler accepts, on either side.
pub const MAX_SAMPLE_RATE: u32 = 1000000;

/// Most input samples one resampler instance accepts over its lifetime
/// (several hours of audio at the highest rate).
pub const MAX_STREAM_SAMPLES: u64 = 0x1000000000;

/// Rounding division upward: the least `q` with `q * d >= m` (for
/// non-negative `m` and positive `d`).
pub open spec fn ceil_div(m: int, d: int) -> int {
    (m + d - 1) / d
}

/// Source position of output sample `k`: the integer part of
/// `k * native / target`.
pub open spec fn out_pos(k: int, native: int, target: int) -> int {
    (k * native) / target
}

/// Fixed-point interpolation weight of output sample `k`: the fractional
/// part of `k * native / target`, in units of 1/1024, rounded down.
pub open spec fn out_frac(k: int, native: int, target: int) -> int {
    ((k * native) % target) * 1024 / target
}

/// Linear interpolation between two samples with a fixed-point weight
/// `f/1024`, computed over the sample values shifted into `0..=65535` so
/// the division rounds uniformly.
pub open spec fn interp_shifted(s0: i16, s1: i16, f: int) -> int {
    ((s0 + 32768) * (1024 - f) + (s1 + 32768) * f) / 1024 - 32768
}

/// Number of output samples a fully flushed stream of `n` input samples
/// yields: one for every output position that falls inside the input.
pub open spec fn out_len(n: int, native: int, target: int) -> int {
    if n <= 0 {
        0
    } else {
        ceil_div(n * target, native)
    }
}

/// Number of output samples available before the stream ends: positions
/// whose right interpolation neighbour has already arrived.  The last
/// pending input sample is used only by the final flush.
pub open spec fn ready_count(n: int, native: int, target: int) -> int {
    if n <= 0 {
        0
    } else {
        ceil_div((n - 1) * target, native)
    }
}

/// Output sample `k` of a stream `s`: interpolate between the bracketing
/// input samples; at the very end of the stream the right bracket clamps
/// to the last sample.
pub open spec fn resampled_at(s: Seq<i16>, native: int, target: int, k: int) -> i16 {
    let ip = out_pos(k, native, target);
    let i1 = if ip + 1 < s.len() {
        ip + 1
    } else {
        s.len() - 1
    };
    interp_shifted(s[ip], s[i1], out_frac(k, native, target)) as i16
}

/// The complete resampled image of an input stream.
pub open spec fn resampled(s: Seq<i16>, native: int, target: int) -> Seq<i16> {
    Seq::new(
        out_len(s.len() as int, native, target) as nat,
        |k: int| resampled_at(s, native, target, k),
    )
}

/// `(a - 1) * b == a * b - b`: one distributivity step, packaged.
proof fn lemma_mul_sub_one(a: int, b: int)
    ensures
        (a - 1) * b == a * b - b,
{
    lemma_mul_is_distributive_sub_other_way(b, a, 1);
}

/// `(a + 1) * b == a * b + b`: one distributivity step, packaged.
proof fn lemma_mul_add_one(a: int, b: int)
    ensures
        (a + 1) * b == a * b + b,
{
    lemma_mul_is_distributive_sub_other_way(b, a + 1, 1);
}

/// `k * d < m` exactly when `k < ceil_div(m, d)`: counting the multiples
/// of `d` below `m`.
pub(crate) proof fn lemma_ceil_div_count(m: int, d: int, k: int)
    requires
        1 <= d,
        0 <= m,
        0 <= k,
    ensures
        (k * d < m) <==> (k < ceil_div(m, d)),
{
    let q = (m + d - 1) / d;
    lemma_fundamental_div_mod(m + d - 1, d);
    assert(m + d - 1 == d * q + (m + d - 1) % d);
    if k < q {
        lemma_mul_inequality(k, q - 1, d);
        lemma_mul_sub_one(q, d);
    }
    if k >= q {
        lemma_mul_inequality(q, k, d);
    }
}

/// Rounding-up division is monotone in the dividend.
proof fn lemma_ceil_div_monotone(m1: int, m2: int, d: int)
    requires
        1 <= d,
        0 <= m1 <= m2,
    ensures
        ceil_div(m1, d) <= ceil_div(m2, d),
{
    lemma_div_is_ordered(m1 + d - 1, m2 + d - 1, d);
}

/// The shifted interpolation of two 16-bit samples stays in 16-bit range.
proof fn lemma_interp_bounds(s0: i16, s1: i16, f: int)
    requires
        0 <= f <= 1024,
    ensures
        0 <= (s0 + 32768) * (1024 - f) + (s1 + 32768) * f <= 65535 * 1024,
        -32768 <= interp_shifted(s0, s1, f) <= 32767,
{
    let u0 = s0 + 32768;
    let u1 = s1 + 32768;
    lemma_mul_nonnegative(u0, 1024 - f);
    lemma_mul_nonnegative(u1, f);
    lemma_mul_inequality(u0, 65535, 1024 - f);
    lemma_mul_inequality(u1, 65535, f);
    lemma_mul_is_distributive_sub(65535, 1024, f);
    let numer = u0 * (1024 - f) + u1 * f;
    lemma_div_pos_is_pos(numer, 1024);
    lemma_div_is_ordered(numer, 65535int * 1024, 1024);
    lemma_div_by_multiple(65535, 1024);
}

/// Interpolating between two equal samples gives that sample back, for
/// any weight.
proof fn lemma_interp_same(s: i16, f: int)
    ensures
        interp_shifted(s, s, f) == s,
{
    let u = s + 32768;
    lemma_mul_is_distributive_sub(u, 1024, f);
    assert(u * (1024 - f) + u * f == u * 1024);
    lemma_div_by_multiple(u, 1024);
}

/// An output sample whose right bracket lies strictly inside the stream
/// is unaffected by whatever arrives later.
proof fn lemma_resampled_at_prefix(s: Seq<i16>, ext: Seq<i16>, native: int, target: int, k: int)
    requires
        1 <= native,
        1 <= target,
        0 <= k < ready_count(s.len() as int, native, target),
    ensures
        resampled_at(s, native, target, k) == resampled_at(s + ext, native, target, k),
{
    let n = s.len() as int;
    lemma_mul_nonnegative(n - 1, target);
    lemma_ceil_div_count((n - 1) * target, native, k);
    assert(k * native < (n - 1) * target);
    let q = out_pos(k, native, target);
    lemma_fundamental_div_mod(k * native, target);
    // q <= n - 2, so both brackets index into s on either stream.
    lemma_mul_sub_one(n - 1, target);
    lemma_fundamental_div_mod_converse(
        (n - 2) * target + (target - 1), target, n - 2, target - 1);
    lemma_mul_sub_one(n, target);
    lemma_div_is_ordered(k * native, (n - 2) * target + (target - 1), target);
    assert((s + ext)[q] == s[q]);
    assert((s + ext)[q + 1] == s[q + 1]);
}

/// Identity law: at a ratio of one, resampling reproduces the input
/// exactly.
pub proof fn lemma_resample_identity(s: Seq<i16>, rate: int)
    requires
        1 <= rate,
    ensures
        resampled(s, rate, rate) == s,
{
    let n = s.len() as int;
    if n > 0 {
        lemma_mul_nonnegative(n, rate);
        lemma_fundamental_div_mod_converse(n * rate + rate - 1, rate, n, rate - 1);
        assert(out_len(n, rate, rate) == n);
    }
    assert forall|k: int| 0 <= k < n implies resampled_at(s, rate, rate, k) == s[k] by {
        lemma_div_by_multiple(k, rate);
        lemma_mod_multiples_basic(k, rate);
        assert(out_pos(k, rate, rate) == k);
        assert(out_frac(k, rate, rate) == 0);
        let i1 = if k + 1 < s.len() { k + 1 } else { s.len() - 1 };
        assert(interp_shifted(s[k], s[i1], 0) == s[k]) by {
            lemma_div_by_multiple(s[k] + 32768, 1024);
        }
    }
    assert(resampled(s, rate, rate) =~= s);
}

/// Output count law: a whole number of seconds of input at the native
/// rate resamples to exactly that many seconds at the target rate.
pub proof fn lemma_resample_output_count(s: Seq<i16>, native: int, target: int, seconds: int)
    requires
        1 <= native,
        1 <= target,
        0 <= seconds,
        s.len() == native * seconds,
    ensures
        resampled(s, native, target).len() == target * seconds,
{
    if seconds == 0 {
        assert(native * 0 == 0);
    } else {
        lemma_mul_strictly_positive(native, seconds);
        let n = s.len() as int;
        assert(n * target == (target * seconds) * native) by (nonlinear_arith)
            requires
                n == native * seconds,
        ;
        lemma_mul_nonnegative(target, seconds);
        lemma_fundamental_div_mod_converse(
            n * target + native - 1, native, target * seconds, native - 1);
    }
}

/// One linear-interpolation step: blends `s0` and `s1` with the weight
/// `frac/1024` over shifted values.
fn interp_exec(s0: i16, s1: i16, frac: u32) -> (r: i16)
    requires
        frac <= 1024,
    ensures
        r as int == interp_shifted(s0, s1, frac as int),
{
    proof {
        lemma_interp_bounds(s0, s1, frac as int);
    }
    let u0: u32 = (s0 as i32 + 32768) as u32;
    let u1: u32 = (s1 as i32 + 32768) as u32;
    let acc: u32 = u0 * (1024 - frac) + u1 * frac;
    let val: i32 = (acc / 1024) as i32;
    (val - 32768) as i16
}

/// Streaming resampler state.  `stream` is every input sample ever
/// pushed; `out_hist` is every output sample ever emitted; `buf` keeps
/// the still-needed tail of the input and `num` is the position of the
/// next output sample, as a numerator over the target rate, relative to
/// the first buffered sample.
pub struct Resampler {
    pub native_rate: u32,
    pub target_rate: u32,
    pub buf: Vec<i16>,
    pub num: u64,
    pub stream: Ghost<Seq<i16>>,
    pub emitted: Ghost<int>,
    pub out_hist: Ghost<Seq<i16>>,
}

impl Resampler {
    /// The resampler's internal invariant between calls.
    pub open spec fn wf(self) -> bool {
        let native = self.native_rate as int;
        let target = self.target_rate as int;
        let n = self.stream@.len() as int;
        &&& 1 <= native <= MAX_SAMPLE_RATE
        &&& 1 <= target <= MAX_SAMPLE_RATE
        &&& n <= MAX_STREAM_SAMPLES
        &&& self.buf@.len() <= n
        &&& self.buf@ == self.stream@.skip(n - self.buf@.len())
        &&& (n == 0 ==> self.buf@.len() == 0)
        &&& (n > 0 ==> self.buf@.len() == 1)
        &&& self.emitted@ == ready_count(n, native, target)
        &&& self.num as int == self.emitted@ * native - (n - self.buf@.len()) * target
        &&& self.num < self.native_rate
        &&& self.out_hist@.len() == self.emitted@
        &&& forall|k: int|
            0 <= k < self.emitted@ ==> self.out_hist@[k] == resampled_at(
                self.stream@, native, target, k)
    }

    /// A fresh resampler for the given rate pair.
    pub fn new(native_rate: u32, target_rate: u32) -> (r: Resampler)
        requires
            1 <= native_rate <= MAX_SAMPLE_RATE,
            1 <= target_rate <= MAX_SAMPLE_RATE,
        ensures
            r.wf(),
            r.native_rate == native_rate,
            r.target_rate == target_rate,
            r.stream@ == Seq::<i16>::empty(),
            r.out_hist@ == Seq::<i16>::empty(),
            r.emitted@ == 0,
    {
        let r = Resampler {
            native_rate,
            target_rate,
            buf: Vec::new(),
            num: 0,
            stream: Ghost(Seq::empty()),
            emitted: Ghost(0),
            out_hist: Ghost(Seq::empty()),
        };
        proof {
            assert(r.buf@ =~= r.stream@.skip(0));
        }
        r
    }

    /// Feeds a batch of native-rate mono samples and returns every output
    /// sample whose interpolation brackets are now fully available.  The
    /// outputs are exactly the next slice of the resampled image of the
    /// whole stream.
    #[verifier::rlimit(100)]
    pub fn push(&mut self, chunk: Vec<i16>) -> (out: Vec<i16>)
        requires
            old(self).wf(),
            old(self).stream@.len() + chunk@.len() <= MAX_STREAM_SAMPLES,
        ensures
            final(self).wf(),
            final(self).native_rate == old(self).native_rate,
            final(self).target_rate == old(self).target_rate,
            final(self).stream@ == old(self).stream@ + chunk@,
            final(self).out_hist@ == old(self).out_hist@ + out@,
            old(self).emitted@ <= final(self).emitted@,
            out@ == resampled(
                final(self).stream@,
                old(self).native_rate as int,
                old(self).target_rate as int,
            ).subrange(old(self).emitted@, final(self).emitted@),
    {
        let ghost native = self.native_rate as int;
        let ghost target = self.target_rate as int;
        let ghost chunk0 = chunk@;
        let ghost new_stream = old(self).stream@ + chunk0;
        let ghost n = new_stream.len() as int;
        let ghost d0 = old(self).stream@.len() - old(self).buf@.len();
        let mut incoming = chunk;
        self.buf.append(&mut incoming);
        proof {
            self.stream@ = new_stream;
            assert(self.buf@ =~= new_stream.skip(d0 as int));
            // Every already-emitted sample keeps its value on the
            // extended stream.
            assert forall|k: int| 0 <= k < self.emitted@ implies self.out_hist@[k]
                == resampled_at(new_stream, native, target, k) by {
                lemma_resampled_at_prefix(old(self).stream@, chunk0, native, target, k);
            }
            // Ready counts only grow as the stream grows.
            if old(self).stream@.len() > 0 {
                lemma_mul_nonnegative(old(self).stream@.len() as int - 1, target);
                lemma_mul_inequality(
                    old(self).stream@.len() as int - 1, n - 1, target);
                lemma_ceil_div_monotone(
                    (old(self).stream@.len() as int - 1) * target, (n - 1) * target, native);
            }
        }
        let mut out: Vec<i16> = Vec::new();
        let target64: u64 = self.target_rate as u64;
        let native64: u64 = self.native_rate as u64;
        while self.num / target64 + 1 < self.buf.len() as u64
            invariant
                1 <= native <= MAX_SAMPLE_RATE,
                1 <= target <= MAX_SAMPLE_RATE,
                native == self.native_rate as int,
                target == self.target_rate as int,
                native64 == self.native_rate as u64,
                target64 == self.target_rate as u64,
                self.native_rate == old(self).native_rate,
                self.target_rate == old(self).target_rate,
                self.stream@ == new_stream,
                n == new_stream.len() as int,
                n <= MAX_STREAM_SAMPLES,
                self.buf@.len() <= n,
                d0 == n - self.buf@.len(),
                self.buf@ == new_stream.skip(d0 as int),
                old(self).emitted@ <= self.emitted@,
                self.emitted@ <= ready_count(n, native, target),
                self.num as int == self.emitted@ * native - d0 * target,
                self.num < native64 || self.num as int
                    <= (self.buf@.len() - 1) * target + native - 1,
                self.num <= 0x400000000000000u64,
                self.out_hist@ == old(self).out_hist@ + out@,
                self.out_hist@.len() == self.emitted@,
                forall|k: int|
                    0 <= k < self.emitted@ ==> self.out_hist@[k] == resampled_at(
                        new_stream, native, target, k),
            decreases ready_count(n, native, target) - self.emitted@,
        {
            let ghost k = self.emitted@;
            let ghost q = out_pos(k, native, target);
            let ghost rem = self.num as int % target;
            proof {
                // Relate the buffer-relative position to the absolute one.
                lemma_hoist_over_denominator(self.num as int, d0 as int, target as nat);
                assert(q == self.num as int / target + d0);
                lemma_mod_multiples_vanish(d0 as int, self.num as int, target);
                assert((k * native) % target == rem);
                lemma_fundamental_div_mod(self.num as int, target);
                // The right bracket exists, so this output is ready.
                assert(k * native < (n - 1) * target) by {
                    lemma_fundamental_div_mod(k * native, target);
                    lemma_mul_inequality(q, n - 2, target);
                    lemma_mul_sub_one(n - 1, target);
                    lemma_mul_sub_one(n, target);
                }
                lemma_mul_nonnegative(n - 1, target);
                lemma_ceil_div_count((n - 1) * target, native, k);
                // The numerator is bounded by the buffered span.
                lemma_mul_inequality(
                    self.num as int / target, self.buf@.len() - 2, target);
                lemma_mul_sub_one(self.buf@.len() - 1, target);
                lemma_mul_sub_one(self.buf@.len() as int, target);
                assert(self.num as int <= (self.buf@.len() - 1) * target - 1);
                // Fixed-point weight stays below one.
                lemma_mul_nonnegative(rem, 1024);
                lemma_mul_strict_inequality(rem, target, 1024);
                lemma_multiply_divide_lt(rem * 1024, target, 1024);
            }
            let ip = (self.num / target64) as usize;
            let frac = (((self.num % target64) * 1024) / target64) as u32;
            let s0 = self.buf[ip];
            let s1 = self.buf[ip + 1];
            let v = interp_exec(s0, s1, frac);
            proof {
                lemma_interp_bounds(s0, s1, frac as int);
                assert(v == resampled_at(new_stream, native, target, k));
            }
            out.push(v);
            proof {
                // The position numerator stays far below its type's range.
                lemma_mul_upper_bound(
                    self.buf@.len() - 1, MAX_STREAM_SAMPLES as int, target,
                    MAX_SAMPLE_RATE as int);
                lemma_mul_sub_one(self.buf@.len() as int, target);
            }
            self.num = self.num + native64;
            proof {
                self.emitted@ = self.emitted@ + 1;
                self.out_hist@ = self.out_hist@ + seq![v];
                assert(self.out_hist@ =~= old(self).out_hist@ + out@);
                lemma_mul_add_one(k, native);
            }
        }
        proof {
            // The loop stopped, so every ready output has been emitted.
            let k = self.emitted@;
            if self.buf@.len() > 0 {
                lemma_hoist_over_denominator(self.num as int, d0 as int, target as nat);
                lemma_fundamental_div_mod(self.num as int, target);
                lemma_mul_nonnegative(n - 1, target);
                if k < ready_count(n, native, target) {
                    lemma_ceil_div_count((n - 1) * target, native, k);
                    lemma_fundamental_div_mod(k * native, target);
                    lemma_mul_inequality(n - 1, out_pos(k, native, target), target);
                    assert(false);
                }
            } else {
                assert(n == 0);
            }
            assert(self.emitted@ == ready_count(n, native, target));
        }
        // Drop input samples no future output can need: everything before
        // the last buffered sample.
        if self.buf.len() > 0 {
            let d = self.buf.len() - 1;
            proof {
                lemma_fundamental_div_mod(self.num as int, target);
                lemma_mul_inequality(d as int, self.num as int / target, target);
                lemma_mul_upper_bound(
                    d as int, MAX_STREAM_SAMPLES as int, target, MAX_SAMPLE_RATE as int);
            }
            let tail = self.buf.split_off(d);
            let dropped_pos = (d as u64) * target64;
            self.num = self.num - dropped_pos;
            self.buf = tail;
            proof {
                assert(self.buf@ =~= new_stream.skip(n - 1));
                lemma_mul_nonnegative(d as int, target);
                lemma_mul_sub_one(n, target);
                // (d0 + d) * target splits into the two numerator drops.
                lemma_mul_is_distributive_add_other_way(target, d0 as int, d as int);
            }
        }
        proof {
            if n > 0 {
                lemma_mul_nonnegative(n - 1, target);
                lemma_mul_nonnegative(n, target);
                lemma_mul_inequality(n - 1, n, target);
                lemma_ceil_div_monotone((n - 1) * target, n * target, native);
            }
            assert(out@ =~= resampled(new_stream, native, target).subrange(
                old(self).emitted@, self.emitted@));
        }
        out
    }

    /// Flushes the stream's tail: emits the remaining output positions,
    /// whose right bracket clamps to the final input sample, completing
    /// the resampled image of the whole stream.
    pub fn finish(self) -> (out: Vec<i16>)
        requires
            self.wf(),
        ensures
            self.out_hist@ + out@ == resampled(
                self.stream@, self.native_rate as int, self.target_rate as int),
    {
        let ghost native = self.native_rate as int;
        let ghost target = self.target_rate as int;
        let ghost n = self.stream@.len() as int;
        let mut rs = self;
        let mut out: Vec<i16> = Vec::new();
        if rs.buf.len() == 0 {
            proof {
                assert(rs.out_hist@ + out@ =~= resampled(rs.stream@, native, target));
            }
            return out;
        }
        let target64: u64 = rs.target_rate as u64;
        let native64: u64 = rs.native_rate as u64;
        let last = rs.buf[0];
        proof {
            lemma_mul_nonnegative(n - 1, target);
            lemma_mul_nonnegative(n, target);
            lemma_mul_inequality(n - 1, n, target);
            lemma_ceil_div_monotone((n - 1) * target, n * target, native);
        }
        while rs.num < target64
            invariant
                1 <= native <= MAX_SAMPLE_RATE,
                1 <= target <= MAX_SAMPLE_RATE,
                native == rs.native_rate as int,
                target == rs.target_rate as int,
                native64 == rs.native_rate as u64,
                target64 == rs.target_rate as u64,
                rs.stream@ == self.stream@,
                n == self.stream@.len() as int,
                n > 0,
                last == self.stream@[n - 1],
                self.emitted@ <= rs.emitted@,
                rs.emitted@ <= out_len(n, native, target),
                rs.num as int == rs.emitted@ * native - (n - 1) * target,
                rs.out_hist@ == self.out_hist@ + out@,
                rs.out_hist@.len() == rs.emitted@,
                forall|k: int|
                    0 <= k < rs.emitted@ ==> rs.out_hist@[k] == resampled_at(
                        self.stream@, native, target, k),
            decreases out_len(n, native, target) - rs.emitted@,
        {
            let ghost k = rs.emitted@;
            proof {
                // This position still lies inside the stream.
                lemma_mul_nonnegative(n, target);
                lemma_mul_sub_one(n, target);
                assert(k * native < n * target);
                lemma_ceil_div_count(n * target, native, k);
                // Its integer source position is the final sample.
                lemma_hoist_over_denominator(rs.num as int, n - 1, target as nat);
                lemma_basic_div(rs.num as int, target);
                assert(out_pos(k, native, target) == n - 1);
                lemma_interp_same(last, out_frac(k, native, target));
                assert(resampled_at(self.stream@, native, target, k) == last);
            }
            out.push(last);
            proof {
                rs.emitted@ = rs.emitted@ + 1;
                rs.out_hist@ = rs.out_hist@ + seq![last];
                assert(rs.out_hist@ =~= self.out_hist@ + out@);
                lemma_mul_add_one(k, native);
            }
            rs.num = rs.num + native64;
        }
        proof {
            // Past the final sample: the image is complete.
            let k = rs.emitted@;
            if k < out_len(n, native, target) {
                lemma_mul_nonnegative(n, target);
                lemma_ceil_div_count(n * target, native, k);
                lemma_mul_sub_one(n, target);
                assert(false);
            }
            assert(rs.out_hist@ =~= resampled(self.stream@, native, target));
        }
        out
    }
}

} // verus!
