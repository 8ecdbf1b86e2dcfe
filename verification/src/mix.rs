//! Channel mixdown: interleaved multi-channel 16-bit samples are averaged
//! into one mono sample per channel-aligned group.  The division is done
//! over values shifted into `0..=65535`, so every group rounds the same
//! way (downward); on aligned input this is exactly the floor of the
//! arithmetic mean of the group.

use vstd::prelude::*;
use vstd::arithmetic::div_mod::{
    lemma_fundamental_div_mod, lemma_hoist_over_denominator, lemma_multiply_divide_le,
};
use vstd::arithmetic::mul::{lemma_mul_inequality, lemma_mul_nonnegative};
use crate::resample::{ceil_div, lemma_ceil_div_count};

verus! {

/// The sum of a sample group's values, each shifted by 32768 into
/// `0..=65535`.
pub open spec fn sum_shifted(g: Seq<i16>) -> int
    decreases g.len(),
{
    if g.len() == 0 {
        0
    } else {
        sum_shifted(g.drop_last()) + g.last() + 32768
    }
}

/// The plain sum of a sample group's values.
pub open spec fn sample_sum(g: Seq<i16>) -> int
    decreases g.len(),
{
    if g.len() == 0 {
        0
    } else {
        sample_sum(g.drop_last()) + g.last()
    }
}

/// Sample group `g` of an interleaved stream: one sample per channel,
/// with the final group possibly short.
pub open spec fn group_of(s: Seq<i16>, channels: int, g: int) -> Seq<i16> {
    s.subrange(
        g * channels,
        if (g + 1) * channels <= s.len() {
            (g + 1) * channels
        } else {
            s.len() as int
        },
    )
}

/// The mono value a sample group mixes down to: the shifted mean, rounded
/// down, shifted back.
pub open spec fn mixed_at(s: Seq<i16>, channels: int, g: int) -> int {
    sum_shifted(group_of(s, channels, g)) / channels - 32768
}

/// The full mono image of an interleaved multi-channel stream.
pub open spec fn mixed(s: Seq<i16>, channels: int) -> Seq<i16> {
    Seq::new(
        ceil_div(s.len() as int, channels) as nat,
        |g: int| mixed_at(s, channels, g) as i16,
    )
}

/// A group's shifted sum is non-negative and at most 65535 per sample.
proof fn lemma_sum_shifted_bounds(g: Seq<i16>)
    ensures
        0 <= sum_shifted(g) <= 65535 * g.len(),
    decreases g.len(),
{
    if g.len() > 0 {
        lemma_sum_shifted_bounds(g.drop_last());
    }
}

/// The shifted sum is the plain sum plus 32768 per sample.
proof fn lemma_sum_shifted_is_sum(g: Seq<i16>)
    ensures
        sum_shifted(g) == sample_sum(g) + 32768 * g.len(),
    decreases g.len(),
{
    if g.len() > 0 {
        lemma_sum_shifted_is_sum(g.drop_last());
    }
}

/// Mixdown mean law: on channel-aligned input, every output sample is the
/// arithmetic mean of its group's values, rounded down.
pub proof fn lemma_mix_mean(s: Seq<i16>, channels: int, g: int)
    requires
        1 <= channels,
        (s.len() as int) % channels == 0,
        0 <= g < (s.len() as int) / channels,
    ensures
        group_of(s, channels, g).len() == channels,
        mixed(s, channels)[g] == sample_sum(group_of(s, channels, g)) / channels,
{
    let n = s.len() as int;
    lemma_fundamental_div_mod(n, channels);
    lemma_mul_inequality(g + 1, n / channels, channels);
    lemma_mul_nonnegative(g, channels);
    assert((g + 1) * channels <= (n / channels) * channels);
    assert((n / channels) * channels == channels * (n / channels));
    let grp = group_of(s, channels, g);
    assert(grp.len() == channels) by {
        vstd::arithmetic::mul::lemma_mul_is_distributive_add_other_way(channels, g, 1);
    }
    lemma_sum_shifted_is_sum(grp);
    lemma_hoist_over_denominator(sample_sum(grp), 32768, channels as nat);
    // The mixed value itself stays inside the 16-bit range.
    lemma_sum_shifted_bounds(grp);
    lemma_multiply_divide_le(sum_shifted(grp), channels, 65535);
    vstd::arithmetic::div_mod::lemma_div_pos_is_pos(sum_shifted(grp), channels);
    assert(g < ceil_div(n, channels)) by {
        lemma_ceil_div_count(n, channels, g);
        assert(g * channels < n) by {
            vstd::arithmetic::mul::lemma_mul_is_distributive_add_other_way(channels, g, 1);
        }
    }
}

/// Averages each channel-aligned group of interleaved samples into one
/// mono sample; a short trailing group is averaged over the full channel
/// count, exactly as a zero-extended group would be.
pub fn mix_to_mono(samples: &Vec<i16>, channels: usize) -> (out: Vec<i16>)
    requires
        1 <= channels <= 65535,
    ensures
        out@ == mixed(samples@, channels as int),
{
    let ghost ch = channels as int;
    let n = samples.len();
    let mut out: Vec<i16> = Vec::new();
    let mut base: usize = 0;
    let ghost mut g: int = 0;
    while base < n
        invariant
            1 <= ch <= 65535,
            ch == channels as int,
            n == samples@.len(),
            base == g * ch || (base == n && g * ch >= n),
            0 <= g,
            base <= n,
            out@.len() == g,
            g <= ceil_div(n as int, ch),
            forall|i: int| 0 <= i < g ==> out@[i] == mixed_at(samples@, ch, i) as i16,
        decreases n - base,
    {
        proof {
            lemma_ceil_div_count(n as int, ch, g);
        }
        let end: usize = if n - base < channels {
            n
        } else {
            base + channels
        };
        proof {
            vstd::arithmetic::mul::lemma_mul_is_distributive_add_other_way(ch, g, 1);
            assert(end as int == if (g + 1) * ch <= n as int {
                (g + 1) * ch
            } else {
                n as int
            });
        }
        let ghost grp = group_of(samples@, ch, g);
        let mut acc: u64 = 0;
        let mut j: usize = base;
        while j < end
            invariant
                base <= j <= end <= n,
                n == samples@.len(),
                grp == samples@.subrange(base as int, end as int),
                end - base <= channels <= 65535,
                acc == sum_shifted(samples@.subrange(base as int, j as int)),
                acc <= 65535 * (j - base),
            decreases end - j,
        {
            let sv: i16 = samples[j];
            let shifted: u32 = (sv as i32 + 32768) as u32;
            proof {
                assert(samples@.subrange(base as int, j + 1).drop_last()
                    =~= samples@.subrange(base as int, j as int));
            }
            acc = acc + shifted as u64;
            j += 1;
        }
        proof {
            assert(samples@.subrange(base as int, end as int) =~= grp);
            lemma_sum_shifted_bounds(grp);
            lemma_mul_inequality(grp.len() as int, ch, 65535);
            lemma_multiply_divide_le(sum_shifted(grp), ch, 65535);
        }
        let mean_shifted: u64 = acc / (channels as u64);
        let v: i16 = (mean_shifted as i32 - 32768) as i16;
        out.push(v);
        base = end;
        proof {
            g = g + 1;
            lemma_ceil_div_count(n as int, ch, g - 1);
            vstd::arithmetic::mul::lemma_mul_is_distributive_add_other_way(
                ch, g - 1, 1);
        }
    }
    proof {
        if g < ceil_div(n as int, ch) {
            lemma_ceil_div_count(n as int, ch, g);
            lemma_mul_nonnegative(g, ch);
            assert(false);
        }
        assert(out@ =~= mixed(samples@, ch));
    }
    out
}

} // verus!
