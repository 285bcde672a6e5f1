//! Cutting a region out of a buffer, the stages of its fade envelope, the
//! rate effects applied after trimming and the peak used for
//! normalisation.

use vstd::prelude::*;
use crate::arith::ceil_div;
use crate::regions::SampleRegion;
use crate::resample::{decimated, held, repeated, speed_buffer, reduce_sr_buffer, slow_buffer, lemma_unit_factor_identity};
use vstd::arithmetic::div_mod::lemma_fundamental_div_mod;

verus! {

/// Number of samples a trimmed file holds for `region` of a file of
/// `duration` frames.
pub fn trimmed_length(duration: u32, region: SampleRegion) -> (r: u32)
    requires
        region.start_point <= region.end_point <= duration,
    ensures
        r == region.end_point - region.start_point,
{
    (duration - region.start_point) - (duration - region.end_point)
}

/// The samples at positions `start .. start + length` that exist in
/// `samples`.
pub open spec fn trimmed(samples: Seq<i16>, start: int, length: int) -> Seq<i16> {
    let from = if start < samples.len() { start } else { samples.len() as int };
    let to = if start + length < samples.len() { start + length } else { samples.len() as int };
    samples.subrange(from, to)
}

/// Copies the samples at positions `start .. start + length`, skipping the
/// positions past the end of `samples`.
pub fn trim_samples(samples: &Vec<i16>, start: u32, length: u32) -> (r: Vec<i16>)
    requires
        start + length <= usize::MAX,
    ensures
        r@ == trimmed(samples@, start as int, length as int),
{
    let mut r: Vec<i16> = Vec::new();
    let n = samples.len();
    let s = start as usize;
    for i in 0..length as usize
        invariant
            n == samples@.len(),
            s == start,
            start + length <= usize::MAX,
            r@ == trimmed(samples@, start as int, i as int),
    {
        let index = i + s;
        if index < n {
            r.push(samples[index]);
        }
        proof {
            assert(r@ =~= trimmed(samples@, start as int, (i + 1) as int));
        }
    }
    r
}

/// The part of the fade envelope a sample falls in.
#[derive(Clone, Copy, Debug, PartialEq, Eq, Structural)]
pub enum FadeStage {
    /// Scaled up linearly from silence.
    FadeIn,
    /// Scaled down linearly towards silence.
    FadeOut,
    /// Left unchanged.
    Full,
}

/// A trimmed file holds exactly the samples of its region when the region
/// lies within the samples.
pub proof fn lemma_trim_is_region(samples: Seq<i16>, region: SampleRegion)
    requires
        region.start_point <= region.end_point <= samples.len(),
    ensures
        trimmed(
            samples,
            region.start_point as int,
            region.end_point - region.start_point,
        ) == samples.subrange(region.start_point as int, region.end_point as int),
{
}

/// The bound below which samples fade in: `fade_in` read as a `usize`, so
/// a negative length wraps to a bound near `usize::MAX`.
pub open spec fn fade_in_bound(fade_in: i32) -> int {
    if fade_in >= 0 {
        fade_in as int
    } else {
        usize::MAX + 1 + fade_in
    }
}

/// The fade stage of sample `i` of a trimmed buffer of `length` samples:
/// the samples below the fade-in bound fade in (all of them for a negative
/// fade-in length), the samples after position `length - fade_out` (the
/// last `fade_out` ones, or all of them when the buffer is shorter than the
/// fade-out) fade out, the others are left as they are.  The fade-in is
/// checked first.
pub open spec fn spec_fade_stage(i: int, length: u32, fade_in: i32, fade_out: i32) -> FadeStage {
    if i < fade_in_bound(fade_in) {
        FadeStage::FadeIn
    } else if i > length - fade_out {
        FadeStage::FadeOut
    } else {
        FadeStage::Full
    }
}

/// Classifies sample `i` of a trimmed buffer of `length` samples into its
/// fade stage.
pub fn fade_stage(i: usize, length: u32, fade_in: i32, fade_out: i32) -> (r: FadeStage)
    ensures
        r == spec_fade_stage(i as int, length, fade_in, fade_out),
        (length as int) < fade_out && i >= fade_in_bound(fade_in) ==> r == FadeStage::FadeOut,
        0 <= fade_out <= length && i >= fade_in_bound(fade_in) ==> (r == FadeStage::FadeOut <==> i
            + fade_out > length),
        0 <= fade_out <= length && i >= fade_in_bound(fade_in) ==> (r == FadeStage::Full <==> i
            + fade_out <= length),
        0 <= fade_in && i < fade_in ==> r == FadeStage::FadeIn,
        0 <= fade_in <= i && fade_out <= 0 && i < length ==> r == FadeStage::Full,
{
    let out_bound: i64 = length as i64 - fade_out as i64;
    let in_bound: usize = if fade_in >= 0 {
        fade_in as usize
    } else {
        usize::MAX - ((-(fade_in + 1)) as usize)
    };
    if i < in_bound {
        FadeStage::FadeIn
    } else if out_bound < 0 || (i as u64) > (out_bound as u64) {
        FadeStage::FadeOut
    } else {
        FadeStage::Full
    }
}

/// Length of a buffer of `len` samples after the speed-up by `speed_up`
/// (none when 0).
pub open spec fn sped_up_len(len: nat, speed_up: u32) -> int {
    if speed_up > 0 {
        ceil_div(len as int, speed_up as int)
    } else {
        len as int
    }
}

/// The rate effects in the order they are applied: sample-rate reduction
/// when the divider is above 1, speed-up when its factor is positive,
/// slow-down when its factor is positive.
pub open spec fn rate_effects(buf: Seq<i16>, reduce_sr: u32, speed_up: u32, slow_down: u32) -> Seq<
    i16,
> {
    let reduced = if reduce_sr > 1 {
        held(buf, reduce_sr as nat)
    } else {
        buf
    };
    let sped = if speed_up > 0 {
        decimated(reduced, speed_up as nat)
    } else {
        reduced
    };
    if slow_down > 0 {
        repeated(sped, slow_down as nat)
    } else {
        sped
    }
}

/// The rate effects read sample by sample: with the divider `d`, the
/// speed-up `s` and the slow-down `l` (each 1 when not applied), the result
/// holds `ceil(n / s) * l` samples, and sample `k` is the input sample held
/// at position `j - j % d` for `j = (k / l) * s`: the reduction acts on the
/// input before the speed-up picks every `s`-th sample, and the slow-down
/// repeats the picked samples last.
pub proof fn lemma_rate_effects_direct(buf: Seq<i16>, reduce_sr: u32, speed_up: u32, slow_down: u32)
    ensures
        ({
            let r = rate_effects(buf, reduce_sr, speed_up, slow_down);
            let d = if reduce_sr > 1 {
                reduce_sr as int
            } else {
                1
            };
            let s = if speed_up > 0 {
                speed_up as int
            } else {
                1
            };
            let l = if slow_down > 0 {
                slow_down as int
            } else {
                1
            };
            &&& r.len() == ((buf.len() + s - 1) / s) * l
            &&& forall|k: int|
                0 <= k < r.len() ==> #[trigger] r[k] == buf[(k / l) * s - ((k / l) * s) % d]
        }),
{
    let d = if reduce_sr > 1 {
        reduce_sr as int
    } else {
        1
    };
    let s = if speed_up > 0 {
        speed_up as int
    } else {
        1
    };
    let l = if slow_down > 0 {
        slow_down as int
    } else {
        1
    };
    let n = buf.len() as int;
    let a = held(buf, d as nat);
    lemma_unit_factor_identity(buf);
    assert(a == (if reduce_sr > 1 {
        held(buf, reduce_sr as nat)
    } else {
        buf
    }));
    let b = decimated(a, s as nat);
    lemma_unit_factor_identity(a);
    let c = repeated(b, l as nat);
    lemma_unit_factor_identity(b);
    assert(c == rate_effects(buf, reduce_sr, speed_up, slow_down));
    let q = ceil_div(n, s);
    assert(b.len() == q);
    lemma_fundamental_div_mod(n + s - 1, s);
    let rem = (n + s - 1) % s;
    assert(0 <= q) by (nonlinear_arith)
        requires
            n + s - 1 == s * q + rem,
            0 <= rem < s,
            n >= 0,
            s > 0,
    ;
    assert(c.len() == q * l);
    assert forall|k: int| 0 <= k < c.len() implies #[trigger] c[k] == buf[(k / l) * s - ((k / l)
        * s) % d] by {
        lemma_fundamental_div_mod(k, l);
        let m = k / l;
        assert(0 <= m < q) by (nonlinear_arith)
            requires
                k == l * m + k % l,
                0 <= k % l < l,
                0 <= k < q * l,
                l > 0,
        ;
        assert(c[k] == b[m]);
        let j = m * s;
        assert(0 <= j < n) by (nonlinear_arith)
            requires
                j == m * s,
                0 <= m < q,
                n + s - 1 == s * q + rem,
                0 <= rem < s,
                s > 0,
        ;
        assert(b[m] == a[j]);
    }
}

/// Applies the rate effects of a processing preset to a trimmed buffer.
pub fn apply_rate_effects(buf: Vec<i16>, reduce_sr: u32, speed_up: u32, slow_down: u32) -> (r: Vec<
    i16,
>)
    requires
        sped_up_len(buf@.len(), speed_up) * slow_down <= usize::MAX,
    ensures
        r@ == rate_effects(buf@, reduce_sr, speed_up, slow_down),
        ({
            let d = if reduce_sr > 1 {
                reduce_sr as int
            } else {
                1
            };
            let s = if speed_up > 0 {
                speed_up as int
            } else {
                1
            };
            let l = if slow_down > 0 {
                slow_down as int
            } else {
                1
            };
            &&& r@.len() == ((buf@.len() + s - 1) / s) * l
            &&& forall|k: int|
                0 <= k < r@.len() ==> #[trigger] r@[k] == buf@[(k / l) * s - ((k / l) * s) % d]
        }),
{
    proof {
        lemma_rate_effects_direct(buf@, reduce_sr, speed_up, slow_down);
    }
    let mut b = buf;
    let ghost input = b@;
    if reduce_sr > 1 {
        b = reduce_sr_buffer(b, reduce_sr);
    }
    assert(b@.len() == input.len());
    if speed_up > 0 {
        b = speed_buffer(b, speed_up);
    }
    if slow_down > 0 {
        b = slow_buffer(b, slow_down);
    }
    b
}

/// The largest absolute sample value (0 for an empty buffer).
pub fn peak_amplitude(buffer: &Vec<i16>) -> (r: i32)
    ensures
        0 <= r,
        forall|i: int| 0 <= i < buffer@.len() ==> #[trigger] abs_sample(buffer@[i]) <= r,
        r == 0 || exists|i: int| 0 <= i < buffer@.len() && #[trigger] abs_sample(buffer@[i]) == r,
{
    let mut max_gain: i32 = 0;
    for i in 0..buffer.len()
        invariant
            0 <= max_gain,
            forall|k: int| 0 <= k < i ==> #[trigger] abs_sample(buffer@[k]) <= max_gain,
            max_gain == 0 || exists|k: int|
                0 <= k < i && #[trigger] abs_sample(buffer@[k]) == max_gain,
    {
        let s = buffer[i] as i32;
        let sample = if s < 0 {
            -s
        } else {
            s
        };
        assert(sample == abs_sample(buffer@[i as int]));
        if sample > max_gain {
            max_gain = sample;
        }
    }
    max_gain
}

/// Absolute value of a sample, as an integer.
pub open spec fn abs_sample(s: i16) -> int {
    if s < 0 {
        -s
    } else {
        s as int
    }
}

} // verus!
